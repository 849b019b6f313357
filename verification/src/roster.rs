use vstd::prelude::*;

use crate::chance::shuffle_in_place;
use crate::layout::{Point, player_spawns, spec_player_spawns};
use crate::lobby::{LobbySlot, LobbyState, bot_name};
use crate::roles::{Role, RuntimeMode};
use crate::rules::{MatchConfig, MatchStats, TaskBoard};
use crate::save::{PLAYER_COLOR_COUNT, SaveData};
use crate::tasks::{PlayerTasks, assign_tasks, tasks_assigned};
use crate::text::push_decimal;

verus! {

/// Who drives a spawned player.
#[derive(Clone, Copy, PartialEq, Eq, Structural, Debug)]
pub enum Controller {
    /// The player at this keyboard.
    Local,
    /// An offline bot.
    Bot,
    /// A remote client, simulated by this host.
    Remote,
    /// Nobody here (a seat this process does not simulate).
    Unclaimed,
}

/// One player to spawn at the start of a match.
#[derive(Clone, PartialEq, Eq, Debug)]
pub struct RosterEntry {
    pub slot: LobbySlot,
    pub role: Role,
    pub control: Controller,
    pub spawn: Point,
    /// The crewmate's task list (impostors get none).
    pub tasks: Option<PlayerTasks>,
}

/// Everything the start of a match decides.
#[derive(Clone, PartialEq, Eq, Debug)]
pub struct RosterPlan {
    pub entries: Vec<RosterEntry>,
    pub stats: MatchStats,
    pub task_board: TaskBoard,
    pub local_player_id: Option<u64>,
    pub local_role: Option<Role>,
}

/// Impostors for `n` players: the configured count, but at most `n - 1`,
/// and at least one as soon as there are two players.
pub open spec fn spec_impostor_count(n: int, configured: int) -> int {
    let capped = if configured <= n - 1 { configured } else if n >= 1 { n - 1 } else { 0 };
    if n >= 2 && capped < 1 { 1 } else { capped }
}

/// Ids of the slots picked first by `order`, `k` of them.
pub open spec fn chosen_ids(slots: Seq<LobbySlot>, order: Seq<usize>, k: int) -> Set<u64> {
    Set::new(|id: u64| exists|m: int| 0 <= m < k && m < order.len() && slots[order[m] as int].id == id)
}

/// A player is an impostor when its id was picked.
pub open spec fn role_for(chosen: Set<u64>, id: u64) -> Role {
    if chosen.contains(id) { Role::Impostor } else { Role::Crewmate }
}

/// Number of slots whose id was not picked.
pub open spec fn crew_count(slots: Seq<LobbySlot>, chosen: Set<u64>) -> nat
    decreases slots.len(),
{
    if slots.len() == 0 {
        0
    } else {
        crew_count(slots.drop_last(), chosen) + if chosen.contains(slots.last().id) { 0nat } else { 1nat }
    }
}

/// Index of the last local slot, if any.
pub open spec fn last_local(slots: Seq<LobbySlot>) -> Option<int>
    decreases slots.len(),
{
    if slots.len() == 0 {
        None
    } else if slots.last().is_local {
        Some(slots.len() - 1)
    } else {
        last_local(slots.drop_last())
    }
}

/// `a * b`, saturating at `u32::MAX`.
pub open spec fn saturating_mul_u32(a: int, b: int) -> u32 {
    if a * b > u32::MAX { u32::MAX } else { (a * b) as u32 }
}

/// Who drives a seat: the local player, a bot, or (when hosting) a remote client.
pub open spec fn spec_controller(slot: LobbySlot, mode: RuntimeMode) -> Controller {
    if slot.is_local {
        Controller::Local
    } else if slot.is_bot {
        Controller::Bot
    } else if mode is Host {
        Controller::Remote
    } else {
        Controller::Unclaimed
    }
}

/// The roster that a plan must be for these seats, this pick order and
/// these settings.
pub open spec fn spec_roster_plan(slots: Seq<LobbySlot>, order: Seq<usize>, cfg: MatchConfig, mode: RuntimeMode, plan: RosterPlan) -> bool {
    let k = spec_impostor_count(slots.len() as int, cfg.impostor_count as int);
    let chosen = chosen_ids(slots, order, k);
    &&& plan.entries@.len() == slots.len()
    &&& forall|j: int| 0 <= j < slots.len() ==> {
        let e = #[trigger] plan.entries@[j];
        &&& e.slot == slots[j]
        &&& e.role == role_for(chosen, slots[j].id)
        &&& e.control == spec_controller(slots[j], mode)
        &&& e.spawn == spec_player_spawns()[j % (spec_player_spawns().len() as int)]
        &&& (e.role is Crewmate <==> e.tasks is Some)
        &&& (e.tasks matches Some(t) ==> tasks_assigned(t, slots[j].id, cfg.tasks_per_crewmate as int))
    }
    &&& plan.stats == (MatchStats { impostors_spawned: chosen.len() as u32, players_spawned: slots.len() as u32 })
    &&& plan.task_board == (TaskBoard {
        completed: 0,
        total: saturating_mul_u32(crew_count(slots, chosen) as int, cfg.tasks_per_crewmate as int),
    })
    &&& plan.local_player_id == (match last_local(slots) { Some(i) => Some(slots[i].id), None => None })
    &&& plan.local_role == (match last_local(slots) { Some(i) => Some(role_for(chosen, slots[i].id)), None => None })
}

/// Impostors for `n` players.
pub fn impostor_count(n: usize, configured: u8) -> (r: usize)
    ensures
        r == spec_impostor_count(n as int, configured as int),
{
    let capped = if (configured as usize) <= n.saturating_sub(1) { configured as usize } else { n.saturating_sub(1) };
    if n >= 2 && capped < 1 { 1 } else { capped }
}

fn contains_id(ids: &Vec<u64>, id: u64) -> (r: bool)
    ensures
        r == ids@.contains(id),
{
    let mut i: usize = 0;
    while i < ids.len()
        invariant
            i <= ids@.len(),
            forall|j: int| 0 <= j < i ==> ids@[j] != id,
        decreases ids@.len() - i,
    {
        if ids[i] == id {
            return true;
        }
        i = i + 1;
    }
    false
}

/// The distinct ids of the slots picked first by `order`.
fn pick_impostors(slots: &[LobbySlot], order: &[usize], k: usize) -> (ids: Vec<u64>)
    requires
        forall|m: int| 0 <= m < order@.len() ==> order@[m] < slots@.len(),
    ensures
        ids@.no_duplicates(),
        ids@.to_set() == chosen_ids(slots@, order@, k as int),
        ids@.len() == chosen_ids(slots@, order@, k as int).len(),
        ids@.len() <= slots@.len(),
{
    let mut ids: Vec<u64> = Vec::new();
    let mut m: usize = 0;
    let limit = if k < order.len() { k } else { order.len() };
    while m < limit
        invariant
            limit <= k,
            limit <= order@.len(),
            m <= limit,
            forall|q: int| 0 <= q < order@.len() ==> order@[q] < slots@.len(),
            ids@.no_duplicates(),
            ids@.to_set() == chosen_ids(slots@, order@, m as int),
        decreases limit - m,
    {
        let id = slots[order[m]].id;
        let present = contains_id(&ids, id);
        proof {
            assert(chosen_ids(slots@, order@, m as int + 1) =~= chosen_ids(slots@, order@, m as int).insert(id));
        }
        if !present {
            proof {
                ids@.lemma_push_to_set_commute(id);
            }
            ids.push(id);
        } else {
            proof {
                assert(ids@.to_set().contains(id));
                assert(ids@.to_set().insert(id) =~= ids@.to_set());
            }
        }
        m = m + 1;
    }
    proof {
        assert(chosen_ids(slots@, order@, limit as int) =~= chosen_ids(slots@, order@, k as int));
        ids@.unique_seq_to_set();
        assert forall|id: u64| chosen_ids(slots@, order@, k as int).contains(id) implies slots@.map_values(|s: LobbySlot| s.id).to_set().contains(id) by {
            let q = choose|q: int| 0 <= q < k && q < order@.len() && slots@[order@[q] as int].id == id;
            assert(slots@.map_values(|s: LobbySlot| s.id)[order@[q] as int] == id);
        }
        vstd::set_lib::lemma_len_subset(chosen_ids(slots@, order@, k as int), slots@.map_values(|s: LobbySlot| s.id).to_set());
        slots@.map_values(|s: LobbySlot| s.id).lemma_cardinality_of_set();
    }
    ids
}

/// Plans the start of a match from the lobby seats and a pick order (the
/// first `impostor_count` seats of `order` become impostors). Everyone else
/// is crew and gets a task list; the shared task bar counts the crew's tasks.
pub fn plan_roster(slots: &[LobbySlot], order: &[usize], cfg: &MatchConfig, mode: RuntimeMode) -> (plan: RosterPlan)
    requires
        slots@.len() <= u32::MAX,
        forall|m: int| 0 <= m < order@.len() ==> order@[m] < slots@.len(),
        forall|j: int| 0 <= j < slots@.len() ==> (#[trigger] slots@[j]).id * 7 <= usize::MAX,
    ensures
        spec_roster_plan(slots@, order@, *cfg, mode, plan),
{
    let n = slots.len();
    let k = impostor_count(n, cfg.impostor_count);
    let picked = pick_impostors(slots, order, k);
    let ghost chosen = chosen_ids(slots@, order@, k as int);
    let spawns = player_spawns();
    let mut entries: Vec<RosterEntry> = Vec::new();
    let mut crew: u32 = 0;
    let mut local_player_id: Option<u64> = None;
    let mut local_role: Option<Role> = None;
    let mut j: usize = 0;
    while j < n
        invariant
            n == slots@.len() <= u32::MAX,
            forall|q: int| 0 <= q < slots@.len() ==> (#[trigger] slots@[q]).id * 7 <= usize::MAX,
            picked@.to_set() == chosen,
            spawns@ == spec_player_spawns(),
            j <= n,
            entries@.len() == j,
            crew == crew_count(slots@.take(j as int), chosen),
            crew <= j,
            forall|q: int| 0 <= q < j ==> {
                let e = #[trigger] entries@[q];
                &&& e.slot == slots@[q]
                &&& e.role == role_for(chosen, slots@[q].id)
                &&& e.control == spec_controller(slots@[q], mode)
                &&& e.spawn == spec_player_spawns()[q % (spec_player_spawns().len() as int)]
                &&& (e.role is Crewmate <==> e.tasks is Some)
                &&& (e.tasks matches Some(t) ==> tasks_assigned(t, slots@[q].id, cfg.tasks_per_crewmate as int))
            },
            local_player_id == (match last_local(slots@.take(j as int)) { Some(i) => Some(slots@[i].id), None => None }),
            local_role == (match last_local(slots@.take(j as int)) { Some(i) => Some(role_for(chosen, slots@[i].id)), None => None }),
        decreases n - j,
    {
        proof {
            assert(slots@.take(j as int + 1).drop_last() =~= slots@.take(j as int));
        }
        let slot = &slots[j];
        let is_imp = contains_id(&picked, slot.id);
        proof {
            assert(picked@.contains(slot.id) == picked@.to_set().contains(slot.id));
        }
        let role = if is_imp { Role::Impostor } else { Role::Crewmate };
        if !is_imp {
            crew = crew + 1;
        }
        let control = if slot.is_local {
            Controller::Local
        } else if slot.is_bot {
            Controller::Bot
        } else if mode == RuntimeMode::Host {
            Controller::Remote
        } else {
            Controller::Unclaimed
        };
        let tasks = if is_imp {
            None
        } else {
            Some(assign_tasks(slot.id, cfg.tasks_per_crewmate as usize))
        };
        if slot.is_local {
            local_player_id = Some(slot.id);
            local_role = Some(role);
        }
        let spawn = spawns[j % spawns.len()];
        entries.push(RosterEntry { slot: slot.duplicate(), role, control, spawn, tasks });
        j = j + 1;
    }
    proof {
        assert(slots@.take(n as int) =~= slots@);
    }
    assert((crew as u64) * (cfg.tasks_per_crewmate as u64) <= u64::MAX) by (nonlinear_arith)
        requires
            crew <= u32::MAX,
            cfg.tasks_per_crewmate <= 255,
    ;
    let total64 = (crew as u64) * (cfg.tasks_per_crewmate as u64);
    let total: u32 = if total64 > u32::MAX as u64 { u32::MAX } else { total64 as u32 };
    RosterPlan {
        entries,
        stats: MatchStats { impostors_spawned: picked.len() as u32, players_spawned: n as u32 },
        task_board: TaskBoard { completed: 0, total },
        local_player_id,
        local_role,
    }
}

/// The seats of an offline match started with an empty lobby: the local
/// player (id 1) and the configured number of bots (ids from 10).
pub open spec fn is_default_roster(slots: Seq<LobbySlot>, save: SaveData, cfg: MatchConfig) -> bool {
    &&& slots.len() == 1 + cfg.bot_count
    &&& slots[0] == (LobbySlot {
        id: 1,
        name: save.player_name,
        color_index: save.preferred_color_index,
        ready: true,
        is_local: true,
        is_host: true,
        is_bot: false,
    })
    &&& forall|k: int| 1 <= k < slots.len() ==> {
        let s = #[trigger] slots[k];
        &&& s.id == 10 + (k - 1)
        &&& s.name@ == bot_name((k - 1) as u64)
        &&& s.color_index == (save.preferred_color_index + k) % (PLAYER_COLOR_COUNT as int)
        &&& s.ready && !s.is_local && !s.is_host && s.is_bot
    }
}

/// The seats of an offline match started with an empty lobby.
pub fn default_roster(save: &SaveData, cfg: &MatchConfig) -> (slots: Vec<LobbySlot>)
    ensures
        is_default_roster(slots@, *save, *cfg),
{
    let mut slots: Vec<LobbySlot> = Vec::new();
    slots.push(LobbySlot {
        id: 1,
        name: save.player_name.clone(),
        color_index: save.preferred_color_index,
        ready: true,
        is_local: true,
        is_host: true,
        is_bot: false,
    });
    let bots = cfg.bot_count as u64;
    let mut i: u64 = 0;
    while i < bots
        invariant
            bots == cfg.bot_count,
            i <= bots,
            slots@.len() == 1 + i,
            slots@[0] == (LobbySlot {
                id: 1,
                name: save.player_name,
                color_index: save.preferred_color_index,
                ready: true,
                is_local: true,
                is_host: true,
                is_bot: false,
            }),
            forall|k: int| 1 <= k < slots@.len() ==> {
                let s = #[trigger] slots@[k];
                &&& s.id == 10 + (k - 1)
                &&& s.name@ == bot_name((k - 1) as u64)
                &&& s.color_index == (save.preferred_color_index + k) % (PLAYER_COLOR_COUNT as int)
                &&& s.ready && !s.is_local && !s.is_host && s.is_bot
            },
        decreases bots - i,
    {
        let mut name = String::from_str("Agent-");
        push_decimal(&mut name, i + 2);
        proof {
            reveal_strlit("Agent-");
        }
        let color = ((save.preferred_color_index as u64 + 1 + i) % (PLAYER_COLOR_COUNT as u64)) as u8;
        slots.push(LobbySlot {
            id: 10 + i,
            name,
            color_index: color,
            ready: true,
            is_local: false,
            is_host: false,
            is_bot: true,
        });
        i = i + 1;
    }
    slots
}

/// Starts a match: the lobby seats (or, with an empty lobby, the default
/// offline seats) are shuffled into a random pick order, and the roster is
/// planned from it. The pick order comes back too: it is a permutation of
/// the seat indices, and the plan is exactly the one for that order.
pub fn spawn_roster(lobby: &LobbyState, save: &SaveData, cfg: &MatchConfig, mode: RuntimeMode) -> (r: (RosterPlan, Vec<usize>))
    requires
        lobby.slots@.len() <= u32::MAX,
        forall|j: int| 0 <= j < lobby.slots@.len() ==> (#[trigger] lobby.slots@[j]).id * 7 <= usize::MAX,
    ensures
        lobby.slots@.len() > 0 ==> spec_roster_plan(lobby.slots@, r.1@, *cfg, mode, r.0),
        lobby.slots@.len() == 0 ==> exists|slots: Seq<LobbySlot>| is_default_roster(slots, *save, *cfg)
            && spec_roster_plan(slots, r.1@, *cfg, mode, r.0),
        r.1@.to_multiset() == Seq::new(r.0.entries@.len(), |i: int| i as usize).to_multiset(),
{
    let slots: Vec<LobbySlot> = if lobby.slots.len() == 0 {
        default_roster(save, cfg)
    } else {
        let mut copy: Vec<LobbySlot> = Vec::new();
        let mut j: usize = 0;
        while j < lobby.slots.len()
            invariant
                j <= lobby.slots@.len(),
                copy@ == lobby.slots@.take(j as int),
            decreases lobby.slots@.len() - j,
        {
            copy.push(lobby.slots[j].duplicate());
            proof {
                assert(copy@ =~= lobby.slots@.take(j as int + 1));
            }
            j = j + 1;
        }
        proof {
            assert(lobby.slots@.take(j as int) =~= lobby.slots@);
        }
        copy
    };
    let n = slots.len();
    let mut order: Vec<usize> = Vec::new();
    let mut i: usize = 0;
    while i < n
        invariant
            i <= n,
            order@ == Seq::new(i as nat, |q: int| q as usize),
        decreases n - i,
    {
        order.push(i);
        proof {
            assert(order@ =~= Seq::new(i as nat + 1, |q: int| q as usize));
        }
        i = i + 1;
    }
    let ghost initial = order@;
    shuffle_in_place(&mut order);
    proof {
        order@.to_multiset_ensures();
        initial.to_multiset_ensures();
        assert forall|m: int| 0 <= m < order@.len() implies order@[m] < n by {
            assert(order@.contains(order@[m]));
            assert(order@.to_multiset().count(order@[m]) > 0);
            assert(initial.to_multiset().count(order@[m]) > 0);
            assert(initial.contains(order@[m]));
            let q = choose|q: int| 0 <= q < initial.len() && initial[q] == order@[m];
        }
        if lobby.slots@.len() == 0 {
            assert(forall|j: int| 0 <= j < slots@.len() ==> (#[trigger] slots@[j]).id <= 10 + 255);
        }
    }
    let plan = plan_roster(&slots, &order, cfg, mode);
    (plan, order)
}

} // verus!
