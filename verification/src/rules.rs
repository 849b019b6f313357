use vstd::prelude::*;

use crate::roles::{GamePhase, Role, WinReason, spec_crew_win};
use crate::save::SaveData;

verus! {

/// Shared crew task bar.
#[derive(Clone, Copy, PartialEq, Eq, Structural, Debug, Default)]
pub struct TaskBoard {
    pub completed: u32,
    pub total: u32,
}

/// How the match was seeded, so win rules never fire spuriously
/// (for example when no impostor was assigned).
#[derive(Clone, Copy, PartialEq, Eq, Structural, Debug, Default)]
pub struct MatchStats {
    pub impostors_spawned: u32,
    pub players_spawned: u32,
}

/// Integer match settings (timings live with the frame clock).
#[derive(Clone, Copy, PartialEq, Eq, Structural, Debug)]
pub struct MatchConfig {
    pub max_players: u8,
    pub impostor_count: u8,
    pub emergency_meetings: u8,
    pub tasks_per_crewmate: u8,
    /// Offline bots added to a local lobby.
    pub bot_count: u8,
}

impl Default for MatchConfig {
    fn default() -> (r: Self)
        ensures
            r == (MatchConfig { max_players: 10, impostor_count: 1, emergency_meetings: 1, tasks_per_crewmate: 4, bot_count: 3 }),
    {
        MatchConfig { max_players: 10, impostor_count: 1, emergency_meetings: 1, tasks_per_crewmate: 4, bot_count: 3 }
    }
}

/// Number of entries of `roles` equal to `role`.
pub open spec fn count_role(roles: Seq<Role>, role: Role) -> nat
    decreases roles.len(),
{
    if roles.len() == 0 {
        0
    } else {
        count_role(roles.drop_last(), role) + if roles.last() == role { 1nat } else { 0nat }
    }
}

/// The win rule for kills, tasks and ejections, over living counts.
///
/// 1. A full task bar (with at least one task) wins for the crew.
/// 2. With nobody alive there is no winner.
/// 3. If impostors were seeded and none is left, the crew wins.
/// 4. If impostors were seeded and they are at least as many as the crew,
///    the impostors win.
pub open spec fn spec_win(tasks: TaskBoard, crew: u32, imps: u32, stats: MatchStats) -> Option<WinReason> {
    if tasks.total > 0 && tasks.completed >= tasks.total {
        Some(WinReason::Tasks)
    } else if crew == 0 && imps == 0 {
        None
    } else if imps == 0 && stats.impostors_spawned > 0 {
        Some(WinReason::ImpostorsEliminated)
    } else if stats.impostors_spawned > 0 && imps >= crew {
        Some(WinReason::ImpostorMajority)
    } else {
        None
    }
}

/// Living crew and impostor counts, given the roles of the living players.
pub fn living_role_counts(living: &[Role]) -> (r: (u32, u32))
    requires
        living@.len() <= u32::MAX,
    ensures
        r.0 == count_role(living@, Role::Crewmate),
        r.1 == count_role(living@, Role::Impostor),
{
    let mut crew: u32 = 0;
    let mut imps: u32 = 0;
    let mut i: usize = 0;
    while i < living.len()
        invariant
            i <= living@.len() <= u32::MAX,
            crew == count_role(living@.take(i as int), Role::Crewmate),
            imps == count_role(living@.take(i as int), Role::Impostor),
            crew + imps == i,
        decreases living@.len() - i,
    {
        proof {
            assert(living@.take(i as int + 1).drop_last() =~= living@.take(i as int));
        }
        match living[i] {
            Role::Crewmate => crew = crew + 1,
            Role::Impostor => imps = imps + 1,
        }
        i = i + 1;
    }
    proof {
        assert(living@.take(living@.len() as int) =~= living@);
    }
    (crew, imps)
}

/// The pure win rule (kills, tasks, ejections); sabotage has its own path.
/// `Some(reason)` ends the match.
pub fn compute_win_from_counts(tasks: &TaskBoard, crew: u32, imps: u32, stats: &MatchStats) -> (r: Option<WinReason>)
    ensures
        r == spec_win(*tasks, crew, imps, *stats),
{
    let living = crew.saturating_add(imps);

    if tasks.total > 0 && tasks.completed >= tasks.total {
        return Some(WinReason::Tasks);
    }
    if living == 0 {
        return None;
    }
    if imps == 0 && stats.impostors_spawned > 0 {
        return Some(WinReason::ImpostorsEliminated);
    }
    if stats.impostors_spawned > 0 && imps >= crew {
        return Some(WinReason::ImpostorMajority);
    }
    None
}

/// The win rule over the roles of the living players.
pub fn compute_win(tasks: &TaskBoard, living: &[Role], stats: &MatchStats) -> (r: Option<WinReason>)
    requires
        living@.len() <= u32::MAX,
    ensures
        r == spec_win(
            *tasks,
            count_role(living@, Role::Crewmate) as u32,
            count_role(living@, Role::Impostor) as u32,
            *stats,
        ),
{
    let (crew, imps) = living_role_counts(living);
    compute_win_from_counts(tasks, crew, imps, stats)
}

pub open spec fn saturating_inc(x: u32) -> u32 {
    if x == u32::MAX { x } else { (x + 1) as u32 }
}

/// `new` is `old` with one finished match recorded: one more game played
/// and one more win for the winning side (each counter saturates), the
/// profile itself unchanged.
pub open spec fn result_recorded(old: SaveData, new: SaveData, crew_win: bool) -> bool {
    &&& new.games_played == saturating_inc(old.games_played)
    &&& new.crew_wins == if crew_win { saturating_inc(old.crew_wins) } else { old.crew_wins }
    &&& new.impostor_wins == if crew_win { old.impostor_wins } else { saturating_inc(old.impostor_wins) }
    &&& new.version == old.version
    &&& new.player_name == old.player_name
    &&& new.preferred_color_index == old.preferred_color_index
}

/// Ends the match once: sets `GameOver` and records the result in the save
/// data. Returns whether the save data changed (and should be persisted).
/// A match that is already over is left untouched.
pub fn apply_game_over(phase: &mut GamePhase, reason: WinReason, save: &mut SaveData) -> (changed: bool)
    ensures
        changed == !(*old(phase) is GameOver),
        !changed ==> *final(phase) == *old(phase) && *final(save) == *old(save),
        changed ==> *final(phase) == (GamePhase::GameOver { crew_win: spec_crew_win(reason), reason })
            && result_recorded(*old(save), *final(save), spec_crew_win(reason)),
{
    if let GamePhase::GameOver { .. } = *phase {
        return false;
    }
    let crew_win = reason.crew_win();
    *phase = GamePhase::GameOver { crew_win, reason };
    save.games_played = save.games_played.saturating_add(1);
    if crew_win {
        save.crew_wins = save.crew_wins.saturating_add(1);
    } else {
        save.impostor_wins = save.impostor_wins.saturating_add(1);
    }
    true
}

} // verus!
