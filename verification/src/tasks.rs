use vstd::prelude::*;

use crate::layout::{spec_task_stations, task_stations};
use crate::rules::TaskBoard;

verus! {

/// A player's assigned task consoles and the one being held right now.
/// (How far the current hold has progressed is a timer kept by the caller.)
#[derive(Clone, PartialEq, Eq, Debug)]
pub struct TaskAssignments {
    pub assigned: Vec<u32>,
    pub completed: Vec<u32>,
    pub active_task: Option<u32>,
}

/// Number of entries of `s` that do not occur in `done`.
pub open spec fn count_remaining(s: Seq<u32>, done: Seq<u32>) -> nat
    decreases s.len(),
{
    if s.len() == 0 {
        0
    } else {
        count_remaining(s.drop_last(), done) + if done.contains(s.last()) { 0nat } else { 1nat }
    }
}

pub proof fn lemma_count_remaining_bound(s: Seq<u32>, done: Seq<u32>)
    ensures
        count_remaining(s, done) <= s.len(),
    decreases s.len(),
{
    if s.len() > 0 {
        lemma_count_remaining_bound(s.drop_last(), done);
    }
}

fn vec_contains(v: &Vec<u32>, x: u32) -> (r: bool)
    ensures
        r == v@.contains(x),
{
    let mut i: usize = 0;
    while i < v.len()
        invariant
            i <= v@.len(),
            forall|j: int| 0 <= j < i ==> v@[j] != x,
        decreases v@.len() - i,
    {
        if v[i] == x {
            return true;
        }
        i = i + 1;
    }
    false
}

impl TaskAssignments {
    /// Fresh assignments: nothing completed, nothing held.
    pub fn new(assigned: Vec<u32>) -> (r: Self)
        ensures
            r.assigned@ == assigned@,
            r.completed@.len() == 0,
            r.active_task is None,
    {
        TaskAssignments { assigned, completed: Vec::new(), active_task: None }
    }

    /// Whether this console is one of the player's tasks.
    pub fn has(&self, id: u32) -> (r: bool)
        ensures
            r == self.assigned@.contains(id),
    {
        vec_contains(&self.assigned, id)
    }

    /// Whether the player already completed this console.
    pub fn is_done(&self, id: u32) -> (r: bool)
        ensures
            r == self.completed@.contains(id),
    {
        vec_contains(&self.completed, id)
    }

    /// Number of assigned entries not completed yet.
    pub fn remaining(&self) -> (r: usize)
        ensures
            r == count_remaining(self.assigned@, self.completed@),
    {
        let mut n: usize = 0;
        let mut i: usize = 0;
        while i < self.assigned.len()
            invariant
                i <= self.assigned@.len(),
                n == count_remaining(self.assigned@.take(i as int), self.completed@),
            decreases self.assigned@.len() - i,
        {
            proof {
                assert(self.assigned@.take(i as int + 1).drop_last() =~= self.assigned@.take(i as int));
                lemma_count_remaining_bound(self.assigned@.take(i as int), self.completed@);
            }
            if !self.is_done(self.assigned[i]) {
                n = n + 1;
            }
            i = i + 1;
        }
        proof {
            assert(self.assigned@.take(self.assigned@.len() as int) =~= self.assigned@);
        }
        n
    }

    /// Starts holding console `id` unless it is already the one held.
    /// Returns whether a new hold started (so its progress restarts at zero).
    pub fn reset_hold_if_not(&mut self, id: u32) -> (restarted: bool)
        ensures
            restarted == (old(self).active_task != Some(id)),
            final(self).active_task == Some(id),
            final(self).assigned == old(self).assigned,
            final(self).completed == old(self).completed,
    {
        let same = match self.active_task {
            Some(a) => a == id,
            None => false,
        };
        if !same {
            self.active_task = Some(id);
        }
        !same
    }

    /// Stops holding any console.
    pub fn clear_hold(&mut self)
        ensures
            final(self).active_task is None,
            final(self).assigned == old(self).assigned,
            final(self).completed == old(self).completed,
    {
        self.active_task = None;
    }

    /// Finishes the held console: when it is an assigned task not yet done
    /// it is marked completed and returned. The hold ends either way.
    pub fn complete_active(&mut self) -> (r: Option<u32>)
        ensures
            final(self).active_task is None,
            final(self).assigned == old(self).assigned,
            r == match old(self).active_task {
                Some(id) => if old(self).assigned@.contains(id) && !old(self).completed@.contains(id) { Some(id) } else { None },
                None => None,
            },
            r matches Some(id) ==> final(self).completed@ == old(self).completed@.push(id),
            r is None ==> final(self).completed == old(self).completed,
    {
        let id = match self.active_task {
            Some(id) => id,
            None => return None,
        };
        if !self.has(id) || self.is_done(id) {
            self.clear_hold();
            return None;
        }
        self.completed.push(id);
        self.clear_hold();
        Some(id)
    }
}

impl TaskBoard {
    /// Counts one finished task, never beyond the total.
    pub fn record_completion(&mut self)
        ensures
            final(self).total == old(self).total,
            final(self).completed == if old(self).completed < old(self).total { (old(self).completed + 1) as u32 } else { old(self).completed },
    {
        if self.completed < self.total {
            self.completed = self.completed + 1;
        }
    }
}

/// One frame of a player's task work, before the hold timer advances: a
/// crewmate holding interact works on the nearest of its unfinished
/// consoles in reach (`nearest`, as the caller found it). Returns
/// `Some(restarted)` while working (a new console restarts the hold timer),
/// `None` when the hold ends.
pub fn begin_task_work(a: &mut TaskAssignments, crew_interacting: bool, nearest: Option<u32>) -> (r: Option<bool>)
    ensures
        final(a).assigned == old(a).assigned,
        final(a).completed == old(a).completed,
        !crew_interacting || nearest is None ==> r is None && final(a).active_task is None,
        crew_interacting && nearest is Some ==> r == Some(old(a).active_task != nearest) && final(a).active_task == nearest,
{
    if !crew_interacting {
        a.clear_hold();
        return None;
    }
    match nearest {
        None => {
            a.clear_hold();
            None
        },
        Some(id) => Some(a.reset_hold_if_not(id)),
    }
}

/// The hold timer of the current console filled up: the console is
/// completed (when it is an assigned task not done yet) and counts on the
/// shared task bar. Returns the completed console.
pub fn finish_task_hold(a: &mut TaskAssignments, board: &mut TaskBoard) -> (r: Option<u32>)
    ensures
        final(a).active_task is None,
        final(a).assigned == old(a).assigned,
        r == match old(a).active_task {
            Some(id) => if old(a).assigned@.contains(id) && !old(a).completed@.contains(id) { Some(id) } else { None },
            None => None,
        },
        r matches Some(id) ==> final(a).completed@ == old(a).completed@.push(id),
        r is None ==> final(a).completed == old(a).completed,
        final(board).total == old(board).total,
        r is Some ==> final(board).completed == if old(board).completed < old(board).total { (old(board).completed + 1) as u32 } else { old(board).completed },
        r is None ==> final(board).completed == old(board).completed,
{
    let r = a.complete_active();
    if r.is_some() {
        board.record_completion();
    }
    r
}

/// The elements of `s` in order of first occurrence, without repeats.
pub open spec fn first_occurrences(s: Seq<u32>) -> Seq<u32>
    decreases s.len(),
{
    if s.len() == 0 {
        s
    } else {
        let rest = first_occurrences(s.drop_last());
        if rest.contains(s.last()) { rest } else { rest.push(s.last()) }
    }
}

/// Task station ids in layout order.
pub open spec fn spec_station_ids() -> Seq<u32> {
    spec_task_stations().map_values(|t: crate::layout::TaskStationSpec| t.id)
}

/// The consoles visited from `start`, stepping two stations at a time once
/// around the station list.
pub open spec fn task_walk(start: int) -> Seq<u32> {
    let n = spec_station_ids().len() as int;
    Seq::new(n as nat, |step: int| spec_station_ids()[(start + step * 2) % n])
}

/// Deterministic per-player task ids: the first `count` distinct consoles
/// met walking the station list from an offset derived from the player id
/// and lobby slot.
pub open spec fn spec_deterministic_task_ids(player_id: u64, slot_index: usize, count: usize) -> Seq<u32> {
    let start = (player_id + slot_index * 3) % (spec_station_ids().len() as int);
    let all = first_occurrences(task_walk(start));
    if count == 0 { Seq::empty() } else { all.take(if count < all.len() { count as int } else { all.len() as int }) }
}

pub proof fn lemma_first_occurrences_prefix(s: Seq<u32>, m: int)
    requires
        0 <= m <= s.len(),
    ensures
        first_occurrences(s.take(m)).len() <= first_occurrences(s).len(),
        first_occurrences(s).take(first_occurrences(s.take(m)).len() as int) == first_occurrences(s.take(m)),
    decreases s.len() - m,
{
    if m == s.len() {
        assert(s.take(m) =~= s);
        assert(first_occurrences(s).take(first_occurrences(s).len() as int) =~= first_occurrences(s));
    } else {
        lemma_first_occurrences_prefix(s, m + 1);
        assert(s.take(m + 1).drop_last() =~= s.take(m));
        let a = first_occurrences(s.take(m));
        let b = first_occurrences(s.take(m + 1));
        let full = first_occurrences(s);
        assert(b.take(a.len() as int) =~= a);
        assert(full.take(a.len() as int) =~= full.take(b.len() as int).take(a.len() as int));
    }
}

pub proof fn lemma_first_occurrences_len(s: Seq<u32>)
    ensures
        first_occurrences(s).len() <= s.len(),
    decreases s.len(),
{
    if s.len() > 0 {
        lemma_first_occurrences_len(s.drop_last());
    }
}

pub proof fn lemma_first_occurrences_distinct(s: Seq<u32>)
    ensures
        first_occurrences(s).no_duplicates(),
        forall|x: u32| first_occurrences(s).contains(x) <==> s.contains(x),
    decreases s.len(),
{
    if s.len() > 0 {
        lemma_first_occurrences_distinct(s.drop_last());
        let rest = first_occurrences(s.drop_last());
        assert forall|x: u32| first_occurrences(s).contains(x) <==> s.contains(x) by {
            if s.contains(x) {
                let k = choose|k: int| 0 <= k < s.len() && s[k] == x;
                if k < s.len() - 1 {
                    assert(s.drop_last()[k] == x);
                    assert(s.drop_last().contains(x));
                    if !rest.contains(s.last()) {
                        let j = choose|j: int| 0 <= j < rest.len() && rest[j] == x;
                        assert(rest.push(s.last())[j] == x);
                    }
                } else if !rest.contains(s.last()) {
                    assert(rest.push(s.last())[rest.len() as int] == x);
                }
            }
            if first_occurrences(s).contains(x) {
                if rest.contains(x) {
                    assert(s.drop_last().contains(x));
                    let k = choose|k: int| 0 <= k < s.drop_last().len() && s.drop_last()[k] == x;
                    assert(s[k] == x);
                } else {
                    let j = choose|j: int| 0 <= j < first_occurrences(s).len() && first_occurrences(s)[j] == x;
                    if j < rest.len() {
                        assert(rest.push(s.last())[j] == rest[j]);
                    }
                    assert(s[s.len() - 1] == x);
                }
            }
        }
    }
}

/// Task ids for a player, spread over the stations by player id and lobby
/// slot so players do not all get the same consoles.
pub fn deterministic_task_ids(player_id: u64, slot_index: usize, count: usize) -> (out: Vec<u32>)
    requires
        player_id + slot_index * 3 <= usize::MAX,
    ensures
        out@ == spec_deterministic_task_ids(player_id, slot_index, count),
        out@.no_duplicates(),
        out@.len() <= count,
        forall|k: int| 0 <= k < out@.len() ==> spec_station_ids().contains(#[trigger] out@[k]),
{
    let stations = task_stations();
    let mut ids: Vec<u32> = Vec::new();
    let mut s: usize = 0;
    while s < stations.len()
        invariant
            s <= stations@.len(),
            stations@ == spec_task_stations(),
            ids@ == spec_station_ids().take(s as int),
        decreases stations@.len() - s,
    {
        ids.push(stations[s].id);
        proof {
            assert(ids@ =~= spec_station_ids().take(s as int + 1));
        }
        s = s + 1;
    }
    proof {
        assert(ids@ =~= spec_station_ids());
        lemma_first_occurrences_distinct(task_walk(((player_id + slot_index * 3) % 10) as int));
    }
    let n = ids.len();
    if n == 0 || count == 0 {
        return Vec::new();
    }
    let wanted = if count < n { count } else { n };
    let mut out: Vec<u32> = Vec::new();
    let start = (player_id as usize + slot_index * 3) % n;
    let ghost walk = task_walk(start as int);
    proof {
        assert(start as int == (player_id + slot_index * 3) % (spec_station_ids().len() as int));
    }
    let mut step: usize = 0;
    while step < n
        invariant
            n == 10,
            ids@ == spec_station_ids(),
            step <= n,
            start < n,
            walk == task_walk(start as int),
            spec_station_ids().len() == 10,
            start as int == (player_id + slot_index * 3) % (spec_station_ids().len() as int),
            out@ == first_occurrences(walk.take(step as int)),
            out@.len() < wanted,
            wanted <= n,
            wanted == if count < 10 { count } else { 10 },
        decreases n - step,
    {
        let id = ids[(start + step * 2) % n];
        proof {
            assert(walk[step as int] == id);
            assert(walk.take(step as int + 1).drop_last() =~= walk.take(step as int));
        }
        let ghost before_len = out@.len();
        if !vec_contains(&out, id) {
            out.push(id);
        }
        step = step + 1;
        if out.len() >= wanted {
            proof {
                lemma_first_occurrences_prefix(walk, step as int);
                lemma_first_occurrences_distinct(walk.take(step as int));
                lemma_first_occurrences_len(walk);
                assert(out@.len() == wanted);
                assert(out@ == first_occurrences(walk).take(wanted as int));
                let all = first_occurrences(walk);
                assert(all.len() >= wanted);
                assert(all.len() <= 10);
                assert(wanted == if count < all.len() { count as int } else { all.len() as int });
                assert forall|k: int| 0 <= k < out@.len() implies spec_station_ids().contains(#[trigger] out@[k]) by {
                    assert(walk.take(step as int).contains(out@[k]));
                    let j = choose|j: int| 0 <= j < walk.take(step as int).len() && walk.take(step as int)[j] == out@[k];
                    assert(walk[j] == spec_station_ids()[(start + j * 2) % 10]);
                }
            }
            return out;
        }
    }
    proof {
        assert(walk.take(10) =~= walk);
        assert(out@ == first_occurrences(walk));
        lemma_first_occurrences_len(walk);
        assert(out@.take(out@.len() as int) =~= out@);
        assert forall|k: int| 0 <= k < out@.len() implies spec_station_ids().contains(#[trigger] out@[k]) by {
            assert(walk.contains(out@[k]));
            let j = choose|j: int| 0 <= j < walk.len() && walk[j] == out@[k];
            assert(walk[j] == spec_station_ids()[(start + j * 2) % 10]);
        }
    }
    out
}

/// Kinds of task interaction.
#[derive(Clone, Copy, PartialEq, Eq, Structural, Debug)]
pub enum TaskKind {
    ShortHold,
    LongHold,
    TwoStage,
}

/// One task on a player's list (hold progress is a timer kept by the caller).
#[derive(Clone, Copy, PartialEq, Eq, Structural, Debug)]
pub struct PlayerTask {
    pub station_id: u32,
    pub stage: u8,
    pub done: bool,
}

/// Matches tasks not done yet.
pub open spec fn is_unfinished() -> spec_fn(PlayerTask) -> bool {
    |t: PlayerTask| !t.done
}

/// A player's task list.
#[derive(Clone, PartialEq, Eq, Debug)]
pub struct PlayerTasks {
    pub items: Vec<PlayerTask>,
}

impl PlayerTasks {
    /// The tasks not done yet, in list order.
    pub fn unfinished(&self) -> (r: Vec<PlayerTask>)
        ensures
            r@ == self.items@.filter(is_unfinished()),
    {
        let mut r: Vec<PlayerTask> = Vec::new();
        let mut i: usize = 0;
        while i < self.items.len()
            invariant
                i <= self.items@.len(),
                r@ == self.items@.take(i as int).filter(is_unfinished()),
            decreases self.items@.len() - i,
        {
            proof {
                assert(self.items@.take(i as int + 1).drop_last() =~= self.items@.take(i as int));
                reveal_with_fuel(Seq::filter, 1);
            }
            let t = self.items[i];
            if !t.done {
                r.push(t);
            }
            i = i + 1;
        }
        proof {
            assert(self.items@.take(self.items@.len() as int) =~= self.items@);
        }
        proof {
            reveal_with_fuel(Seq::filter, 1);
        }
        r
    }

    /// The first task on this station, for in-place updates.
    pub fn get_mut(&mut self, station_id: u32) -> (r: Option<&mut PlayerTask>)
        ensures
            r is None ==> forall|k: int| 0 <= k < old(self).items@.len() ==> old(self).items@[k].station_id != station_id,
            r is None ==> final(self).items@ == old(self).items@,
            r matches Some(t) ==> exists|k: int| {
                &&& 0 <= k < old(self).items@.len()
                &&& old(self).items@[k].station_id == station_id
                &&& forall|j: int| 0 <= j < k ==> old(self).items@[j].station_id != station_id
                &&& *t == old(self).items@[k]
                &&& final(self).items@ == old(self).items@.update(k, *final(t))
            },
    {
        let mut i: usize = 0;
        while i < self.items.len()
            invariant
                i <= self.items@.len(),
                self.items@ == old(self).items@,
                forall|j: int| 0 <= j < i ==> self.items@[j].station_id != station_id,
            decreases self.items@.len() - i,
        {
            if self.items[i].station_id == station_id {
                return Some(&mut self.items[i]);
            }
            i = i + 1;
        }
        None
    }
}

/// Station index of the `index`-th task given to a player.
pub open spec fn assigned_station_index(player_id: u64, index: int) -> int {
    ((player_id * 7) % 10 + index * 3) % 10
}

/// The task list that `assign_tasks` hands this player: up to `count`
/// stations (of ten), starting from an offset derived from the player id and
/// stepping three stations at a time, none started.
pub open spec fn tasks_assigned(t: PlayerTasks, player_id: u64, count: int) -> bool {
    &&& t.items@.len() == if count < 10 { count } else { 10 }
    &&& forall|k: int| 0 <= k < t.items@.len() ==> {
        &&& (#[trigger] t.items@[k]).station_id == spec_task_stations()[assigned_station_index(player_id, k)].id
        &&& t.items@[k].stage == 0
        &&& !t.items@[k].done
    }
}

/// Simple task lists: up to `count` stations, starting from an offset
/// derived from the player id and stepping three stations at a time.
pub fn assign_tasks(player_id: u64, count: usize) -> (r: PlayerTasks)
    requires
        player_id * 7 <= usize::MAX,
    ensures
        tasks_assigned(r, player_id, count as int),
{
    let stations = task_stations();
    let station_count = stations.len();
    let count = if count < station_count { count } else { station_count };
    let start = (player_id as usize * 7) % station_count;
    let mut items: Vec<PlayerTask> = Vec::new();
    let mut index: usize = 0;
    while index < count
        invariant
            station_count == 10,
            stations@ == spec_task_stations(),
            count <= 10,
            start == (player_id * 7) % 10,
            index <= count,
            items@.len() == index,
            forall|k: int| 0 <= k < index ==> {
                &&& (#[trigger] items@[k]).station_id == spec_task_stations()[assigned_station_index(player_id, k)].id
                &&& items@[k].stage == 0
                &&& !items@[k].done
            },
        decreases count - index,
    {
        let station_index = (start + index * 3) % station_count;
        items.push(PlayerTask { station_id: stations[station_index].id, stage: 0, done: false });
        index = index + 1;
    }
    PlayerTasks { items }
}

} // verus!
