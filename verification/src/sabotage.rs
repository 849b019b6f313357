use vstd::prelude::*;

use crate::players::PlayerSummary;
use crate::roles::{GamePhase, Role, WinReason};
use crate::rules::{apply_game_over, result_recorded};
use crate::save::SaveData;

verus! {

/// The three sabotages an impostor can call.
#[derive(Clone, Copy, PartialEq, Eq, Structural, Debug, Hash)]
pub enum SabotageKind {
    Lights,
    Oxygen,
    Reactor,
}

/// The sabotage in progress, if any, and how far its repair has come.
/// (The countdown of a critical sabotage runs on the frame clock.)
#[derive(Clone, Copy, PartialEq, Eq, Structural, Debug)]
pub struct ActiveSabotage {
    pub kind: Option<SabotageKind>,
    pub fixes_needed: u8,
    pub fixes_done: u8,
}

/// Critical sabotages (oxygen, reactor) lose the match when their countdown
/// runs out.
pub open spec fn spec_is_critical_kind(kind: SabotageKind) -> bool {
    kind is Oxygen || kind is Reactor
}

/// Stations that must be completed to repair a sabotage: one light panel,
/// or both stations of oxygen and of the reactor.
pub open spec fn spec_fixes_needed(kind: SabotageKind) -> u8 {
    match kind {
        SabotageKind::Lights => 1,
        _ => 2,
    }
}

/// No sabotage in progress.
pub open spec fn idle_sabotage() -> ActiveSabotage {
    ActiveSabotage { kind: None, fixes_needed: 0, fixes_done: 0 }
}

/// Whether the roster holds a living impostor with this id.
pub open spec fn roster_has_living_impostor(roster: Seq<PlayerSummary>, id: u64) -> bool {
    exists|i: int| 0 <= i < roster.len() && roster[i].id == id && roster[i].alive && roster[i].role == Role::Impostor
}

/// Number of entries of `kinds` equal to `kind`.
pub open spec fn count_kind(kinds: Seq<SabotageKind>, kind: SabotageKind) -> nat
    decreases kinds.len(),
{
    if kinds.len() == 0 {
        0
    } else {
        count_kind(kinds.drop_last(), kind) + if kinds.last() == kind { 1nat } else { 0nat }
    }
}

pub proof fn lemma_count_kind_bound(kinds: Seq<SabotageKind>, kind: SabotageKind)
    ensures
        count_kind(kinds, kind) <= kinds.len(),
    decreases kinds.len(),
{
    if kinds.len() > 0 {
        lemma_count_kind_bound(kinds.drop_last(), kind);
    }
}

/// Whether a critical sabotage is lost: it has run out before its repair.
pub open spec fn spec_sabotage_lost(sab: ActiveSabotage, expired: bool) -> bool {
    sab.spec_is_critical() && !sab.spec_is_fixed() && expired
}

impl ActiveSabotage {
    pub open spec fn spec_is_critical(self) -> bool {
        self.kind matches Some(k) && spec_is_critical_kind(k)
    }

    pub open spec fn spec_is_fixed(self) -> bool {
        self.fixes_needed > 0 && self.fixes_done >= self.fixes_needed
    }

    /// No sabotage in progress.
    pub fn new() -> (r: Self)
        ensures
            r == idle_sabotage(),
    {
        ActiveSabotage { kind: None, fixes_needed: 0, fixes_done: 0 }
    }

    pub fn is_active(&self) -> (r: bool)
        ensures
            r == self.kind is Some,
    {
        self.kind.is_some()
    }

    pub fn is_critical(&self) -> (r: bool)
        ensures
            r == self.spec_is_critical(),
    {
        match self.kind {
            Some(SabotageKind::Oxygen) | Some(SabotageKind::Reactor) => true,
            _ => false,
        }
    }

    pub fn is_fixed(&self) -> (r: bool)
        ensures
            r == self.spec_is_fixed(),
    {
        self.fixes_needed > 0 && self.fixes_done >= self.fixes_needed
    }

    pub fn clear(&mut self)
        ensures
            *final(self) == idle_sabotage(),
    {
        self.kind = None;
        self.fixes_needed = 0;
        self.fixes_done = 0;
    }

    /// An impostor's sabotage request. It starts the sabotage when none is in
    /// progress, the cooldown is over, and the actor is a living impostor;
    /// otherwise nothing changes. Returns whether it started.
    pub fn apply_sabotage(&mut self, cooldown_ready: bool, actor_id: u64, kind: SabotageKind, roster: &[PlayerSummary]) -> (started: bool)
        ensures
            started == (old(self).kind is None && cooldown_ready && roster_has_living_impostor(roster@, actor_id)),
            started ==> *final(self) == (ActiveSabotage { kind: Some(kind), fixes_needed: spec_fixes_needed(kind), fixes_done: 0 }),
            !started ==> *final(self) == *old(self),
    {
        if self.is_active() || !cooldown_ready {
            return false;
        }
        let found = has_living_impostor(roster, actor_id);
        if !found {
            return false;
        }
        self.kind = Some(kind);
        self.fixes_needed = match kind {
            SabotageKind::Lights => 1,
            _ => 2,
        };
        self.fixes_done = 0;
        true
    }

    /// Records how many repair stations of the active sabotage are complete,
    /// given the kinds of all completed stations. The count is capped at the
    /// number of fixes needed. Without an active sabotage nothing changes.
    pub fn record_fix_progress(&mut self, completed_station_kinds: &[SabotageKind])
        ensures
            final(self).kind == old(self).kind,
            final(self).fixes_needed == old(self).fixes_needed,
            old(self).kind is None ==> final(self).fixes_done == old(self).fixes_done,
            old(self).kind matches Some(k) ==> final(self).fixes_done == (if count_kind(completed_station_kinds@, k) < old(self).fixes_needed {
                count_kind(completed_station_kinds@, k)
            } else {
                old(self).fixes_needed as nat
            }),
    {
        if let Some(active) = self.kind {
            let mut done: usize = 0;
            let mut i: usize = 0;
            while i < completed_station_kinds.len()
                invariant
                    i <= completed_station_kinds@.len(),
                    done == count_kind(completed_station_kinds@.take(i as int), active),
                    done <= i,
                decreases completed_station_kinds@.len() - i,
            {
                proof {
                    assert(completed_station_kinds@.take(i as int + 1).drop_last() =~= completed_station_kinds@.take(i as int));
                }
                if completed_station_kinds[i] == active {
                    done = done + 1;
                }
                i = i + 1;
            }
            proof {
                assert(completed_station_kinds@.take(i as int) =~= completed_station_kinds@);
            }
            let needed = self.fixes_needed;
            if done < needed as usize {
                self.fixes_done = done as u8;
            } else {
                self.fixes_done = needed;
            }
        }
    }

    /// Ends a repaired sabotage. Returns whether it was cleared (the repair
    /// stations then reset).
    pub fn clear_fixed(&mut self) -> (cleared: bool)
        ensures
            cleared == old(self).spec_is_fixed(),
            cleared ==> *final(self) == idle_sabotage(),
            !cleared ==> *final(self) == *old(self),
    {
        if self.is_fixed() {
            self.clear();
            true
        } else {
            false
        }
    }
}

impl Default for ActiveSabotage {
    fn default() -> (r: Self)
        ensures
            r == idle_sabotage(),
    {
        ActiveSabotage::new()
    }
}

/// Whether the roster holds a living impostor with this id.
pub fn has_living_impostor(roster: &[PlayerSummary], id: u64) -> (r: bool)
    ensures
        r == roster_has_living_impostor(roster@, id),
{
    let mut i: usize = 0;
    let mut found = false;
    while i < roster.len()
        invariant
            i <= roster@.len(),
            found == exists|j: int| 0 <= j < i && roster@[j].id == id && roster@[j].alive && roster@[j].role == Role::Impostor,
        decreases roster@.len() - i,
    {
        let p = &roster[i];
        if p.id == id && p.alive && p.role == Role::Impostor {
            found = true;
        }
        i = i + 1;
    }
    found
}

/// Whether a critical sabotage lasts on a timer.
pub fn is_critical_kind(kind: SabotageKind) -> (r: bool)
    ensures
        r == spec_is_critical_kind(kind),
{
    match kind {
        SabotageKind::Lights => false,
        _ => true,
    }
}

/// Stations needed to repair this sabotage.
pub fn fixes_needed(kind: SabotageKind) -> (r: u8)
    ensures
        r == spec_fixes_needed(kind),
{
    match kind {
        SabotageKind::Lights => 1,
        _ => 2,
    }
}

/// The loss check of a critical sabotage: when its countdown has just run
/// out before the repair, and the match is not over yet, the impostors win
/// and the result is recorded. Returns whether the match ended here.
pub fn check_sabotage_loss(sab: &ActiveSabotage, expired: bool, phase: &mut GamePhase, save: &mut SaveData) -> (ended: bool)
    ensures
        ended == (!(*old(phase) is GameOver) && spec_sabotage_lost(*sab, expired)),
        ended ==> *final(phase) == (GamePhase::GameOver { crew_win: false, reason: WinReason::Sabotage })
            && result_recorded(*old(save), *final(save), false),
        !ended ==> *final(phase) == *old(phase) && *final(save) == *old(save),
{
    if let GamePhase::GameOver { .. } = *phase {
        return false;
    }
    if !sab.is_critical() || sab.is_fixed() || !expired {
        return false;
    }
    apply_game_over(phase, WinReason::Sabotage, save)
}

/// The sabotage a local player's key press asks for: only while playing,
/// with no sabotage in progress and the cooldown over, and only for a
/// living impostor.
pub fn requested_sabotage(
    phase: GamePhase,
    sab: &ActiveSabotage,
    cooldown_ready: bool,
    local_is_living_impostor: bool,
    pressed: Option<SabotageKind>,
) -> (r: Option<SabotageKind>)
    ensures
        r == (if phase is Playing && sab.kind is None && cooldown_ready && local_is_living_impostor { pressed } else { None }),
{
    if !(phase == GamePhase::Playing) || sab.is_active() || !cooldown_ready || !local_is_living_impostor {
        return None;
    }
    pressed
}

/// Indices of the reactor stations that someone holds, in order.
pub open spec fn held_indices(holders: Seq<Seq<u64>>) -> Seq<int>
    decreases holders.len(),
{
    if holders.len() == 0 {
        Seq::empty()
    } else {
        let rest = held_indices(holders.drop_last());
        if holders.last().len() > 0 { rest.push(holders.len() - 1) } else { rest }
    }
}

/// At least two different players hold reactor stations.
pub open spec fn two_distinct_holders(holders: Seq<Seq<u64>>) -> bool {
    exists|i: int, k: int, j: int, l: int|
        0 <= i < holders.len() && 0 <= k < holders[i].len() && 0 <= j < holders.len() && 0 <= l < holders[j].len()
            && holders[i][k] != holders[j][l]
}

/// The reactor repair rule: it advances only while two stations are held at
/// once by at least two different crewmates; then the first two held
/// stations advance. Otherwise every reactor station resets.
pub open spec fn spec_reactor_plan(holders: Seq<Seq<u64>>) -> Option<Seq<int>> {
    if held_indices(holders).len() >= 2 && two_distinct_holders(holders) {
        Some(held_indices(holders).take(2))
    } else {
        None
    }
}

/// Plans one frame of the reactor repair. `holders[i]` are the crewmates
/// holding the `i`-th unfinished reactor station. `None` resets all reactor
/// stations; `Some(v)` lists the two stations (indices into `holders`)
/// that advance.
pub fn reactor_plan(holders: &Vec<Vec<u64>>) -> (r: Option<Vec<usize>>)
    ensures
        r is None <==> spec_reactor_plan(holders@.map_values(|v: Vec<u64>| v@)) is None,
        r matches Some(v) ==> spec_reactor_plan(holders@.map_values(|v: Vec<u64>| v@)) matches Some(w)
            && v@.len() == w.len() && forall|m: int| 0 <= m < v@.len() ==> v@[m] as int == w[m],
{
    let ghost hs = holders@.map_values(|v: Vec<u64>| v@);
    let mut held: Vec<usize> = Vec::new();
    let mut first_id: Option<u64> = None;
    let mut distinct = false;
    let mut i: usize = 0;
    while i < holders.len()
        invariant
            i <= holders@.len(),
            hs == holders@.map_values(|v: Vec<u64>| v@),
            hs.len() == holders@.len(),
            held@.len() == held_indices(hs.take(i as int)).len(),
            forall|m: int| 0 <= m < held@.len() ==> held@[m] as int == #[trigger] held_indices(hs.take(i as int))[m],
            first_id is None <==> forall|a: int| 0 <= a < i ==> #[trigger] hs[a].len() == 0,
            first_id matches Some(f) ==> exists|a: int, b: int| 0 <= a < i && 0 <= b < hs[a].len() && hs[a][b] == f,
            first_id matches Some(f) ==> (distinct <==> exists|a: int, b: int| 0 <= a < i && 0 <= b < hs[a].len() && hs[a][b] != f),
            first_id is None ==> !distinct,
        decreases holders@.len() - i,
    {
        proof {
            assert(hs.take(i as int + 1).drop_last() =~= hs.take(i as int));
        }
        let row = &holders[i];
        assert(row@ == hs[i as int]);
        if row.len() > 0 {
            held.push(i);
        }
        let mut k: usize = 0;
        while k < row.len()
            invariant
                i < holders@.len(),
                hs == holders@.map_values(|v: Vec<u64>| v@),
                row@ == hs[i as int],
                k <= row@.len(),
                first_id is None <==> (forall|a: int| 0 <= a < i ==> #[trigger] hs[a].len() == 0) && k == 0,
                first_id matches Some(f) ==> (exists|a: int, b: int| 0 <= a < i && 0 <= b < hs[a].len() && hs[a][b] == f)
                    || (exists|b: int| 0 <= b < k && row@[b] == f),
                first_id matches Some(f) ==> (distinct <==> (exists|a: int, b: int| 0 <= a < i && 0 <= b < hs[a].len() && hs[a][b] != f)
                    || (exists|b: int| 0 <= b < k && row@[b] != f)),
                first_id is None ==> !distinct,
            decreases row@.len() - k,
        {
            let id = row[k];
            match first_id {
                None => {
                    first_id = Some(id);
                },
                Some(f) => {
                    if id != f {
                        distinct = true;
                    }
                },
            }
            k = k + 1;
        }
        proof {
            let ghost ni = i as int + 1;
            assert forall|a: int| 0 <= a < ni implies (#[trigger] hs[a].len() == 0) == (hs[a].len() == 0) by {}
            if let Some(f) = first_id {
                if exists|b: int| 0 <= b < row@.len() && row@[b] == f {
                    let b = choose|b: int| 0 <= b < row@.len() && row@[b] == f;
                    assert(0 <= i < ni && 0 <= b < hs[i as int].len() && hs[i as int][b] == f);
                }
                if exists|b: int| 0 <= b < row@.len() && row@[b] != f {
                    let b = choose|b: int| 0 <= b < row@.len() && row@[b] != f;
                    assert(0 <= i < ni && 0 <= b < hs[i as int].len() && hs[i as int][b] != f);
                }
                if exists|a: int, b: int| 0 <= a < ni && 0 <= b < hs[a].len() && hs[a][b] != f {
                    let (a, b) = choose|a: int, b: int| 0 <= a < ni && 0 <= b < hs[a].len() && hs[a][b] != f;
                    if a < i {
                    } else {
                        assert(row@[b] != f);
                    }
                }
            }
        }
        i = i + 1;
    }
    proof {
        assert(hs.take(i as int) =~= hs);
        if let Some(f) = first_id {
            if two_distinct_holders(hs) {
                let (a, k, c, l) = choose|a: int, k: int, c: int, l: int|
                    0 <= a < hs.len() && 0 <= k < hs[a].len() && 0 <= c < hs.len() && 0 <= l < hs[c].len()
                        && hs[a][k] != hs[c][l];
                if hs[a][k] == f {
                    assert(hs[c][l] != f);
                } else {
                    assert(hs[a][k] != f);
                }
            }
            if distinct {
                let (a, b) = choose|a: int, b: int| 0 <= a < hs.len() && 0 <= b < hs[a].len() && hs[a][b] != f;
                let (c, d) = choose|c: int, d: int| 0 <= c < hs.len() && 0 <= d < hs[c].len() && hs[c][d] == f;
                assert(hs[a][b] != hs[c][d]);
            }
        } else {
            if two_distinct_holders(hs) {
                let (a, k, c, l) = choose|a: int, k: int, c: int, l: int|
                    0 <= a < hs.len() && 0 <= k < hs[a].len() && 0 <= c < hs.len() && 0 <= l < hs[c].len()
                        && hs[a][k] != hs[c][l];
                assert(hs[a].len() == 0);
            }
        }
    }
    if held.len() >= 2 && distinct {
        let mut out: Vec<usize> = Vec::new();
        out.push(held[0]);
        out.push(held[1]);
        Some(out)
    } else {
        None
    }
}

} // verus!
