use vstd::prelude::*;

use crate::meeting::{MeetingState, spec_eject, spec_result_text};
use crate::players::{PlayerSummary, roster_has_living};
use crate::roles::{GamePhase, Role, WinReason, spec_crew_win};
use crate::rules::{MatchStats, TaskBoard, apply_game_over, compute_win, count_role, result_recorded, spec_win};
use crate::sabotage::{ActiveSabotage, has_living_impostor, idle_sabotage, roster_has_living_impostor};
use crate::save::SaveData;

verus! {

/// What a phase timer step did.
#[derive(Clone, Copy, PartialEq, Eq, Structural, Debug)]
pub enum PhaseStep {
    Nothing,
    /// Discussion ended: voting starts (its timer restarts).
    VotingStarted,
    /// Votes were counted: the results are shown (their timer restarts).
    VotesResolved,
    /// The results were shown: play resumes or the match is decided; the
    /// save data changed (and should be persisted) when it was decided.
    ResultsOver { save_changed: bool },
}

/// A body left by a kill.
#[derive(Clone, PartialEq, Eq, Debug)]
pub struct BodyRecord {
    pub player_id: u64,
    pub name: String,
    pub reported: bool,
}

/// Every living ballot option has voted.
pub open spec fn everyone_voted(m: MeetingState) -> bool {
    forall|i: int| 0 <= i < m.options@.len() && !(#[trigger] m.options@[i]).dead ==> m.has_voted(m.options@[i].player_id)
}

/// The win rule over the roles of the living players.
pub open spec fn win_for(tasks: TaskBoard, living: Seq<Role>, stats: MatchStats) -> Option<WinReason> {
    spec_win(tasks, count_role(living, Role::Crewmate) as u32, count_role(living, Role::Impostor) as u32, stats)
}

/// The meeting with every field but the prompt unchanged.
pub open spec fn same_ballot(a: MeetingState, b: MeetingState) -> bool {
    &&& a.options == b.options
    &&& a.votes == b.votes
    &&& a.local_voted == b.local_voted
    &&& a.result_text == b.result_text
    &&& a.pending_eject == b.pending_eject
}

/// The meeting is back to open play: nothing on the ballot.
pub open spec fn cleared_for_play(m: MeetingState) -> bool {
    &&& m.prompt@.len() == 0
    &&& m.options@.len() == 0
    &&& m.votes@.len() == 0
    &&& !m.local_voted
    &&& m.result_text@.len() == 0
    &&& m.pending_eject is None
}

/// One step of the meeting timers, when `timer_finished` says the current
/// phase's timer just ran out. Discussion turns into voting; voting is
/// counted when its time is up or everyone voted; after the results either
/// the match is decided by the win rule or play resumes. Nothing advances
/// outside a meeting, nor once the match is over.
pub fn advance_phase(
    phase: &mut GamePhase,
    meeting: &mut MeetingState,
    timer_finished: bool,
    tasks: &TaskBoard,
    living: &[Role],
    stats: &MatchStats,
    save: &mut SaveData,
) -> (step: PhaseStep)
    requires
        old(meeting).votes@.len() <= u32::MAX,
        living@.len() <= u32::MAX,
    ensures
        *old(phase) is Meeting && timer_finished ==> step == PhaseStep::VotingStarted
            && *final(phase) == GamePhase::Voting && final(meeting).prompt@ == "Vote"@
            && same_ballot(*old(meeting), *final(meeting)) && *final(save) == *old(save),
        *old(phase) is Voting && (timer_finished || everyone_voted(*old(meeting))) ==> step == PhaseStep::VotesResolved
            && *final(phase) == GamePhase::Results
            && final(meeting).pending_eject == spec_eject(old(meeting).votes@)
            && final(meeting).result_text@ == spec_result_text(old(meeting).options@, old(meeting).votes@)
            && final(meeting).prompt == old(meeting).prompt
            && final(meeting).options == old(meeting).options
            && final(meeting).votes == old(meeting).votes
            && *final(save) == *old(save),
        *old(phase) is Results && timer_finished ==> {
            &&& cleared_for_play(*final(meeting))
            &&& step == (PhaseStep::ResultsOver { save_changed: win_for(*tasks, living@, *stats) is Some })
            &&& (win_for(*tasks, living@, *stats) matches Some(reason) ==> *final(phase) == (GamePhase::GameOver { crew_win: spec_crew_win(reason), reason })
                && result_recorded(*old(save), *final(save), spec_crew_win(reason)))
            &&& (win_for(*tasks, living@, *stats) is None ==> *final(phase) == GamePhase::Playing && *final(save) == *old(save))
        },
        !(*old(phase) is Meeting && timer_finished)
            && !(*old(phase) is Voting && (timer_finished || everyone_voted(*old(meeting))))
            && !(*old(phase) is Results && timer_finished)
            ==> step == PhaseStep::Nothing && *final(phase) == *old(phase) && *final(meeting) == *old(meeting) && *final(save) == *old(save),
{
    match *phase {
        GamePhase::Meeting => {
            if timer_finished {
                *phase = GamePhase::Voting;
                meeting.prompt = String::from_str("Vote");
                proof {
                    reveal_strlit("Vote");
                }
                PhaseStep::VotingStarted
            } else {
                PhaseStep::Nothing
            }
        },
        GamePhase::Voting => {
            if timer_finished || meeting.all_voted() {
                meeting.resolve_votes(phase);
                PhaseStep::VotesResolved
            } else {
                PhaseStep::Nothing
            }
        },
        GamePhase::Results => {
            if timer_finished {
                let changed = match compute_win(tasks, living, stats) {
                    Some(reason) => apply_game_over(phase, reason, save),
                    None => {
                        *phase = GamePhase::Playing;
                        false
                    },
                };
                meeting.clear_for_play();
                PhaseStep::ResultsOver { save_changed: changed }
            } else {
                PhaseStep::Nothing
            }
        },
        _ => PhaseStep::Nothing,
    }
}

/// The win check of open play: a decided match ends at once.
/// Returns whether it ended (and the save data changed).
pub fn check_win(phase: &mut GamePhase, tasks: &TaskBoard, living: &[Role], stats: &MatchStats, save: &mut SaveData) -> (ended: bool)
    requires
        living@.len() <= u32::MAX,
    ensures
        ended == (*old(phase) is Playing && win_for(*tasks, living@, *stats) is Some),
        ended ==> *final(phase) == (GamePhase::GameOver {
            crew_win: spec_crew_win(win_for(*tasks, living@, *stats).unwrap()),
            reason: win_for(*tasks, living@, *stats).unwrap(),
        }) && result_recorded(*old(save), *final(save), spec_crew_win(win_for(*tasks, living@, *stats).unwrap())),
        !ended ==> *final(phase) == *old(phase) && *final(save) == *old(save),
{
    if !(*phase == GamePhase::Playing) {
        return false;
    }
    match compute_win(tasks, living, stats) {
        Some(reason) => apply_game_over(phase, reason, save),
        None => false,
    }
}

/// Whether the phase just became `Meeting` (bodies are then cleared);
/// remembers the phase for the next frame.
pub fn entered_meeting(previous: &mut Option<GamePhase>, phase: GamePhase) -> (entered: bool)
    ensures
        entered == (phase is Meeting && !(*old(previous) matches Some(p) && p is Meeting)),
        *final(previous) == Some(phase),
{
    let was_meeting = match *previous {
        Some(GamePhase::Meeting) => true,
        _ => false,
    };
    *previous = Some(phase);
    phase == GamePhase::Meeting && !was_meeting
}

/// The result line after an ejection.
pub open spec fn eject_text(name: Seq<char>, role: Role) -> Seq<char> {
    if role is Impostor { name + " was an Impostor."@ } else { name + " was not an Impostor."@ }
}

/// Index of the first living player with this id.
pub open spec fn first_living(roster: Seq<PlayerSummary>, id: u64) -> Option<int>
    decreases roster.len(),
{
    if roster.len() == 0 {
        None
    } else {
        match first_living(roster.drop_last(), id) {
            Some(i) => Some(i),
            None => if roster.last().id == id && roster.last().alive { Some(roster.len() - 1) } else { None },
        }
    }
}

proof fn lemma_first_living(roster: Seq<PlayerSummary>, id: u64)
    ensures
        first_living(roster, id) matches Some(i) ==> 0 <= i < roster.len() && roster[i].id == id && roster[i].alive
            && forall|j: int| 0 <= j < i ==> !(roster[j].id == id && roster[j].alive),
        first_living(roster, id) is None ==> forall|j: int| 0 <= j < roster.len() ==> !(roster[j].id == id && roster[j].alive),
    decreases roster.len(),
{
    if roster.len() > 0 {
        lemma_first_living(roster.drop_last(), id);
        assert(forall|j: int| 0 <= j < roster.len() - 1 ==> roster.drop_last()[j] == roster[j]);
    }
}

fn find_living(roster: &Vec<PlayerSummary>, id: u64) -> (r: Option<usize>)
    ensures
        r matches Some(i) ==> first_living(roster@, id) == Some(i as int) && i < roster@.len(),
        r is None ==> first_living(roster@, id) is None,
{
    proof {
        lemma_first_living(roster@, id);
    }
    let mut i: usize = 0;
    assert(first_living(roster@, id) matches Some(k) ==> k < roster@.len());
    while i < roster.len()
        invariant
            i <= roster@.len(),
            forall|j: int| 0 <= j < i ==> !(roster@[j].id == id && roster@[j].alive),
            first_living(roster@, id) matches Some(k) ==> 0 <= k < roster@.len() && roster@[k].id == id && roster@[k].alive
                && forall|j: int| 0 <= j < k ==> !(roster@[j].id == id && roster@[j].alive),
            first_living(roster@, id) is None ==> forall|j: int| 0 <= j < roster@.len() ==> !(roster@[j].id == id && roster@[j].alive),
        decreases roster@.len() - i,
    {
        if roster[i].id == id && roster[i].alive {
            return Some(i);
        }
        i = i + 1;
    }
    None
}

/// Marks one player dead (a ghost), leaving the others as they were.
fn make_ghost(roster: &mut Vec<PlayerSummary>, k: usize)
    requires
        k < old(roster)@.len(),
    ensures
        final(roster)@ == old(roster)@.update(k as int, PlayerSummary { alive: false, ..old(roster)@[k as int] }),
{
    let mut p = roster.remove(k);
    p.alive = false;
    roster.insert(k, p);
    proof {
        assert(roster@ =~= old(roster)@.update(k as int, PlayerSummary { alive: false, ..old(roster)@[k as int] }));
    }
}

/// Once the results are showing, the pending ejection happens: the player
/// (if still alive) becomes a ghost and the result line names its team.
/// The pending ejection is consumed either way. Returns the ejected player.
pub fn apply_pending_eject(phase: GamePhase, meeting: &mut MeetingState, roster: &mut Vec<PlayerSummary>) -> (ejected: Option<u64>)
    ensures
        !(phase is Results) || old(meeting).pending_eject is None ==> ejected is None
            && *final(meeting) == *old(meeting) && final(roster)@ == old(roster)@,
        phase is Results ==> (old(meeting).pending_eject matches Some(eid) ==> {
            &&& final(meeting).pending_eject is None
            &&& final(meeting).prompt == old(meeting).prompt
            &&& final(meeting).options == old(meeting).options
            &&& final(meeting).votes == old(meeting).votes
            &&& final(meeting).local_voted == old(meeting).local_voted
            &&& (first_living(old(roster)@, eid) matches Some(k) ==> ejected == Some(eid)
                && final(roster)@ == old(roster)@.update(k, PlayerSummary { alive: false, ..old(roster)@[k] })
                && final(meeting).result_text@ == eject_text(old(roster)@[k].name@, old(roster)@[k].role))
            &&& (first_living(old(roster)@, eid) is None ==> ejected is None && final(roster)@ == old(roster)@
                && final(meeting).result_text == old(meeting).result_text)
        }),
{
    if !(phase == GamePhase::Results) {
        return None;
    }
    let eid = match meeting.pending_eject {
        Some(e) => e,
        None => return None,
    };
    meeting.pending_eject = None;
    match find_living(roster, eid) {
        Some(k) => {
            let mut text = roster[k].name.clone();
            if roster[k].role == Role::Impostor {
                text.append(" was an Impostor.");
            } else {
                text.append(" was not an Impostor.");
            }
            proof {
                reveal_strlit(" was an Impostor.");
                reveal_strlit(" was not an Impostor.");
            }
            make_ghost(roster, k);
            meeting.result_text = text;
            Some(eid)
        },
        None => None,
    }
}

/// Whether a kill request may go ahead: the cooldown is over and the actor
/// is a living impostor.
pub fn can_kill(cooldown_ready: bool, actor_id: u64, roster: &[PlayerSummary]) -> (r: bool)
    ensures
        r == (cooldown_ready && roster_has_living_impostor(roster@, actor_id)),
{
    cooldown_ready && has_living_impostor(roster, actor_id)
}

/// Who an impostor may kill: a living crewmate other than itself.
pub fn is_kill_target(actor_id: u64, p: &PlayerSummary) -> (r: bool)
    ensures
        r == (p.alive && p.id != actor_id && p.role == Role::Crewmate),
{
    p.alive && p.id != actor_id && p.role == Role::Crewmate
}

/// Kills the chosen target, a living crewmate: it becomes a ghost and
/// leaves a body.
pub fn apply_kill(roster: &mut Vec<PlayerSummary>, victim: usize) -> (body: BodyRecord)
    requires
        victim < old(roster)@.len(),
        old(roster)@[victim as int].alive,
        old(roster)@[victim as int].role == Role::Crewmate,
    ensures
        final(roster)@ == old(roster)@.update(victim as int, PlayerSummary { alive: false, ..old(roster)@[victim as int] }),
        body == (BodyRecord { player_id: old(roster)@[victim as int].id, name: old(roster)@[victim as int].name, reported: false }),
{
    let body = BodyRecord { player_id: roster[victim].id, name: roster[victim].name.clone(), reported: false };
    make_ghost(roster, victim);
    body
}

/// Whether a kill request by `actor_id` goes ahead, with `nearest` the
/// target in reach that the caller found (an index into the roster): in open
/// play, with the cooldown over, by a living impostor, on a living crewmate
/// other than the actor.
pub open spec fn kill_allowed(phase: GamePhase, cooldown_ready: bool, actor_id: u64, roster: Seq<PlayerSummary>, nearest: Option<usize>) -> bool {
    &&& phase is Playing
    &&& cooldown_ready
    &&& roster_has_living_impostor(roster, actor_id)
    &&& nearest matches Some(v) && v < roster.len() && roster[v as int].alive && roster[v as int].id != actor_id
        && roster[v as int].role == Role::Crewmate
}

/// A kill request: when `kill_allowed`, the target becomes a ghost and its
/// body is added to the floor; the caller then restarts the kill cooldown.
/// Otherwise nothing changes. Returns the id of the player killed.
pub fn request_kill(
    phase: GamePhase,
    cooldown_ready: bool,
    actor_id: u64,
    roster: &mut Vec<PlayerSummary>,
    bodies: &mut Vec<BodyRecord>,
    nearest: Option<usize>,
) -> (killed: Option<u64>)
    ensures
        killed is Some <==> kill_allowed(phase, cooldown_ready, actor_id, old(roster)@, nearest),
        killed is None ==> final(roster)@ == old(roster)@ && final(bodies)@ == old(bodies)@,
        killed matches Some(id) ==> {
            let v = nearest.unwrap() as int;
            &&& id == old(roster)@[v].id
            &&& final(roster)@ == old(roster)@.update(v, PlayerSummary { alive: false, ..old(roster)@[v] })
            &&& final(bodies)@ == old(bodies)@.push(BodyRecord { player_id: old(roster)@[v].id, name: old(roster)@[v].name, reported: false })
        },
{
    if !(phase == GamePhase::Playing) || !can_kill(cooldown_ready, actor_id, roster) {
        return None;
    }
    let v = match nearest {
        Some(v) => v,
        None => return None,
    };
    if v >= roster.len() || !is_kill_target(actor_id, &roster[v]) {
        return None;
    }
    let id = roster[v].id;
    let body = apply_kill(roster, v);
    bodies.push(body);
    Some(id)
}

/// The prompt of a meeting called over a body.
pub open spec fn report_prompt(victim_name: Seq<char>) -> Seq<char> {
    victim_name + "'s body was reported!"@
}

/// A body report in open play by a living player, about a body not yet
/// reported (the nearest one in reach, as the caller found): the body is
/// marked reported, any sabotage is called off, and a meeting opens over it.
/// Returns whether the report was taken.
pub fn report_body(
    phase: &mut GamePhase,
    meeting: &mut MeetingState,
    sabotage: &mut ActiveSabotage,
    reporter_id: u64,
    roster: &[PlayerSummary],
    bodies: &mut Vec<BodyRecord>,
    nearest: Option<usize>,
) -> (taken: bool)
    ensures
        taken == (*old(phase) is Playing && roster_has_living(roster@, reporter_id)
            && (nearest matches Some(b) && b < old(bodies)@.len() && !old(bodies)@[b as int].reported)),
        !taken ==> *final(phase) == *old(phase) && *final(meeting) == *old(meeting) && *final(sabotage) == *old(sabotage)
            && final(bodies)@ == old(bodies)@,
        taken ==> {
            let b = nearest.unwrap() as int;
            &&& final(bodies)@ == old(bodies)@.update(b, BodyRecord { reported: true, ..old(bodies)@[b] })
            &&& *final(sabotage) == idle_sabotage()
            &&& *final(phase) == GamePhase::Meeting
            &&& final(meeting).prompt@ == report_prompt(old(bodies)@[b].name@)
            &&& final(meeting).options@.len() == roster@.len()
            &&& forall|i: int| 0 <= i < roster@.len() ==> (#[trigger] final(meeting).options@[i]).player_id == roster@[i].id
                && final(meeting).options@[i].name == roster@[i].name
                && final(meeting).options@[i].dead == !roster@[i].alive
            &&& final(meeting).votes@.len() == 0
            &&& final(meeting).pending_eject is None
        },
{
    if !(*phase == GamePhase::Playing) {
        return false;
    }
    let mut i: usize = 0;
    let mut living = false;
    while i < roster.len()
        invariant
            i <= roster@.len(),
            living == exists|j: int| 0 <= j < i && roster@[j].id == reporter_id && roster@[j].alive,
        decreases roster@.len() - i,
    {
        if roster[i].id == reporter_id && roster[i].alive {
            living = true;
        }
        i = i + 1;
    }
    if !living {
        return false;
    }
    let b = match nearest {
        Some(b) => b,
        None => return false,
    };
    if b >= bodies.len() || bodies[b].reported {
        return false;
    }
    let mut body = bodies.remove(b);
    body.reported = true;
    let mut prompt = body.name.clone();
    prompt.append("'s body was reported!");
    proof {
        reveal_strlit("'s body was reported!");
    }
    bodies.insert(b, body);
    proof {
        assert(bodies@ =~= old(bodies)@.update(b as int, BodyRecord { reported: true, ..old(bodies)@[b as int] }));
    }
    sabotage.clear();
    meeting.begin_meeting(prompt, roster);
    *phase = GamePhase::Meeting;
    true
}

/// Whether `phase` is the first frame of a game over, after `previous`.
pub open spec fn first_game_over_frame(previous: Option<GamePhase>, phase: GamePhase) -> bool {
    phase is GameOver && !(previous matches Some(p) && p is GameOver)
}

/// Whether the match just ended (the sabotage and its repair stations are
/// then reset); remembers the phase for the next frame.
pub fn entered_game_over(previous: &mut Option<GamePhase>, phase: GamePhase) -> (entered: bool)
    ensures
        entered == first_game_over_frame(*old(previous), phase),
        *final(previous) == Some(phase),
{
    let was_over = match *previous {
        Some(GamePhase::GameOver { .. }) => true,
        _ => false,
    };
    *previous = Some(phase);
    match phase {
        GamePhase::GameOver { .. } => !was_over,
        _ => false,
    }
}

/// The cleanup on entering a game over: on the first game-over frame the
/// sabotage is called off (the caller then resets the repair stations, whose
/// progress is measured in seconds); on every other frame it is left alone.
/// Remembers the phase for the next frame. Returns whether it cleared.
pub fn cleanup_on_game_over(previous: &mut Option<GamePhase>, phase: GamePhase, sabotage: &mut ActiveSabotage) -> (cleared: bool)
    ensures
        cleared == first_game_over_frame(*old(previous), phase),
        *final(previous) == Some(phase),
        cleared ==> *final(sabotage) == idle_sabotage(),
        !cleared ==> *final(sabotage) == *old(sabotage),
{
    let entered = entered_game_over(previous, phase);
    if entered {
        sabotage.clear();
    }
    entered
}

/// Leaving a match: the seeding statistics, the ballot and any sabotage
/// are cleared (the phase itself stays, so the result remains visible).
pub fn cleanup_match(stats: &mut MatchStats, meeting: &mut MeetingState, sabotage: &mut ActiveSabotage)
    ensures
        *final(stats) == (MatchStats { impostors_spawned: 0, players_spawned: 0 }),
        cleared_for_play(*final(meeting)),
        *final(sabotage) == idle_sabotage(),
{
    *stats = MatchStats { impostors_spawned: 0, players_spawned: 0 };
    meeting.clear_for_play();
    sabotage.clear();
}

} // verus!
