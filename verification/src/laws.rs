use vstd::prelude::*;

use crate::client_sync::{ids_to_despawn, ids_to_spawn};
use crate::flow::first_game_over_frame;
use crate::chat::{CHAT_LOG_CAP, CHAT_MAX_LEN, ChatEntry, readable_by, spec_push_entry, spec_sanitize};
use crate::hosting::{ClientMessage, HostEffect, chat_delivered_to_spec, recipient_ghost_spec, spec_action_effect};
use crate::lobby::LobbySlot;
use crate::menu::{MenuState, OverlayMenu, paused_state, resuming_state};
use crate::meeting::{MeetingCommand, Vote, is_strict_leader, lemma_strict_leader_unique, spec_eject};
use crate::net::{MAX_CLIENT_PENDING_INPUTS, MAX_SERVER_PENDING_INPUTS, NetInputCommand, keep_last, keep_newer, offer_commands, spec_sequence_is_newer};
use crate::players::PlayerSummary;
use crate::roles::{GamePhase, Role, RuntimeMode, WinReason};
use crate::roster::{RosterPlan, chosen_ids, spec_impostor_count, spec_roster_plan};
use crate::rules::{MatchConfig, MatchStats, TaskBoard, spec_win};
use crate::sabotage::{ActiveSabotage, SabotageKind, spec_fixes_needed, spec_is_critical_kind, spec_sabotage_lost};
use crate::tasks::{PlayerTasks, tasks_assigned};
use crate::visuals::{MaskKind, spec_vision_mask};

verus! {

/// Sequence numbers: none is newer than itself, and of two sequence
/// numbers at most one is newer than the other, across the wrap-around too.
/// So a replayed or reordered packet is always recognised as stale.
pub proof fn law_sequence_order(a: u32, b: u32)
    ensures
        !spec_sequence_is_newer(a, a),
        spec_sequence_is_newer(a, b) ==> !spec_sequence_is_newer(b, a),
{
}

/// Acknowledging a sequence number leaves only commands newer than it, and
/// never more commands than before.
pub proof fn law_acknowledged_commands_leave(pending: Seq<NetInputCommand>, ack: u32)
    ensures
        keep_newer(pending, ack).len() <= pending.len(),
        forall|i: int| 0 <= i < keep_newer(pending, ack).len() ==> spec_sequence_is_newer(#[trigger] keep_newer(pending, ack)[i].sequence, ack),
    decreases pending.len(),
{
    if pending.len() > 0 {
        law_acknowledged_commands_leave(pending.drop_last(), ack);
        let rest = keep_newer(pending.drop_last(), ack);
        if spec_sequence_is_newer(pending.last().sequence, ack) {
            assert forall|i: int| 0 <= i < rest.push(pending.last()).len() implies spec_sequence_is_newer(#[trigger] rest.push(pending.last())[i].sequence, ack) by {
                if i < rest.len() {
                    assert(rest.push(pending.last())[i] == rest[i]);
                }
            }
        }
    }
}

/// The host's queue of a client's commands never grows beyond its bound,
/// and taking in a batch keeps the commands already queued, in order.
pub proof fn law_server_queue_bounded(pending: Seq<NetInputCommand>, last: Option<u32>, commands: Seq<NetInputCommand>)
    requires
        pending.len() <= MAX_SERVER_PENDING_INPUTS,
    ensures
        offer_commands(pending, last, commands).0.len() <= MAX_SERVER_PENDING_INPUTS,
        offer_commands(pending, last, commands).0.len() >= pending.len(),
        offer_commands(pending, last, commands).0.subrange(0, pending.len() as int) == pending,
    decreases commands.len(),
{
    if commands.len() > 0 {
        let head = commands[0];
        let skipped = !head.spec_finite() || (last matches Some(p) && !spec_sequence_is_newer(head.sequence, p));
        if skipped {
            law_server_queue_bounded(pending, last, commands.drop_first());
        } else if pending.len() < MAX_SERVER_PENDING_INPUTS {
            let next = pending.push(head);
            law_server_queue_bounded(next, Some(head.sequence), commands.drop_first());
            let out = offer_commands(next, Some(head.sequence), commands.drop_first()).0;
            assert(out.subrange(0, pending.len() as int) =~= out.subrange(0, next.len() as int).subrange(0, pending.len() as int));
        } else {
            assert(pending.subrange(0, pending.len() as int) =~= pending);
        }
    } else {
        assert(pending.subrange(0, pending.len() as int) =~= pending);
    }
}

/// The client's buffer of unacknowledged commands stays within its bound,
/// and the command just sent is always the newest one kept.
pub proof fn law_prediction_buffer_bounded(pending: Seq<NetInputCommand>, command: NetInputCommand)
    ensures
        keep_last(pending.push(command), MAX_CLIENT_PENDING_INPUTS as nat).len() <= MAX_CLIENT_PENDING_INPUTS,
        keep_last(pending.push(command), MAX_CLIENT_PENDING_INPUTS as nat).last() == command,
{
}

/// The chat log never grows beyond its capacity, and the line just added is
/// always the last one; the other lines keep their order.
pub proof fn law_chat_log_bounded(log: Seq<ChatEntry>, entry: ChatEntry)
    requires
        log.len() <= CHAT_LOG_CAP,
    ensures
        spec_push_entry(log, entry).len() <= CHAT_LOG_CAP,
        spec_push_entry(log, entry).last() == entry,
        spec_push_entry(log, entry).drop_last() == (if log.len() >= CHAT_LOG_CAP { log.drop_first() } else { log }),
{
    assert(spec_push_entry(log, entry).drop_last() =~= (if log.len() >= CHAT_LOG_CAP { log.drop_first() } else { log }));
}

/// Ghost isolation of the meeting chat: a ghost's line never reaches a
/// living player, and a living player's line reaches everyone.
pub proof fn law_chat_ghost_isolation(roster: Seq<PlayerSummary>, recipient: u64)
    ensures
        (recipient_ghost_spec(roster, recipient) == Some(false)) ==> !chat_delivered_to_spec(true, recipient_ghost_spec(roster, recipient)),
        chat_delivered_to_spec(false, recipient_ghost_spec(roster, recipient)),
{
}

/// What a player reads is what it is sent: a line is shown to a viewer
/// exactly when the host delivers it to that viewer.
pub proof fn law_display_matches_delivery(entry: ChatEntry, viewer_ghost: bool)
    ensures
        readable_by(viewer_ghost)(entry) == chat_delivered_to_spec(entry.is_ghost, Some(viewer_ghost)),
{
}

/// Chat lines are length-capped: a sanitized line never has more than the
/// maximum number of characters.
pub proof fn law_chat_lines_capped(text: Seq<char>)
    ensures
        spec_sanitize(text).len() <= CHAT_MAX_LEN,
{
}

/// A full task bar (with at least one task) is a crew win, whatever the
/// living players are.
pub proof fn law_full_task_bar_wins(tasks: TaskBoard, crew: u32, imps: u32, stats: MatchStats)
    requires
        tasks.total > 0,
        tasks.completed >= tasks.total,
    ensures
        spec_win(tasks, crew, imps, stats) == Some(WinReason::Tasks),
{
}

/// Without impostors seeded into the match, only the task bar can end it.
pub proof fn law_no_seeded_impostors(tasks: TaskBoard, crew: u32, imps: u32, stats: MatchStats)
    requires
        stats.impostors_spawned == 0,
    ensures
        spec_win(tasks, crew, imps, stats) is Some ==> spec_win(tasks, crew, imps, stats) == Some(WinReason::Tasks),
{
}

/// With impostors seeded and the task bar not full: the crew wins when the
/// last impostor is gone (someone still alive), and the impostors win as
/// soon as they are at least as many as the crew.
pub proof fn law_kill_wins(tasks: TaskBoard, crew: u32, imps: u32, stats: MatchStats)
    requires
        stats.impostors_spawned > 0,
        !(tasks.total > 0 && tasks.completed >= tasks.total),
    ensures
        imps == 0 && crew > 0 ==> spec_win(tasks, crew, imps, stats) == Some(WinReason::ImpostorsEliminated),
        imps > 0 && imps >= crew ==> spec_win(tasks, crew, imps, stats) == Some(WinReason::ImpostorMajority),
        imps > 0 && imps < crew ==> spec_win(tasks, crew, imps, stats) is None,
{
}

/// Only a strict plurality is ejected: the ejected player got more votes
/// than every other choice, skip included; when skipping leads, or the top
/// is tied, nobody is ejected.
pub proof fn law_ejection_is_strict_plurality(votes: Seq<Vote>)
    ensures
        spec_eject(votes) matches Some(id) ==> is_strict_leader(votes, Some(id)),
        is_strict_leader(votes, None) ==> spec_eject(votes) is None,
        (forall|t: Option<u64>| !is_strict_leader(votes, t)) ==> spec_eject(votes) is None,
{
    if is_strict_leader(votes, None) {
        if exists|id: u64| is_strict_leader(votes, Some(id)) {
            let id = choose|id: u64| is_strict_leader(votes, Some(id));
            lemma_strict_leader_unique(votes, None, Some(id));
        }
    }
    if forall|t: Option<u64>| !is_strict_leader(votes, t) {
        if exists|id: u64| is_strict_leader(votes, Some(id)) {
            let id = choose|id: u64| is_strict_leader(votes, Some(id));
            assert(!is_strict_leader(votes, Some(id)));
        }
    }
}

/// Impostor count: with two or more players there is at least one impostor
/// and at least one crewmate; with fewer, none.
pub proof fn law_impostor_count_range(n: int, configured: u8)
    requires
        n >= 0,
    ensures
        n >= 2 ==> 1 <= spec_impostor_count(n, configured as int) <= n - 1,
        n < 2 ==> spec_impostor_count(n, configured as int) == 0,
{
}

/// Seats with distinct ids, picked in a random order: the match seeds
/// exactly the planned number of impostors.
pub proof fn law_exact_impostor_count(slots: Seq<LobbySlot>, order: Seq<usize>, cfg: MatchConfig, mode: RuntimeMode, plan: RosterPlan)
    requires
        spec_roster_plan(slots, order, cfg, mode, plan),
        slots.len() <= u32::MAX,
        order.len() == slots.len(),
        order.no_duplicates(),
        forall|m: int| 0 <= m < order.len() ==> order[m] < slots.len(),
        forall|i: int, j: int| 0 <= i < slots.len() && 0 <= j < slots.len() && i != j ==> slots[i].id != slots[j].id,
    ensures
        plan.stats.impostors_spawned == spec_impostor_count(slots.len() as int, cfg.impostor_count as int),
        plan.stats.players_spawned == slots.len(),
{
    let n = slots.len() as int;
    let k = spec_impostor_count(n, cfg.impostor_count as int);
    law_impostor_count_range(n, cfg.impostor_count);
    let picked = Seq::new(k as nat, |m: int| slots[order[m] as int].id);
    assert(picked.no_duplicates()) by {
        assert forall|a: int, b: int| 0 <= a < picked.len() && 0 <= b < picked.len() && a != b implies picked[a] != picked[b] by {
            assert(order[a] != order[b]);
        }
    }
    assert(picked.to_set() =~= chosen_ids(slots, order, k)) by {
        assert forall|id: u64| chosen_ids(slots, order, k).contains(id) implies picked.to_set().contains(id) by {
            let m = choose|m: int| 0 <= m < k && m < order.len() && slots[order[m] as int].id == id;
            assert(picked[m] == id);
        }
        assert forall|id: u64| picked.to_set().contains(id) implies chosen_ids(slots, order, k).contains(id) by {
            let m = choose|m: int| 0 <= m < picked.len() && picked[m] == id;
        }
    }
    picked.unique_seq_to_set();
}

/// Replicas follow the snapshot: the replicas kept plus those spawned are
/// exactly the ids the snapshot lists, and no id that already has a replica
/// is spawned again.
pub proof fn law_replicas_follow_snapshot(existing: Seq<u64>, incoming: Seq<u64>, id: u64)
    ensures
        ((existing.contains(id) && !ids_to_despawn(existing, incoming).contains(id)) || ids_to_spawn(existing, incoming).contains(id))
            <==> incoming.contains(id),
        !(existing.contains(id) && ids_to_spawn(existing, incoming).contains(id)),
{
    let keep_new = |x: u64| !existing.contains(x);
    let drop_old = |x: u64| !incoming.contains(x);
    if ids_to_spawn(existing, incoming).contains(id) {
        incoming.lemma_filter_contains_rev(keep_new, id);
        let i = choose|i: int| 0 <= i < incoming.filter(keep_new).len() && incoming.filter(keep_new)[i] == id;
        incoming.lemma_filter_pred(keep_new, i);
    }
    if ids_to_despawn(existing, incoming).contains(id) {
        let i = choose|i: int| 0 <= i < existing.filter(drop_old).len() && existing.filter(drop_old)[i] == id;
        existing.lemma_filter_pred(drop_old, i);
    }
    if incoming.contains(id) && !existing.contains(id) {
        let i = choose|i: int| 0 <= i < incoming.len() && incoming[i] == id;
        incoming.lemma_filter_contains(keep_new, i);
    }
    if existing.contains(id) && !incoming.contains(id) {
        let i = choose|i: int| 0 <= i < existing.len() && existing[i] == id;
        existing.lemma_filter_contains(drop_old, i);
    }
}

/// Pausing open play and resuming returns the shell to where it was once
/// the resume delay has run out.
pub proof fn law_pause_round_trip(m: MenuState)
    requires
        m.overlay == OverlayMenu::Hidden,
        !m.paused,
        !m.unpause_pending,
    ensures
        (MenuState { paused: false, unpause_pending: false, ..resuming_state(paused_state(m)) }) == m,
{
}

/// A freshly started sabotage is never already repaired, and a lights
/// sabotage or a repaired one can never lose the match.
pub proof fn law_sabotage_loss_needs_unrepaired_critical(kind: SabotageKind, sab: ActiveSabotage, expired: bool)
    ensures
        !(ActiveSabotage { kind: Some(kind), fixes_needed: spec_fixes_needed(kind), fixes_done: 0 }).spec_is_fixed(),
        sab.kind == Some(SabotageKind::Lights) ==> !spec_sabotage_lost(sab, expired),
        sab.spec_is_fixed() ==> !spec_sabotage_lost(sab, expired),
        sab.kind is None ==> !spec_sabotage_lost(sab, expired),
{
}

/// Repair progress: the recorded count of finished stations reaches the
/// number needed exactly when enough stations of the sabotage are done.
pub proof fn law_repair_completes(sab: ActiveSabotage, finished: nat)
    requires
        sab.fixes_needed > 0,
    ensures
        (ActiveSabotage { fixes_done: (if finished < sab.fixes_needed { finished } else { sab.fixes_needed as nat }) as u8, ..sab }).spec_is_fixed()
            <==> finished >= sab.fixes_needed,
{
}

/// The game-over cleanup runs exactly once per game over: over a run of
/// frames that are all game over, entered from a frame that was not, with
/// each frame remembering the one before (as `cleanup_on_game_over` does),
/// only the first frame clears.
pub proof fn law_game_over_cleanup_once(previous: Option<GamePhase>, frames: Seq<GamePhase>)
    requires
        !(previous matches Some(p) && p is GameOver),
        forall|i: int| 0 <= i < frames.len() ==> (#[trigger] frames[i]) is GameOver,
    ensures
        forall|i: int| 0 <= i < frames.len() ==> (first_game_over_frame(
            if i == 0 { previous } else { Some(frames[i - 1]) },
            #[trigger] frames[i],
        ) <==> i == 0),
{
    assert forall|i: int| 0 <= i < frames.len() implies (first_game_over_frame(
        if i == 0 { previous } else { Some(frames[i - 1]) },
        #[trigger] frames[i],
    ) <==> i == 0) by {
        if i > 0 {
            assert(frames[i - 1] is GameOver);
        }
    }
}

/// Oxygen and the reactor are the critical sabotages, lights is not: an
/// oxygen or reactor sabotage that is not repaired loses the match once its
/// countdown runs out (and not before), a lights sabotage never does.
pub proof fn law_oxygen_and_reactor_are_critical(sab: ActiveSabotage)
    requires
        !(sab.fixes_needed > 0 && sab.fixes_done >= sab.fixes_needed),
    ensures
        spec_is_critical_kind(SabotageKind::Oxygen),
        spec_is_critical_kind(SabotageKind::Reactor),
        !spec_is_critical_kind(SabotageKind::Lights),
        sab.kind == Some(SabotageKind::Oxygen) || sab.kind == Some(SabotageKind::Reactor) ==> spec_sabotage_lost(sab, true)
            && !spec_sabotage_lost(sab, false),
        sab.kind == Some(SabotageKind::Lights) || sab.kind is None ==> !spec_sabotage_lost(sab, true),
{
}

/// Only a lights sabotage narrows a living crewmate's view in open play:
/// with no sabotage, or an oxygen or reactor one, the crewmate has the crew
/// view; the lights sabotage gives the narrow one. An impostor's wide view
/// is the same whatever the sabotage.
pub proof fn law_only_lights_narrow_crew_vision(sabotage: Option<SabotageKind>)
    ensures
        spec_vision_mask(GamePhase::Playing, false, Some(Role::Crewmate), None) == Some(MaskKind::Crew),
        (spec_vision_mask(GamePhase::Playing, false, Some(Role::Crewmate), sabotage) == Some(MaskKind::Lights))
            <==> sabotage == Some(SabotageKind::Lights),
        sabotage != Some(SabotageKind::Lights) ==> spec_vision_mask(GamePhase::Playing, false, Some(Role::Crewmate), sabotage)
            == spec_vision_mask(GamePhase::Playing, false, Some(Role::Crewmate), None),
        spec_vision_mask(GamePhase::Playing, false, Some(Role::Impostor), sabotage) == Some(MaskKind::Impostor),
{
}

/// Stepping by three through ten stations from any start never lands on a
/// station twice within ten steps.
proof fn lemma_step_three_distinct(s: int, a: int, b: int)
    requires
        0 <= s < 10,
        0 <= a < b < 10,
    ensures
        (s + a * 3) % 10 != (s + b * 3) % 10,
        0 <= (s + a * 3) % 10 < 10,
{
    assert((s + a * 3) % 10 != (s + b * 3) % 10) by (nonlinear_arith)
        requires
            0 <= s < 10,
            0 <= a < b < 10,
    {
        let x = s + a * 3;
        let y = s + b * 3;
        assert(0 <= x < 40 && 0 <= y < 40);
        assert(x % 10 == x - 10 * (x / 10));
        assert(y % 10 == y - 10 * (y / 10));
        assert(0 <= x / 10 < 4 && 0 <= y / 10 < 4);
    }
}

/// A crewmate's task list never holds a station twice, and every task is at
/// one of the map's stations (ids 1 to 10), whatever the player id.
pub proof fn law_task_stations_distinct(t: PlayerTasks, player_id: u64, count: int)
    requires
        tasks_assigned(t, player_id, count),
    ensures
        forall|a: int, b: int| 0 <= a < b < t.items@.len() ==> t.items@[a].station_id != t.items@[b].station_id,
        forall|a: int| 0 <= a < t.items@.len() ==> 1 <= #[trigger] t.items@[a].station_id <= 10,
{
    let s = (player_id * 7) % 10;
    assert forall|a: int, b: int| 0 <= a < b < t.items@.len() implies t.items@[a].station_id != t.items@[b].station_id by {
        lemma_step_three_distinct(s, a, b);
    }
}

/// Every game action an authenticated client sends is passed on as it was
/// sent, with that client as the actor: the requested sabotage kind and the
/// vote target are kept, a vote without a target is a skip, and anything
/// that is no game action has no effect here.
pub proof fn law_actions_pass_through(client_id: u64, kind: SabotageKind, target: u64)
    ensures
        spec_action_effect(client_id, ClientMessage::Sabotage { kind }) == (HostEffect::Sabotage { actor_id: client_id, kind }),
        spec_action_effect(client_id, ClientMessage::Kill) == (HostEffect::Kill { actor_id: client_id }),
        spec_action_effect(client_id, ClientMessage::Report) == (HostEffect::Report { reporter_id: client_id }),
        spec_action_effect(client_id, ClientMessage::Emergency)
            == (HostEffect::Meeting { command: MeetingCommand::Emergency { actor_id: client_id } }),
        spec_action_effect(client_id, ClientMessage::Vote { target: Some(target) })
            == (HostEffect::Meeting { command: MeetingCommand::Vote { voter_id: client_id, target } }),
        spec_action_effect(client_id, ClientMessage::Vote { target: None })
            == (HostEffect::Meeting { command: MeetingCommand::Skip { voter_id: client_id } }),
{
}

/// The configured impostor count is kept whenever it leaves at least one
/// crewmate and is at least one; otherwise it is raised to one or lowered to
/// all players but one.
pub proof fn law_configured_impostor_count_kept(n: int, configured: u8)
    requires
        n >= 2,
    ensures
        1 <= configured <= n - 1 ==> spec_impostor_count(n, configured as int) == configured,
        configured == 0 ==> spec_impostor_count(n, configured as int) == 1,
        configured >= n ==> spec_impostor_count(n, configured as int) == n - 1,
{
}

} // verus!
