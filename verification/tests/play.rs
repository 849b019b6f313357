use opensus::bots::{BotFocus, BotMemory, bot_sabotage_attempt, ghost_bot_works, local_prompt, sabotage_at};
use opensus::cues::{Cue, CueMemory};
use opensus::flow::{
    BodyRecord, apply_kill, apply_pending_eject, can_kill, cleanup_match, cleanup_on_game_over, entered_game_over, entered_meeting,
    is_kill_target, report_body, request_kill,
};
use opensus::meeting::MeetingState;
use opensus::players::PlayerSummary;
use opensus::roles::{GamePhase, Role, WinReason};
use opensus::rules::{MatchStats, TaskBoard};
use opensus::sabotage::{ActiveSabotage, SabotageKind};
use opensus::tasks::{TaskAssignments, assign_tasks, begin_task_work, deterministic_task_ids, finish_task_hold};
use opensus::tint::tint_body_pixels;
use opensus::visuals::{MaskKind, StationLook, station_look, vision_mask};

fn p(id: u64, name: &str, role: Role, alive: bool) -> PlayerSummary {
    PlayerSummary { id, name: name.to_string(), role, alive, is_bot: false }
}

#[test]
fn kills_need_a_living_impostor_and_leave_a_body() {
    let mut roster = vec![p(1, "Red", Role::Impostor, true), p(2, "Blue", Role::Crewmate, true), p(3, "Pink", Role::Impostor, true)];
    assert!(can_kill(true, 1, &roster));
    assert!(!can_kill(false, 1, &roster));
    assert!(!can_kill(true, 2, &roster));
    assert!(is_kill_target(1, &roster[1]));
    assert!(!is_kill_target(1, &roster[0]));
    assert!(!is_kill_target(1, &roster[2]));
    let body = apply_kill(&mut roster, 1);
    assert_eq!(body, BodyRecord { player_id: 2, name: "Blue".to_string(), reported: false });
    assert!(!roster[1].alive && roster[0].alive);
    assert!(!is_kill_target(1, &roster[1]));
}

#[test]
fn a_report_opens_a_meeting_over_the_body() {
    let roster = vec![p(1, "Red", Role::Crewmate, true), p(2, "Blue", Role::Crewmate, false)];
    let mut bodies = vec![BodyRecord { player_id: 2, name: "Blue".to_string(), reported: false }];
    let mut phase = GamePhase::Playing;
    let mut meeting = MeetingState::new();
    let mut sab = ActiveSabotage { kind: Some(SabotageKind::Reactor), fixes_needed: 2, fixes_done: 0 };
    assert!(!report_body(&mut phase, &mut meeting, &mut sab, 2, &roster, &mut bodies, Some(0)));
    assert!(!report_body(&mut phase, &mut meeting, &mut sab, 1, &roster, &mut bodies, None));
    assert!(!report_body(&mut phase, &mut meeting, &mut sab, 1, &roster, &mut bodies, Some(3)));
    assert!(report_body(&mut phase, &mut meeting, &mut sab, 1, &roster, &mut bodies, Some(0)));
    assert_eq!(phase, GamePhase::Meeting);
    assert_eq!(meeting.prompt, "Blue's body was reported!");
    assert_eq!(sab, ActiveSabotage::new());
    assert!(bodies[0].reported);
    let mut phase = GamePhase::Playing;
    assert!(!report_body(&mut phase, &mut meeting, &mut sab, 1, &roster, &mut bodies, Some(0)));
}

#[test]
fn the_ejection_happens_when_results_show() {
    let mut roster = vec![p(1, "Red", Role::Crewmate, true), p(2, "Blue", Role::Impostor, true)];
    let mut meeting = MeetingState::new();
    meeting.pending_eject = Some(2);
    assert_eq!(apply_pending_eject(GamePhase::Voting, &mut meeting, &mut roster), None);
    assert_eq!(meeting.pending_eject, Some(2));
    assert_eq!(apply_pending_eject(GamePhase::Results, &mut meeting, &mut roster), Some(2));
    assert_eq!(meeting.result_text, "Blue was an Impostor.");
    assert!(!roster[1].alive);
    assert_eq!(meeting.pending_eject, None);
    meeting.pending_eject = Some(1);
    assert_eq!(apply_pending_eject(GamePhase::Results, &mut meeting, &mut roster), Some(1));
    assert_eq!(meeting.result_text, "Red was not an Impostor.");
    meeting.pending_eject = Some(9);
    assert_eq!(apply_pending_eject(GamePhase::Results, &mut meeting, &mut roster), None);
    assert_eq!(meeting.pending_eject, None);
}

#[test]
fn bodies_clear_only_when_a_meeting_starts() {
    let mut previous = None;
    assert!(!entered_meeting(&mut previous, GamePhase::Playing));
    assert!(entered_meeting(&mut previous, GamePhase::Meeting));
    assert!(!entered_meeting(&mut previous, GamePhase::Meeting));
    assert!(!entered_meeting(&mut previous, GamePhase::Voting));
}

#[test]
fn task_work_completes_assigned_consoles_once() {
    let mut a = TaskAssignments::new(vec![3, 5]);
    let mut board = TaskBoard { completed: 0, total: 2 };
    assert_eq!(begin_task_work(&mut a, false, Some(3)), None);
    assert_eq!(begin_task_work(&mut a, true, Some(3)), Some(true));
    assert_eq!(begin_task_work(&mut a, true, Some(3)), Some(false));
    assert_eq!(finish_task_hold(&mut a, &mut board), Some(3));
    assert_eq!(board.completed, 1);
    assert!(a.is_done(3) && a.has(5) && a.remaining() == 1);
    begin_task_work(&mut a, true, Some(3));
    assert_eq!(finish_task_hold(&mut a, &mut board), None);
    assert_eq!(board.completed, 1);
    begin_task_work(&mut a, true, Some(5));
    assert_eq!(finish_task_hold(&mut a, &mut board), Some(5));
    let mut full = TaskBoard { completed: 2, total: 2 };
    full.record_completion();
    assert_eq!(full.completed, 2);
}

#[test]
fn task_lists() {
    let tasks = assign_tasks(1, 4);
    assert_eq!(tasks.items.len(), 4);
    assert!(tasks.items.iter().all(|t| !t.done && t.stage == 0));
    assert_eq!(tasks.unfinished().len(), 4);
    assert_eq!(assign_tasks(1, 20).items.len(), 10);
    let ids = deterministic_task_ids(3, 1, 4);
    assert_eq!(ids.len(), 4);
    let mut sorted = ids.clone();
    sorted.sort();
    sorted.dedup();
    assert_eq!(sorted.len(), 4);
}

#[test]
fn bot_focus_and_report_latch() {
    let mut mem = BotMemory::new();
    assert_eq!(mem.focus(false, true, Role::Crewmate, None, false), BotFocus::Stop);
    assert_eq!(mem.focus(true, true, Role::Crewmate, None, false), BotFocus::Report { send: true });
    assert_eq!(mem.focus(true, true, Role::Crewmate, None, false), BotFocus::Report { send: false });
    assert_eq!(mem.focus(true, false, Role::Crewmate, Some(SabotageKind::Oxygen), true), BotFocus::FixSabotage);
    assert!(!mem.reported_this_body);
    assert_eq!(mem.focus(true, false, Role::Impostor, Some(SabotageKind::Oxygen), true), BotFocus::Tasks);
    assert_eq!(mem.focus(true, false, Role::Crewmate, Some(SabotageKind::Oxygen), false), BotFocus::Tasks);
    assert!(ghost_bot_works(GamePhase::Playing, Role::Crewmate));
    assert!(!ghost_bot_works(GamePhase::Playing, Role::Impostor));
    assert!(!ghost_bot_works(GamePhase::Meeting, Role::Crewmate));
}

#[test]
fn bot_sabotage_attempts_are_random_and_gated() {
    assert_eq!(sabotage_at(0), SabotageKind::Lights);
    assert_eq!(sabotage_at(1), SabotageKind::Oxygen);
    assert_eq!(sabotage_at(2), SabotageKind::Reactor);
    for _ in 0..200 {
        assert_eq!(bot_sabotage_attempt(Role::Crewmate, false, true, true), None);
        assert_eq!(bot_sabotage_attempt(Role::Impostor, true, true, true), None);
    }
    let mut seen = Vec::new();
    let mut misses = 0;
    for _ in 0..5000 {
        match bot_sabotage_attempt(Role::Impostor, false, true, true) {
            Some(k) => {
                if !seen.contains(&k) {
                    seen.push(k);
                }
            },
            None => misses += 1,
        }
    }
    assert_eq!(seen.len(), 3);
    assert!(misses > 4000);
}

#[test]
fn local_prompt_priorities() {
    assert_eq!(local_prompt(false, true, true, true, true, true), "");
    assert_eq!(local_prompt(true, true, true, true, true, true), "R - Report body");
    assert_eq!(local_prompt(true, true, false, true, true, true), "E - Hold to fix");
    assert_eq!(local_prompt(true, true, false, false, true, true), "F - Emergency meeting");
    assert_eq!(local_prompt(true, false, true, true, true, true), "E - Hold to work");
    assert_eq!(local_prompt(true, false, true, true, true, false), "");
}

#[test]
fn sound_cues_play_on_changes() {
    let mut mem = CueMemory::new();
    assert_eq!(mem.phase_cue(GamePhase::Meeting), Some(Cue::Meeting));
    assert_eq!(mem.phase_cue(GamePhase::Meeting), None);
    assert_eq!(mem.phase_cue(GamePhase::Playing), None);
    assert_eq!(mem.phase_cue(GamePhase::GameOver { crew_win: false, reason: WinReason::Sabotage }), Some(Cue::ImpostorWin));
    assert_eq!(mem.sabotage_cue(Some(SabotageKind::Lights)), Some(Cue::Lights));
    assert_eq!(mem.sabotage_cue(Some(SabotageKind::Lights)), None);
    assert_eq!(mem.sabotage_cue(Some(SabotageKind::Reactor)), Some(Cue::SabotageStart));
    assert_eq!(mem.sabotage_cue(None), None);
    assert_eq!(mem.task_cue(1), Some(Cue::TaskDone));
    assert_eq!(mem.task_cue(1), None);
    assert_eq!(mem.vote_cue(0, true), Some(Cue::Vote));
    assert_eq!(mem.vote_cue(0, true), None);
    assert_eq!(mem.vote_cue(2, true), Some(Cue::Vote));
    assert_eq!(mem.chat_cue(3), Some(Cue::Chat));
    assert_eq!(mem.chat_cue(0), None);
}

#[test]
fn vision_and_station_looks() {
    assert_eq!(vision_mask(GamePhase::Playing, false, Some(Role::Impostor), Some(SabotageKind::Lights)), Some(MaskKind::Impostor));
    assert_eq!(vision_mask(GamePhase::Playing, false, Some(Role::Crewmate), Some(SabotageKind::Lights)), Some(MaskKind::Lights));
    assert_eq!(vision_mask(GamePhase::Playing, false, Some(Role::Crewmate), None), Some(MaskKind::Crew));
    assert_eq!(vision_mask(GamePhase::Playing, true, Some(Role::Crewmate), None), None);
    assert_eq!(vision_mask(GamePhase::Meeting, false, Some(Role::Crewmate), None), None);
    let mut a = TaskAssignments::new(vec![1, 2]);
    begin_task_work(&mut a, true, Some(1));
    let mut board = TaskBoard { completed: 0, total: 2 };
    finish_task_hold(&mut a, &mut board);
    assert_eq!(station_look(&a, 1, false), StationLook::Done);
    assert_eq!(station_look(&a, 2, false), StationLook::Lit);
    assert_eq!(station_look(&a, 7, false), StationLook::Dim);
    assert_eq!(station_look(&a, 7, true), StationLook::Lit);
}

#[test]
fn body_tint_replaces_only_visible_magenta() {
    let mut px = vec![
        200, 20, 200, 255, // key
        200, 20, 200, 4, // transparent key
        200, 190, 200, 255, // too green
        10, 10, 10, 255, // dark
        200, 20, // trailing bytes
    ];
    tint_body_pixels(&mut px, (1, 2, 3));
    assert_eq!(px, vec![1, 2, 3, 255, 200, 20, 200, 4, 200, 190, 200, 255, 10, 10, 10, 255, 200, 20]);
}

#[test]
fn game_over_edge_and_match_cleanup() {
    let over = GamePhase::GameOver { crew_win: true, reason: WinReason::Tasks };
    let mut previous = None;
    assert!(!entered_game_over(&mut previous, GamePhase::Playing));
    assert!(entered_game_over(&mut previous, over));
    assert!(!entered_game_over(&mut previous, over));
    let mut stats = MatchStats { impostors_spawned: 1, players_spawned: 4 };
    let mut meeting = MeetingState::new();
    meeting.begin_meeting("x".to_string(), &[p(1, "Red", Role::Crewmate, true)]);
    let mut sab = ActiveSabotage { kind: Some(SabotageKind::Lights), fixes_needed: 1, fixes_done: 0 };
    cleanup_match(&mut stats, &mut meeting, &mut sab);
    assert_eq!(stats, MatchStats::default());
    assert!(meeting.options.is_empty());
    assert_eq!(sab, ActiveSabotage::new());
}

#[test]
fn a_kill_request_needs_a_living_impostor_and_a_crewmate_in_reach() {
    let mut roster = vec![p(1, "Red", Role::Impostor, true), p(2, "Blue", Role::Crewmate, true), p(3, "Pink", Role::Impostor, true)];
    let mut bodies: Vec<BodyRecord> = Vec::new();
    assert_eq!(request_kill(GamePhase::Meeting, true, 1, &mut roster, &mut bodies, Some(1)), None);
    assert_eq!(request_kill(GamePhase::Playing, false, 1, &mut roster, &mut bodies, Some(1)), None);
    assert_eq!(request_kill(GamePhase::Playing, true, 2, &mut roster, &mut bodies, Some(1)), None);
    assert_eq!(request_kill(GamePhase::Playing, true, 1, &mut roster, &mut bodies, Some(2)), None);
    assert_eq!(request_kill(GamePhase::Playing, true, 1, &mut roster, &mut bodies, Some(0)), None);
    assert_eq!(request_kill(GamePhase::Playing, true, 1, &mut roster, &mut bodies, None), None);
    assert_eq!(request_kill(GamePhase::Playing, true, 1, &mut roster, &mut bodies, Some(9)), None);
    assert!(bodies.is_empty() && roster.iter().all(|x| x.alive));
    assert_eq!(request_kill(GamePhase::Playing, true, 1, &mut roster, &mut bodies, Some(1)), Some(2));
    assert!(!roster[1].alive);
    assert_eq!(bodies, vec![BodyRecord { player_id: 2, name: "Blue".to_string(), reported: false }]);
    assert_eq!(request_kill(GamePhase::Playing, true, 1, &mut roster, &mut bodies, Some(1)), None);
    assert_eq!(bodies.len(), 1);
}

#[test]
fn the_game_over_cleanup_runs_once() {
    let over = GamePhase::GameOver { crew_win: false, reason: WinReason::Sabotage };
    let mut previous = Some(GamePhase::Playing);
    let mut sab = ActiveSabotage { kind: Some(SabotageKind::Reactor), fixes_needed: 2, fixes_done: 1 };
    assert!(!cleanup_on_game_over(&mut previous, GamePhase::Playing, &mut sab));
    assert_eq!(sab.kind, Some(SabotageKind::Reactor));
    assert!(cleanup_on_game_over(&mut previous, over, &mut sab));
    assert_eq!(sab, ActiveSabotage::new());
    sab.kind = Some(SabotageKind::Lights);
    sab.fixes_needed = 1;
    assert!(!cleanup_on_game_over(&mut previous, over, &mut sab));
    assert_eq!(sab.kind, Some(SabotageKind::Lights));
    assert_eq!(previous, Some(over));
}
