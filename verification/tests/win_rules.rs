use opensus::flow::{PhaseStep, advance_phase, check_win};
use opensus::meeting::MeetingState;
use opensus::roles::{GamePhase, Role, WinReason};
use opensus::rules::{MatchStats, TaskBoard, apply_game_over, compute_win, compute_win_from_counts, living_role_counts};
use opensus::save::SaveData;

fn stats(imps: u32, players: u32) -> MatchStats {
    MatchStats { impostors_spawned: imps, players_spawned: players }
}

fn board(done: u32, total: u32) -> TaskBoard {
    TaskBoard { completed: done, total }
}

#[test]
fn tasks_complete_crew_win() {
    assert_eq!(compute_win_from_counts(&board(4, 4), 3, 1, &stats(1, 4)), Some(WinReason::Tasks));
}

#[test]
fn tasks_disabled_when_total_zero() {
    assert_eq!(compute_win_from_counts(&board(0, 0), 3, 1, &stats(1, 4)), None);
}

#[test]
fn all_imps_gone_crew_win() {
    assert_eq!(compute_win_from_counts(&board(0, 4), 2, 0, &stats(1, 4)), Some(WinReason::ImpostorsEliminated));
}

#[test]
fn no_imps_seeded_no_death_win() {
    assert_eq!(compute_win_from_counts(&board(0, 4), 1, 0, &stats(0, 1)), None);
}

#[test]
fn parity_impostor_win() {
    assert_eq!(compute_win_from_counts(&board(0, 4), 1, 1, &stats(1, 4)), Some(WinReason::ImpostorMajority));
    assert_eq!(compute_win_from_counts(&board(0, 4), 2, 2, &stats(2, 6)), Some(WinReason::ImpostorMajority));
}

#[test]
fn majority_impostor_win() {
    assert_eq!(compute_win_from_counts(&board(0, 4), 1, 2, &stats(2, 5)), Some(WinReason::ImpostorMajority));
}

#[test]
fn empty_world_no_winner() {
    assert_eq!(compute_win_from_counts(&board(0, 4), 0, 0, &stats(1, 4)), None);
}

#[test]
fn tasks_beat_same_frame_majority() {
    assert_eq!(compute_win_from_counts(&board(4, 4), 1, 1, &stats(1, 4)), Some(WinReason::Tasks));
}

#[test]
fn task_win_when_no_death_majority() {
    assert_eq!(compute_win_from_counts(&board(4, 4), 2, 1, &stats(1, 4)), Some(WinReason::Tasks));
}

#[test]
fn counts_living_roles() {
    let living = [Role::Crewmate, Role::Impostor, Role::Crewmate];
    assert_eq!(living_role_counts(&living), (2, 1));
    assert_eq!(compute_win(&board(0, 4), &living, &stats(1, 3)), None);
    assert_eq!(compute_win(&board(0, 4), &[Role::Impostor, Role::Crewmate], &stats(1, 3)), Some(WinReason::ImpostorMajority));
}

#[test]
fn game_over_is_recorded_once() {
    let mut phase = GamePhase::Playing;
    let mut save = SaveData::new_default();
    assert!(apply_game_over(&mut phase, WinReason::Tasks, &mut save));
    assert_eq!(phase, GamePhase::GameOver { crew_win: true, reason: WinReason::Tasks });
    assert_eq!((save.games_played, save.crew_wins, save.impostor_wins), (1, 1, 0));
    assert!(!apply_game_over(&mut phase, WinReason::ImpostorMajority, &mut save));
    assert_eq!(phase, GamePhase::GameOver { crew_win: true, reason: WinReason::Tasks });
    assert_eq!((save.games_played, save.crew_wins, save.impostor_wins), (1, 1, 0));
}

#[test]
fn win_counters_saturate() {
    let mut phase = GamePhase::Playing;
    let mut save = SaveData::new_default();
    save.games_played = u32::MAX;
    save.impostor_wins = u32::MAX;
    assert!(apply_game_over(&mut phase, WinReason::Sabotage, &mut save));
    assert_eq!(phase, GamePhase::GameOver { crew_win: false, reason: WinReason::Sabotage });
    assert_eq!((save.games_played, save.crew_wins, save.impostor_wins), (u32::MAX, 0, u32::MAX));
}

#[test]
fn open_play_win_check_ends_the_match() {
    let mut phase = GamePhase::Playing;
    let mut save = SaveData::new_default();
    assert!(check_win(&mut phase, &board(0, 4), &[Role::Impostor], &stats(1, 2), &mut save));
    assert_eq!(phase, GamePhase::GameOver { crew_win: false, reason: WinReason::ImpostorMajority });
    let mut meeting_phase = GamePhase::Meeting;
    assert!(!check_win(&mut meeting_phase, &board(0, 4), &[Role::Impostor], &stats(1, 2), &mut save));
    assert_eq!(meeting_phase, GamePhase::Meeting);
}

#[test]
fn discussion_turns_into_voting() {
    let mut phase = GamePhase::Meeting;
    let mut meeting = MeetingState::new();
    let mut save = SaveData::new_default();
    assert_eq!(advance_phase(&mut phase, &mut meeting, false, &board(0, 4), &[], &stats(1, 4), &mut save), PhaseStep::Nothing);
    assert_eq!(phase, GamePhase::Meeting);
    assert_eq!(advance_phase(&mut phase, &mut meeting, true, &board(0, 4), &[], &stats(1, 4), &mut save), PhaseStep::VotingStarted);
    assert_eq!(phase, GamePhase::Voting);
    assert_eq!(meeting.prompt, "Vote");
}

#[test]
fn results_resume_play_or_decide() {
    let mut phase = GamePhase::Results;
    let mut meeting = MeetingState::new();
    let mut save = SaveData::new_default();
    let living = [Role::Crewmate, Role::Crewmate, Role::Impostor];
    assert_eq!(
        advance_phase(&mut phase, &mut meeting, true, &board(0, 4), &living, &stats(1, 4), &mut save),
        PhaseStep::ResultsOver { save_changed: false }
    );
    assert_eq!(phase, GamePhase::Playing);

    let mut phase = GamePhase::Results;
    let crew_only = [Role::Crewmate, Role::Crewmate];
    assert_eq!(
        advance_phase(&mut phase, &mut meeting, true, &board(0, 4), &crew_only, &stats(1, 4), &mut save),
        PhaseStep::ResultsOver { save_changed: true }
    );
    assert_eq!(phase, GamePhase::GameOver { crew_win: true, reason: WinReason::ImpostorsEliminated });
    assert_eq!(save.crew_wins, 1);
}

#[test]
fn timers_do_nothing_after_the_match() {
    let over = GamePhase::GameOver { crew_win: true, reason: WinReason::Tasks };
    let mut phase = over;
    let mut meeting = MeetingState::new();
    let mut save = SaveData::new_default();
    assert_eq!(advance_phase(&mut phase, &mut meeting, true, &board(0, 4), &[], &stats(1, 4), &mut save), PhaseStep::Nothing);
    assert_eq!(phase, over);
}
