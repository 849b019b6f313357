use opensus::roles::{GamePhase, RuntimeMode, WinReason, has_authority, is_remote_client};
use opensus::save::{SAVE_VERSION, SaveData};

#[test]
fn default_profile_and_color_cycle() {
    let mut save = SaveData::default();
    assert_eq!(save.version(), SAVE_VERSION);
    assert_eq!(save.player_name, "Agent");
    assert_eq!((save.games_played, save.crew_wins, save.impostor_wins), (0, 0, 0));
    for _ in 0..11 {
        save.cycle_color();
    }
    assert_eq!(save.preferred_color_index, 11);
    save.cycle_color();
    assert_eq!(save.preferred_color_index, 0);
    save.set_version(7);
    assert_eq!(save.version, 7);
}

#[test]
fn authority_by_mode_and_win_labels() {
    assert!(has_authority(RuntimeMode::Local));
    assert!(has_authority(RuntimeMode::Host));
    assert!(!has_authority(RuntimeMode::Client));
    assert!(is_remote_client(RuntimeMode::Client));
    assert!(!is_remote_client(RuntimeMode::Host));
    assert!(WinReason::Tasks.crew_win());
    assert!(WinReason::ImpostorsEliminated.crew_win());
    assert!(!WinReason::ImpostorMajority.crew_win());
    assert!(!WinReason::Sabotage.crew_win());
    assert_eq!(GamePhase::default(), GamePhase::Idle);
    assert_eq!(WinReason::Sabotage.label(), "Critical sabotage was not fixed");
    assert_eq!(WinReason::Tasks.label(), "All tasks completed");
}
