use opensus::lobby::LobbyState;
use opensus::menu::{
    AppState, LocalCommand, MenuState, OverlayMenu, PendingNetworkStart, ScreenTransition, TransitionPhase, Translations, UiAction,
    t,
};
use opensus::roles::{GamePhase, RuntimeMode};
use opensus::rules::MatchConfig;
use opensus::save::SaveData;

fn menu() -> MenuState {
    MenuState::new("en".to_string(), vec!["en".to_string(), "de".to_string()])
}

#[test]
fn translations_fall_back_to_the_default_text() {
    let mut table = Translations::new();
    table.insert("title".to_string(), "Titel".to_string());
    assert_eq!(t(&table, "title", "Title"), "Titel");
    assert_eq!(t(&table, "play", "Play"), "Play");
    table.insert("title".to_string(), "Second".to_string());
    assert_eq!(t(&table, "title", "Title"), "Second");
    assert_eq!(t(&Translations::new(), "play", "Play"), "Play");
}

#[test]
fn escape_pauses_and_resumes() {
    let mut m = menu();
    assert_eq!(m.handle_pause_key(false, false, true).pause_clock, false);
    assert!(!m.paused);
    assert!(m.handle_pause_key(true, false, true).pause_clock);
    assert!(m.paused && m.overlay == OverlayMenu::Pause);
    m.handle_pause_key(true, false, true);
    assert_eq!(m.overlay, OverlayMenu::Hidden);
    assert!(m.unpause_pending && m.paused);
    assert!(m.finish_unpause().unpause_clock);
    assert!(!m.paused && !m.unpause_pending);
    assert!(!m.finish_unpause().unpause_clock);
    assert_eq!(m, menu());
}

#[test]
fn escape_backs_out_of_panels() {
    let mut lobby = LobbyState::new();
    let mut phase = GamePhase::Playing;
    let mut save = SaveData::new_default();
    let mut m = menu();
    m.apply_action(UiAction::TogglePause, &mut lobby, &mut phase, &mut save);
    m.apply_action(UiAction::OpenSettings, &mut lobby, &mut phase, &mut save);
    assert_eq!(m.overlay, OverlayMenu::Settings);
    m.handle_pause_key(true, false, true);
    assert_eq!(m.overlay, OverlayMenu::Pause);
    m.handle_pause_key(true, true, true);
    assert_eq!(m.overlay, OverlayMenu::Pause);
}

#[test]
fn session_buttons() {
    let mut lobby = LobbyState::new();
    let mut phase = GamePhase::GameOver { crew_win: true, reason: opensus::roles::WinReason::Tasks };
    let mut save = SaveData::new_default();
    let mut m = menu();
    let fx = m.apply_action(UiAction::HostLobby, &mut lobby, &mut phase, &mut save);
    assert_eq!(fx.transition, Some(AppState::Loading));
    assert_eq!(m.mode, RuntimeMode::Host);
    assert_eq!(m.pending_network, PendingNetworkStart::HostLocal { bind_addr: "127.0.0.1:5000".to_string() });
    m.apply_action(UiAction::JoinLobby, &mut lobby, &mut phase, &mut save);
    assert_eq!(m.pending_network, PendingNetworkStart::JoinLocal { server_addr: "127.0.0.1:5000".to_string() });
    let fx = m.apply_action(UiAction::LeaveLobby, &mut lobby, &mut phase, &mut save);
    assert_eq!(fx.transition, Some(AppState::Title));
    assert_eq!((m.mode, m.pending_network.clone()), (RuntimeMode::Local, PendingNetworkStart::Offline));
    let fx = m.apply_action(UiAction::PlayAgain, &mut lobby, &mut phase, &mut save);
    assert_eq!(phase, GamePhase::Idle);
    assert_eq!(fx.transition, Some(AppState::Lobby));
    assert!(m.apply_action(UiAction::StartMatch, &mut lobby, &mut phase, &mut save).start_match);
    assert!(m.apply_action(UiAction::QuitApp, &mut lobby, &mut phase, &mut save).exit);
    assert_eq!(m.apply_action(UiAction::CastVote(4), &mut lobby, &mut phase, &mut save).meeting, Some(LocalCommand::Vote { target: 4 }));
    assert_eq!(m.apply_action(UiAction::SkipVote, &mut lobby, &mut phase, &mut save).meeting, Some(LocalCommand::Skip));
    assert_eq!(m.apply_action(UiAction::CallEmergency, &mut lobby, &mut phase, &mut save).meeting, Some(LocalCommand::Emergency));
}

#[test]
fn lobby_buttons_change_the_local_seat() {
    let mut lobby = LobbyState::new();
    let mut save = SaveData::new_default();
    lobby.setup(&save, RuntimeMode::Local, &MatchConfig::default());
    let mut phase = GamePhase::Idle;
    let mut m = menu();
    m.apply_action(UiAction::ToggleReady, &mut lobby, &mut phase, &mut save);
    assert!(lobby.local_ready && lobby.slots[0].ready);
    save.preferred_color_index = 11;
    let fx = m.apply_action(UiAction::CycleColor, &mut lobby, &mut phase, &mut save);
    assert!(!fx.persist_save);
    assert_eq!(save.preferred_color_index, 0);
    assert_eq!(lobby.slots[0].color_index, 0);
}

#[test]
fn settings_language_is_restored_unless_saved() {
    let mut lobby = LobbyState::new();
    let mut phase = GamePhase::Idle;
    let mut save = SaveData::new_default();
    let mut m = menu();
    m.apply_action(UiAction::OpenSettings, &mut lobby, &mut phase, &mut save);
    m.apply_action(UiAction::SetLanguage("de".to_string()), &mut lobby, &mut phase, &mut save);
    assert_eq!(m.language, "de");
    m.apply_action(UiAction::SetLanguage("xx".to_string()), &mut lobby, &mut phase, &mut save);
    assert_eq!(m.language, "de");
    m.apply_action(UiAction::CloseOverlay, &mut lobby, &mut phase, &mut save);
    assert_eq!(m.language, "en");
    assert_eq!(m.overlay, OverlayMenu::Hidden);
    m.apply_action(UiAction::OpenSettings, &mut lobby, &mut phase, &mut save);
    m.apply_action(UiAction::SetLanguage("de".to_string()), &mut lobby, &mut phase, &mut save);
    let fx = m.apply_action(UiAction::SaveSettings, &mut lobby, &mut phase, &mut save);
    assert!(fx.store_settings && fx.persist_save);
    assert_eq!(m.saved_language, "de");
    m.apply_action(UiAction::OpenCredits, &mut lobby, &mut phase, &mut save);
    assert_eq!(m.overlay, OverlayMenu::Credits);
    m.apply_action(UiAction::CloseOverlay, &mut lobby, &mut phase, &mut save);
    assert_eq!(m.language, "de");
}

#[test]
fn quitting_to_title_unpauses() {
    let mut lobby = LobbyState::new();
    let mut phase = GamePhase::Playing;
    let mut save = SaveData::new_default();
    let mut m = menu();
    m.apply_action(UiAction::TogglePause, &mut lobby, &mut phase, &mut save);
    let fx = m.apply_action(UiAction::QuitToTitle, &mut lobby, &mut phase, &mut save);
    assert!(fx.unpause_clock);
    assert_eq!(fx.transition, Some(AppState::Title));
    assert!(!m.paused && m.overlay == OverlayMenu::Hidden);
    m.apply_action(UiAction::TogglePause, &mut lobby, &mut phase, &mut save);
    m.apply_action(UiAction::Resume, &mut lobby, &mut phase, &mut save);
    assert!(m.unpause_pending && m.overlay == OverlayMenu::Hidden);
}

#[test]
fn screen_fades_switch_screens_when_covered() {
    let mut tr = ScreenTransition::new();
    assert_eq!(tr.stage_complete(), None);
    tr.begin_to_state(AppState::Lobby);
    assert_eq!(tr.stage_complete(), Some(AppState::Lobby));
    assert_eq!(tr.phase, TransitionPhase::Uncovering);
    assert_eq!(tr.stage_complete(), None);
    assert!(!tr.active);
    assert_eq!(tr.phase, TransitionPhase::Idle);
}

#[test]
fn saved_language_applies_when_available() {
    let mut m = menu();
    m.apply_saved_language(&"xx".to_string());
    assert_eq!(m.language, "en");
    m.apply_saved_language(&"de".to_string());
    assert_eq!(m.language, "de");
    assert_eq!(opensus::menu::local_server_address_text(), "127.0.0.1:5000");
}

#[test]
fn only_cycling_the_color_needs_room_for_the_next_color() {
    let mut m = menu();
    let mut lobby = LobbyState::new();
    let mut phase = GamePhase::Idle;
    let mut save = SaveData::new_default();
    save.preferred_color_index = 255;
    let fx = m.apply_action(UiAction::StartMatch, &mut lobby, &mut phase, &mut save);
    assert!(fx.start_match);
    assert_eq!(save.preferred_color_index, 255);
}
