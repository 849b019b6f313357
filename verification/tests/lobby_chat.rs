use opensus::chat::{
    CHAT_LOG_CAP, ChatEntry, ChatInputBuffer, ChatKey, ChatState, accept_remote_chat, chat_delivered_to,
    chat_open, sanitize_chat,
};
use opensus::lobby::{HelloOutcome, LobbyState, NetLobbyPlayer, minimum_players};
use opensus::players::PlayerSummary;
use opensus::roles::{GamePhase, Role, RuntimeMode};
use opensus::rules::MatchConfig;
use opensus::save::SaveData;
use opensus::text::{is_control, push_decimal, take_chars, trim_white_space};

fn cfg() -> MatchConfig {
    MatchConfig::default()
}

#[test]
fn offline_lobby_seats_host_and_bots() {
    let mut lobby = LobbyState::new();
    let save = SaveData::new_default();
    lobby.setup(&save, RuntimeMode::Local, &cfg());
    assert_eq!(lobby.slots.len(), 4);
    assert!(lobby.slots[0].is_local && lobby.slots[0].is_host && !lobby.slots[0].ready);
    assert_eq!(lobby.slots[1].name, "Agent-2");
    assert_eq!(lobby.slots[1].id, 10);
    assert_eq!(lobby.slots[3].name, "Agent-4");
    assert_eq!(lobby.slots[3].color_index, 3);
    assert!(lobby.slots[3].is_bot && lobby.slots[3].ready);
    let mut online = LobbyState::new();
    online.setup(&save, RuntimeMode::Host, &cfg());
    assert_eq!(online.slots.len(), 1);
    let mut client = LobbyState::new();
    client.setup(&save, RuntimeMode::Client, &cfg());
    assert!(client.slots.is_empty() && !client.is_host);
}

#[test]
fn start_needs_ready_host_enough_players_and_ready_remotes() {
    let save = SaveData::new_default();
    let mut lobby = LobbyState::new();
    lobby.setup(&save, RuntimeMode::Local, &cfg());
    assert_eq!(minimum_players(1), 3);
    assert_eq!(minimum_players(2), 5);
    assert!(!lobby.can_start_match(RuntimeMode::Local, &cfg()));
    lobby.toggle_local_ready();
    assert!(lobby.local_ready && lobby.slots[0].ready);
    assert!(lobby.can_start_match(RuntimeMode::Local, &cfg()));

    let mut host = LobbyState::new();
    host.setup(&save, RuntimeMode::Host, &cfg());
    host.toggle_local_ready();
    assert_eq!(host.apply_hello(50, 4, 4, "Alice", 2, &cfg()), HelloOutcome::Joined);
    assert_eq!(host.apply_hello(51, 4, 4, "Bob", 3, &cfg()), HelloOutcome::Joined);
    assert!(!host.can_start_match(RuntimeMode::Host, &cfg()));
    host.set_ready(50, true);
    host.set_ready(51, true);
    assert!(host.can_start_match(RuntimeMode::Host, &cfg()));
}

#[test]
fn hello_outcomes() {
    let save = SaveData::new_default();
    let mut lobby = LobbyState::new();
    lobby.setup(&save, RuntimeMode::Host, &cfg());
    assert_eq!(lobby.apply_hello(7, 3, 4, "Old", 1, &cfg()), HelloOutcome::ProtocolMismatch);
    assert_eq!(lobby.slots.len(), 1);
    assert_eq!(lobby.apply_hello(7, 4, 4, "AVeryLongPlayerNameIndeed", 1, &cfg()), HelloOutcome::Joined);
    assert_eq!(lobby.slots[1].name, "AVeryLongPlayerN");
    assert_eq!(lobby.apply_hello(7, 4, 4, "Renamed", 5, &cfg()), HelloOutcome::Updated);
    assert_eq!(lobby.slots.len(), 2);
    assert_eq!(lobby.slots[1].name, "Renamed");
    assert_eq!(lobby.slots[1].color_index, 5);
    let tiny = MatchConfig { max_players: 2, ..cfg() };
    assert_eq!(lobby.apply_hello(8, 4, 4, "Late", 1, &tiny), HelloOutcome::LobbyFull);
    assert!(!lobby.accepts_connection(true, &tiny));
    assert!(lobby.accepts_connection(true, &cfg()));
    assert!(!lobby.accepts_connection(false, &cfg()));
}

#[test]
fn leaving_removes_the_seat_and_snapshots_round_trip() {
    let save = SaveData::new_default();
    let mut lobby = LobbyState::new();
    lobby.setup(&save, RuntimeMode::Host, &cfg());
    lobby.apply_hello(7, 4, 4, "Alice", 1, &cfg());
    let snap = lobby.snapshot();
    assert_eq!(snap.len(), 2);
    assert_eq!(snap[1].player_id, 7);
    lobby.remove_player(7);
    assert_eq!(lobby.slots.len(), 1);

    let mut client = LobbyState::new();
    client.local_ready = true;
    client.apply_snapshot(
        vec![
            NetLobbyPlayer { player_id: 1, name: "Host".to_string(), color_index: 0, ready: true, is_host: true },
            NetLobbyPlayer { player_id: 7, name: "Me".to_string(), color_index: 2, ready: false, is_host: false },
        ],
        Some(7),
    );
    assert!(client.slots[1].is_local && !client.slots[0].is_local);
    assert!(!client.slots[1].ready);
    assert!(client.local_ready);
    client.set_local_color(9);
    assert_eq!(client.slots[1].color_index, 9);
}

#[test]
fn chat_log_keeps_the_newest_fifty() {
    let mut chat = ChatState::default();
    for i in 0..(CHAT_LOG_CAP as u64 + 5) {
        chat.push(ChatEntry { player_id: i, name: "p".to_string(), text: format!("{i}"), is_ghost: false });
    }
    assert_eq!(chat.entries.len(), CHAT_LOG_CAP);
    assert_eq!(chat.entries.front().unwrap().player_id, 5);
    assert_eq!(chat.entries.back().unwrap().player_id, CHAT_LOG_CAP as u64 + 4);
    chat.clear();
    assert!(chat.entries.is_empty());
}

#[test]
fn chat_lines_are_trimmed_and_capped() {
    assert_eq!(sanitize_chat("  hello there \n"), "hello there");
    let long = "x".repeat(300);
    assert_eq!(sanitize_chat(&long).chars().count(), 120);
    assert_eq!(sanitize_chat("   "), "");
}

#[test]
fn chat_is_open_only_in_meetings_and_ghosts_talk_to_ghosts() {
    assert!(chat_open(GamePhase::Meeting));
    assert!(chat_open(GamePhase::Voting));
    assert!(!chat_open(GamePhase::Playing));
    assert!(chat_delivered_to(false, Some(false)));
    assert!(chat_delivered_to(false, Some(true)));
    assert!(!chat_delivered_to(true, Some(false)));
    assert!(chat_delivered_to(true, Some(true)));
    assert!(chat_delivered_to(true, None));
}

#[test]
fn remote_chat_is_accepted_from_known_players_in_meetings() {
    let ghost = PlayerSummary { id: 3, name: "Ghosty".to_string(), role: Role::Crewmate, alive: false, is_bot: false };
    let entry = accept_remote_chat(GamePhase::Voting, "  boo ", Some(&ghost)).unwrap();
    assert_eq!(entry, ChatEntry { player_id: 3, name: "Ghosty".to_string(), text: "boo".to_string(), is_ghost: true });
    assert_eq!(accept_remote_chat(GamePhase::Playing, "boo", Some(&ghost)), None);
    assert_eq!(accept_remote_chat(GamePhase::Meeting, "   ", Some(&ghost)), None);
    assert_eq!(accept_remote_chat(GamePhase::Meeting, "hi", None), None);
}

#[test]
fn typing_a_chat_line() {
    let mut buf = ChatInputBuffer::new();
    assert_eq!(buf.apply_key(ChatKey::Character("he\u{7}y".to_string())), None);
    assert_eq!(buf.0, "hey");
    buf.apply_key(ChatKey::Space);
    buf.apply_key(ChatKey::Character("you".to_string()));
    buf.apply_key(ChatKey::Backspace);
    assert_eq!(buf.0, "hey yo");
    buf.apply_key(ChatKey::Other);
    assert_eq!(buf.apply_key(ChatKey::Enter), Some("hey yo".to_string()));
    assert!(buf.0.is_empty());
    assert_eq!(buf.apply_key(ChatKey::Enter), None);
    assert_eq!(buf.apply_key(ChatKey::Backspace), None);
    let full = "y".repeat(200);
    buf.apply_key(ChatKey::Character(full));
    assert_eq!(buf.0.len(), 120);
}

#[test]
fn text_helpers() {
    let mut s = "n=".to_string();
    push_decimal(&mut s, 1207);
    assert_eq!(s, "n=1207");
    push_decimal(&mut s, 0);
    assert_eq!(s, "n=12070");
    assert_eq!(take_chars("héllo", 2), "hé");
    assert_eq!(take_chars("ab", 5), "ab");
    assert!(is_control('\u{7f}'));
    assert!(is_control('\n'));
    assert!(!is_control('a'));
}

#[test]
fn trimming_follows_unicode_white_space() {
    assert_eq!(trim_white_space("\u{3000}\t hi there\u{a0}\u{2029}"), "hi there");
    assert_eq!(trim_white_space(" \n "), "");
    assert_eq!(trim_white_space("x"), "x");
    assert_eq!(trim_white_space("\u{200b}x"), "\u{200b}x");
}

#[test]
fn living_readers_do_not_see_ghost_lines() {
    let mut chat = ChatState::new();
    chat.push(ChatEntry { player_id: 1, name: "A".to_string(), text: "alive".to_string(), is_ghost: false });
    chat.push(ChatEntry { player_id: 2, name: "B".to_string(), text: "boo".to_string(), is_ghost: true });
    let living: Vec<String> = chat.visible_entries(false).into_iter().map(|e| e.text).collect();
    assert_eq!(living, vec!["alive".to_string()]);
    assert_eq!(chat.visible_entries(true).len(), 2);
    assert!(chat.entries[1].visible_to(true));
    assert!(!chat.entries[1].visible_to(false));
}
