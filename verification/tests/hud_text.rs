use opensus::chat::ChatEntry;
use opensus::hud::{
    VoteButton, chat_input_label, chat_speaker, first_visible_chat_line, game_over_text, hosting_note,
    meeting_stage, ready_button_label, ready_summary, role_label, role_reveal_text, sabotage_name, seat_badge,
    seat_status, task_counter, vote_buttons,
};
use opensus::lobby::LobbySlot;
use opensus::meeting::VoteOption;
use opensus::menu::Translations;
use opensus::roles::{GamePhase, Role, WinReason};
use opensus::sabotage::SabotageKind;

fn seat(ready: bool, host: bool, bot: bool, local: bool) -> LobbySlot {
    LobbySlot { id: 1, name: "A".to_string(), color_index: 0, ready, is_local: local, is_host: host, is_bot: bot }
}

#[test]
fn lobby_lines() {
    let none = Translations::new();
    assert_eq!(seat_status(&seat(true, true, false, true), &none), "Ready · Host");
    assert_eq!(seat_status(&seat(false, false, true, false), &none), "Not ready · Bot");
    assert_eq!(seat_status(&seat(true, false, false, true), &none), "Ready · You");
    assert_eq!(seat_status(&seat(false, false, false, false), &none), "Not ready");
    let mut de = Translations::new();
    de.insert("ready".to_string(), "Bereit".to_string());
    assert_eq!(seat_status(&seat(true, false, false, false), &de), "Bereit");
    assert_eq!(seat_badge(true), "READY");
    assert_eq!(seat_badge(false), "WAITING");
    assert_eq!(ready_summary(&[seat(true, true, false, true), seat(false, false, true, false), seat(true, false, false, false)]), "2/3 ready");
    assert_eq!(ready_summary(&[]), "0/0 ready");
    assert_eq!(hosting_note(true), "You are hosting this lobby.");
    assert_eq!(hosting_note(false), "Waiting for the host to begin.");
    assert_eq!(ready_button_label(true, &none), "Unready");
    assert_eq!(ready_button_label(false, &none), "Ready");
}

#[test]
fn match_hud_lines() {
    let none = Translations::new();
    assert_eq!(role_label(Some(Role::Impostor), &none), "Impostor");
    assert_eq!(role_label(None, &none), "-");
    assert_eq!(task_counter(3, 12), "3/12");
    assert_eq!(sabotage_name(SabotageKind::Reactor), "Reactor");
    assert_eq!(role_reveal_text(Some(Role::Crewmate), &none), ("CREWMATE".to_string(), "Finish tasks. Find the impostor.".to_string()));
    assert_eq!(role_reveal_text(None, &none), ("...".to_string(), String::new()));
    assert_eq!(meeting_stage(GamePhase::Voting, &none), "Voting");
    assert_eq!(meeting_stage(GamePhase::Playing, &none), "");
    assert_eq!(
        game_over_text(GamePhase::GameOver { crew_win: false, reason: WinReason::Sabotage }, &none),
        ("Impostors win!".to_string(), "Critical sabotage was not fixed".to_string())
    );
    assert_eq!(game_over_text(GamePhase::Playing, &none), (String::new(), String::new()));
}

#[test]
fn ballot_and_chat_lines() {
    let none = Translations::new();
    let options = vec![
        VoteOption { player_id: 1, name: "Red".to_string(), dead: false },
        VoteOption { player_id: 2, name: "Blue".to_string(), dead: true },
        VoteOption { player_id: 3, name: "Lime".to_string(), dead: false },
    ];
    assert_eq!(
        vote_buttons(GamePhase::Voting, false, true, &options, &none),
        Some(vec![
            VoteButton { player_id: 1, label: "Vote Red".to_string() },
            VoteButton { player_id: 3, label: "Vote Lime".to_string() },
        ])
    );
    assert_eq!(vote_buttons(GamePhase::Voting, true, true, &options, &none), None);
    assert_eq!(vote_buttons(GamePhase::Voting, false, false, &options, &none), None);
    assert_eq!(vote_buttons(GamePhase::Meeting, false, true, &options, &none), None);
    let ghost = ChatEntry { player_id: 2, name: "Blue".to_string(), text: "boo".to_string(), is_ghost: true };
    assert_eq!(chat_speaker(&ghost), "Blue (ghost):");
    assert_eq!(chat_input_label("hi", false), "> hi_");
    assert_eq!(chat_input_label("hi", true), "> [ghost] hi_");
    assert_eq!(first_visible_chat_line(3), 0);
    assert_eq!(first_visible_chat_line(20), 12);
}
