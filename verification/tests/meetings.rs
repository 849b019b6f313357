use opensus::meeting::{MeetingState, ensure_bot_votes};
use opensus::players::PlayerSummary;
use opensus::roles::{GamePhase, Role};

fn player(id: u64, name: &str, role: Role, alive: bool, is_bot: bool) -> PlayerSummary {
    PlayerSummary { id, name: name.to_string(), role, alive, is_bot }
}

fn roster() -> Vec<PlayerSummary> {
    vec![
        player(1, "Red", Role::Crewmate, true, false),
        player(2, "Blue", Role::Impostor, true, true),
        player(3, "Green", Role::Crewmate, true, true),
        player(4, "Ghost", Role::Crewmate, false, true),
    ]
}

#[test]
fn begin_meeting_lists_everyone_and_marks_the_dead() {
    let mut m = MeetingState::new();
    m.begin_meeting("Emergency Meeting!".to_string(), &roster());
    assert_eq!(m.prompt, "Emergency Meeting!");
    let dead: Vec<bool> = m.options.iter().map(|o| o.dead).collect();
    assert_eq!(dead, vec![false, false, false, true]);
    assert!(m.votes.is_empty());
    assert!(!m.local_voted);
}

#[test]
fn strict_plurality_is_ejected() {
    let mut m = MeetingState::new();
    m.begin_meeting("Vote".to_string(), &roster());
    assert!(m.cast_vote(GamePhase::Voting, 1, Some(2), Some(1)));
    assert!(m.local_voted);
    assert!(m.cast_vote(GamePhase::Voting, 3, Some(2), Some(1)));
    assert!(m.cast_vote(GamePhase::Voting, 2, Some(1), Some(1)));
    let mut phase = GamePhase::Voting;
    m.resolve_votes(&mut phase);
    assert_eq!(phase, GamePhase::Results);
    assert_eq!(m.pending_eject, Some(2));
    assert_eq!(m.result_text, "Blue was ejected.");
}

#[test]
fn ties_and_skips_eject_nobody() {
    let mut m = MeetingState::new();
    m.begin_meeting("Vote".to_string(), &roster());
    assert!(m.cast_vote(GamePhase::Voting, 1, Some(2), None));
    assert!(m.cast_vote(GamePhase::Voting, 2, Some(1), None));
    let mut phase = GamePhase::Voting;
    m.resolve_votes(&mut phase);
    assert_eq!(m.pending_eject, None);
    assert_eq!(m.result_text, "No one was ejected. (Skip / Tie)");

    let mut s = MeetingState::new();
    s.begin_meeting("Vote".to_string(), &roster());
    assert!(s.cast_vote(GamePhase::Voting, 1, None, None));
    assert!(s.cast_vote(GamePhase::Voting, 2, None, None));
    assert!(s.cast_vote(GamePhase::Voting, 3, Some(2), None));
    let mut phase = GamePhase::Voting;
    s.resolve_votes(&mut phase);
    assert_eq!(s.pending_eject, None);
}

#[test]
fn invalid_votes_are_refused() {
    let mut m = MeetingState::new();
    m.begin_meeting("Vote".to_string(), &roster());
    assert!(!m.cast_vote(GamePhase::Meeting, 1, Some(2), None));
    assert!(!m.cast_vote(GamePhase::Voting, 4, Some(2), None));
    assert!(!m.cast_vote(GamePhase::Voting, 1, Some(4), None));
    assert!(!m.cast_vote(GamePhase::Voting, 9, None, None));
    assert!(m.cast_vote(GamePhase::Voting, 1, None, None));
    assert!(!m.cast_vote(GamePhase::Voting, 1, Some(2), None));
    assert_eq!(m.votes.len(), 1);
}

#[test]
fn everyone_voted_only_counts_the_living() {
    let mut m = MeetingState::new();
    m.begin_meeting("Vote".to_string(), &roster());
    assert!(!m.all_voted());
    for id in [1, 2, 3] {
        assert!(m.cast_vote(GamePhase::Voting, id, None, None));
    }
    assert!(m.all_voted());
    assert!(m.voted(3));
    assert!(!m.voted(4));
    assert!(m.is_living_option(1));
    assert!(!m.is_living_option(4));
}

#[test]
fn bots_fill_in_votes_except_the_local_player() {
    let mut m = MeetingState::new();
    let r = roster();
    m.begin_meeting("Vote".to_string(), &r);
    ensure_bot_votes(GamePhase::Voting, &mut m, &r, Some(1));
    assert!(!m.voted(1));
    assert!(m.voted(2));
    assert!(m.voted(3));
    assert!(!m.voted(4));
    let before = m.votes.clone();
    ensure_bot_votes(GamePhase::Meeting, &mut m, &r, Some(1));
    assert_eq!(m.votes, before);
}

#[test]
fn only_bots_vote_by_themselves() {
    let mut m = MeetingState::new();
    let mut r = roster();
    r.push(player(5, "Remote", Role::Crewmate, true, false));
    m.begin_meeting("Vote".to_string(), &r);
    ensure_bot_votes(GamePhase::Voting, &mut m, &r, Some(1));
    assert!(m.voted(2) && m.voted(3));
    assert!(!m.voted(5));
    assert!(!m.all_voted());
}

#[test]
fn a_vote_command_fills_in_the_bots() {
    let mut m = MeetingState::new();
    let r = roster();
    m.begin_meeting("Vote".to_string(), &r);
    assert!(m.handle_vote(GamePhase::Voting, 1, Some(2), Some(1), &r));
    assert!(m.all_voted());
    assert_eq!(m.votes[0], (1, Some(2)));
    assert!(m.local_voted);
}

#[test]
fn emergency_needs_play_button_and_a_meeting_left() {
    let r = roster();
    let mut m = MeetingState::new();
    let mut phase = GamePhase::Playing;
    let mut left = 1u8;
    assert!(!m.handle_emergency(&mut phase, false, 1, &mut left, false, &r));
    assert!(!m.handle_emergency(&mut phase, true, 1, &mut left, true, &r));
    assert!(!m.handle_emergency(&mut phase, false, 4, &mut left, true, &r));
    assert!(!m.handle_emergency(&mut phase, false, 9, &mut left, true, &r));
    assert_eq!(left, 1);
    assert!(m.handle_emergency(&mut phase, false, 1, &mut left, true, &r));
    assert_eq!(phase, GamePhase::Meeting);
    assert_eq!(left, 0);
    assert_eq!(m.prompt, "Emergency Meeting!");
    let mut phase = GamePhase::Playing;
    assert!(!m.handle_emergency(&mut phase, false, 1, &mut left, true, &r));
}

#[test]
fn clearing_for_play_empties_the_ballot() {
    let mut m = MeetingState::new();
    m.begin_meeting("x".to_string(), &roster());
    m.clear_for_play();
    assert!(m.prompt.is_empty() && m.options.is_empty() && m.votes.is_empty());
    assert_eq!(m.pending_eject, None);
}
