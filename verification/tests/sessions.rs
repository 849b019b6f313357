use opensus::chat::{ChatEntry, ChatState};
use opensus::client_sync::{
    ClientEvent, ClientSession, ClientWorld, PrivateCore, ServerReliable, SnapshotCore, chat_message,
    hello_message, meeting_message, ready_message, reconcile_ids,
};
use opensus::hosting::{
    BodyIds, BucketKind, ClientMessage, HostEffect, HostSession, PrivateSelection, extra_bucket, reset_network_match_state,
    tick_snapshots,
};
use opensus::lobby::{LobbyState, NetLobbyPlayer};
use opensus::meeting::{MeetingCommand, MeetingState, VoteOption};
use opensus::net::{
    ClientPredictionState, ClientSnapshotSequence, NetInputCommand, NetworkIdentity, PROTOCOL_VERSION, ServerSnapshotSequence,
};
use opensus::players::PlayerSummary;
use opensus::roles::{GamePhase, Role, RuntimeMode};
use opensus::rules::{MatchConfig, TaskBoard};
use opensus::sabotage::{ActiveSabotage, SabotageKind};
use opensus::save::SaveData;

fn host_lobby() -> LobbyState {
    let mut lobby = LobbyState::new();
    lobby.setup(&SaveData::new_default(), RuntimeMode::Host, &MatchConfig::default());
    lobby
}

fn hello(version: u32) -> ClientMessage {
    ClientMessage::Hello { protocol_version: version, name: "Alice".to_string(), color_index: 2 }
}

#[test]
fn late_joins_and_full_lobbies_are_refused() {
    let mut host = HostSession::new();
    let cfg = MatchConfig::default();
    assert!(!host.on_connect(5, false, 1, &cfg, 1000));
    assert!(!host.on_connect(5, true, 10, &cfg, 1000));
    assert!(host.clients.is_empty());
    assert!(host.on_connect(5, true, 1, &cfg, 1000));
    assert_eq!(host.clients[0].handshake_deadline_ms, Some(6000));
    assert_eq!(host.player_for(5), Some(5));
    assert!(!host.is_authenticated(5));
}

#[test]
fn silent_clients_time_out() {
    let mut host = HostSession::new();
    let cfg = MatchConfig::default();
    host.on_connect(5, true, 1, &cfg, 0);
    host.on_connect(6, true, 1, &cfg, 2000);
    assert!(host.expire_handshakes(5000).is_empty());
    assert_eq!(host.expire_handshakes(5001), vec![5]);
    assert_eq!(host.expire_handshakes(9000), vec![6]);
    assert!(host.expire_handshakes(9000).is_empty());
}

#[test]
fn hello_authenticates_and_seats_the_client() {
    let mut host = HostSession::new();
    let cfg = MatchConfig::default();
    let mut lobby = host_lobby();
    host.on_connect(5, true, lobby.slots.len(), &cfg, 0);
    let roster: Vec<PlayerSummary> = Vec::new();
    assert_eq!(host.handle_reliable(5, ClientMessage::Kill, GamePhase::Playing, &mut lobby, &cfg, &roster), HostEffect::Ignore);
    assert!(!host.reads_message(5, &ClientMessage::Kill));
    assert!(host.reads_message(5, &hello(PROTOCOL_VERSION)));
    assert_eq!(
        host.handle_reliable(5, hello(1), GamePhase::Idle, &mut lobby, &cfg, &roster),
        HostEffect::Reject { reason: "protocol mismatch".to_string() }
    );
    assert!(!host.is_authenticated(5));
    assert_eq!(host.handle_reliable(5, hello(PROTOCOL_VERSION), GamePhase::Idle, &mut lobby, &cfg, &roster), HostEffect::Welcome { player_id: 5 });
    assert!(host.is_authenticated(5));
    assert_eq!(host.clients[0].handshake_deadline_ms, None);
    assert_eq!(lobby.slots.len(), 2);
    assert_eq!(lobby.slots[1].name, "Alice");
    assert_eq!(host.expire_handshakes(u64::MAX), Vec::<u64>::new());
    assert_eq!(host.handle_reliable(5, ClientMessage::Ready { ready: true }, GamePhase::Idle, &mut lobby, &cfg, &roster), HostEffect::Ignore);
    assert!(lobby.slots[1].ready);
    assert_eq!(host.handle_reliable(99, hello(PROTOCOL_VERSION), GamePhase::Idle, &mut lobby, &cfg, &roster), HostEffect::Ignore);
}

#[test]
fn hello_into_a_full_lobby_disconnects() {
    let mut host = HostSession::new();
    let cfg = MatchConfig { max_players: 1, ..MatchConfig::default() };
    let mut lobby = host_lobby();
    host.on_connect(5, true, 0, &cfg, 0);
    assert_eq!(host.handle_reliable(5, hello(PROTOCOL_VERSION), GamePhase::Idle, &mut lobby, &cfg, &[]), HostEffect::Disconnect);
    assert_eq!(lobby.slots.len(), 1);
}

#[test]
fn authenticated_actions_become_requests() {
    let mut host = HostSession::new();
    let cfg = MatchConfig::default();
    let mut lobby = host_lobby();
    host.on_connect(5, true, 1, &cfg, 0);
    host.handle_reliable(5, hello(PROTOCOL_VERSION), GamePhase::Idle, &mut lobby, &cfg, &[]);
    let r: Vec<PlayerSummary> = Vec::new();
    assert_eq!(host.handle_reliable(5, ClientMessage::Kill, GamePhase::Playing, &mut lobby, &cfg, &r), HostEffect::Kill { actor_id: 5 });
    assert_eq!(host.handle_reliable(5, ClientMessage::Report, GamePhase::Playing, &mut lobby, &cfg, &r), HostEffect::Report { reporter_id: 5 });
    assert_eq!(
        host.handle_reliable(5, ClientMessage::Vote { target: None }, GamePhase::Voting, &mut lobby, &cfg, &r),
        HostEffect::Meeting { command: MeetingCommand::Skip { voter_id: 5 } }
    );
    assert_eq!(
        host.handle_reliable(5, ClientMessage::Vote { target: Some(2) }, GamePhase::Voting, &mut lobby, &cfg, &r),
        HostEffect::Meeting { command: MeetingCommand::Vote { voter_id: 5, target: 2 } }
    );
    assert_eq!(
        host.handle_reliable(5, ClientMessage::Emergency, GamePhase::Playing, &mut lobby, &cfg, &r),
        HostEffect::Meeting { command: MeetingCommand::Emergency { actor_id: 5 } }
    );
    assert_eq!(
        host.handle_reliable(5, ClientMessage::Sabotage { kind: SabotageKind::Lights }, GamePhase::Playing, &mut lobby, &cfg, &r),
        HostEffect::Sabotage { actor_id: 5, kind: SabotageKind::Lights }
    );
    let input = ClientMessage::Input { commands: vec![NetInputCommand { sequence: 1, movement: [0, 0], interact: false }] };
    assert_eq!(host.handle_reliable(5, input, GamePhase::Playing, &mut lobby, &cfg, &r), HostEffect::Ignore);
    assert_eq!(extra_bucket(&ClientMessage::Kill), Some(BucketKind::Action));
    assert_eq!(extra_bucket(&ClientMessage::Chat { text: String::new() }), Some(BucketKind::Chat));
    assert_eq!(extra_bucket(&hello(PROTOCOL_VERSION)), None);
}

#[test]
fn host_chat_is_filtered_for_ghosts() {
    let mut host = HostSession::new();
    let cfg = MatchConfig::default();
    let mut lobby = host_lobby();
    for id in [5, 6, 7] {
        host.on_connect(id, true, 1, &cfg, 0);
        host.handle_reliable(id, hello(PROTOCOL_VERSION), GamePhase::Idle, &mut lobby, &cfg, &[]);
    }
    let roster = vec![
        PlayerSummary { id: 5, name: "Five".to_string(), role: Role::Crewmate, alive: false, is_bot: false },
        PlayerSummary { id: 6, name: "Six".to_string(), role: Role::Crewmate, alive: true, is_bot: false },
        PlayerSummary { id: 7, name: "Seven".to_string(), role: Role::Impostor, alive: false, is_bot: false },
    ];
    let effect = host.handle_reliable(5, ClientMessage::Chat { text: " hi ".to_string() }, GamePhase::Meeting, &mut lobby, &cfg, &roster);
    assert_eq!(effect, HostEffect::Chat { entry: ChatEntry { player_id: 5, name: "Five".to_string(), text: "hi".to_string(), is_ghost: true } });
    assert_eq!(host.chat_recipients(&[5, 6, 7, 8], true, &roster), vec![5, 7]);
    assert_eq!(host.chat_recipients(&[5, 6, 7, 8], false, &roster), vec![5, 6, 7]);
    assert_eq!(
        host.handle_reliable(6, ClientMessage::Chat { text: "x".to_string() }, GamePhase::Playing, &mut lobby, &cfg, &roster),
        HostEffect::Ignore
    );
}

#[test]
fn disconnect_frees_the_seat() {
    let mut host = HostSession::new();
    let cfg = MatchConfig::default();
    let mut lobby = host_lobby();
    host.on_connect(5, true, 1, &cfg, 0);
    host.handle_reliable(5, hello(PROTOCOL_VERSION), GamePhase::Idle, &mut lobby, &cfg, &[]);
    assert_eq!(lobby.slots.len(), 2);
    assert_eq!(host.on_disconnect(5, &mut lobby), Some(5));
    assert_eq!(lobby.slots.len(), 1);
    assert!(host.clients.is_empty());
    assert_eq!(host.on_disconnect(5, &mut lobby), None);
}

#[test]
fn inputs_are_acknowledged_and_reset_between_matches() {
    let mut host = HostSession::new();
    let cfg = MatchConfig::default();
    host.on_connect(5, true, 1, &cfg, 0);
    host.clients[0].inputs.mark_processed(42);
    assert_eq!(host.acknowledged_input(5), Some(42));
    assert_eq!(host.acknowledged_input(6), None);
    let mut identity = NetworkIdentity { my_player_id: Some(5), hello_sent: true, input_sequence: 9 };
    let mut snaps = ClientSnapshotSequence { last_applied: Some(3) };
    let mut prediction = ClientPredictionState::new();
    prediction.push(NetInputCommand { sequence: 1, movement: [0, 0], interact: false });
    reset_network_match_state(&mut identity, &mut snaps, &mut prediction, &mut host);
    assert_eq!(identity, NetworkIdentity { my_player_id: Some(5), hello_sent: true, input_sequence: 0 });
    assert_eq!(snaps.last_applied, None);
    assert!(prediction.pending.is_empty());
    assert_eq!(host.acknowledged_input(5), None);
    assert_eq!(host.clients.len(), 1);
}

#[test]
fn body_ids_are_stable() {
    let mut ids = BodyIds::new();
    assert_eq!(ids.id_for(100), 1);
    assert_eq!(ids.id_for(200), 2);
    assert_eq!(ids.id_for(100), 1);
    assert_eq!(ids.next_id, 2);
}

#[test]
fn client_follows_reliable_messages() {
    let mut session = ClientSession::new();
    let save = SaveData::new_default();
    assert_eq!(session.hello_to_send(false, &save), None);
    let hello = session.hello_to_send(true, &save).unwrap();
    assert_eq!(hello, ClientMessage::Hello { protocol_version: PROTOCOL_VERSION, name: "Agent".to_string(), color_index: 0 });
    assert_eq!(session.hello_to_send(true, &save), None);
    assert_eq!(session.apply_reliable(ServerReliable::Welcome { player_id: 7 }), ClientEvent::Nothing);
    assert_eq!(session.identity.my_player_id, Some(7));
    session.apply_reliable(ServerReliable::LobbySnapshot {
        players: vec![NetLobbyPlayer { player_id: 7, name: "Me".to_string(), color_index: 1, ready: true, is_host: false }],
    });
    assert!(session.lobby.slots[0].is_local && session.lobby.slots[0].ready);
    assert!(!session.lobby.local_ready);
    assert_eq!(session.apply_reliable(ServerReliable::MatchStarted { your_role: Role::Impostor }), ClientEvent::EnterGame);
    assert_eq!(session.local_role, Some(Role::Impostor));
    session.apply_reliable(ServerReliable::Chat { player_id: 1, name: "A".to_string(), text: "hi".to_string(), is_ghost: false });
    assert_eq!(session.chat.entries.len(), 1);
    assert_eq!(
        session.apply_reliable(ServerReliable::Rejected { reason: "protocol mismatch".to_string() }),
        ClientEvent::Rejected { reason: "protocol mismatch".to_string() }
    );
    assert_eq!(session.apply_reliable(ServerReliable::WorldSnapshot), ClientEvent::Nothing);
    let _ = ChatState::new();
}

fn world() -> ClientWorld {
    ClientWorld {
        phase: GamePhase::Idle,
        sabotage: ActiveSabotage::new(),
        tasks: TaskBoard::default(),
        meeting: MeetingState::new(),
        emergencies_left: None,
    }
}

fn snapshot(sequence: u32, private: Option<PrivateCore>) -> SnapshotCore {
    SnapshotCore {
        sequence,
        phase: GamePhase::Voting,
        sabotage: Some((SabotageKind::Oxygen, 2, 1)),
        tasks_completed: 3,
        tasks_total: 8,
        meeting_prompt: "Vote".to_string(),
        vote_options: vec![VoteOption { player_id: 1, name: "A".to_string(), dead: false }],
        result_text: String::new(),
        private,
    }
}

#[test]
fn client_applies_newer_snapshots_only() {
    let mut session = ClientSession::new();
    let mut w = world();
    let private = PrivateCore { emergencies_left: 1, role: Role::Crewmate, voted: true };
    assert!(session.apply_snapshot(&mut w, snapshot(5, Some(private))));
    assert_eq!(w.phase, GamePhase::Voting);
    assert_eq!(w.sabotage, ActiveSabotage { kind: Some(SabotageKind::Oxygen), fixes_needed: 2, fixes_done: 1 });
    assert_eq!(w.tasks, TaskBoard { completed: 3, total: 8 });
    assert!(w.meeting.local_voted);
    assert_eq!(w.emergencies_left, Some(1));
    assert_eq!(session.local_role, Some(Role::Crewmate));
    let mut stale = snapshot(4, None);
    stale.phase = GamePhase::Playing;
    assert!(!session.apply_snapshot(&mut w, stale));
    assert_eq!(w.phase, GamePhase::Voting);
    let mut next = snapshot(6, None);
    next.sabotage = None;
    assert!(session.apply_snapshot(&mut w, next));
    assert_eq!(w.sabotage, ActiveSabotage::new());
}

#[test]
fn replicas_follow_the_snapshot() {
    let (spawn, despawn) = reconcile_ids(&[1, 2, 3], &[2, 4, 3, 5]);
    assert_eq!(spawn, vec![4, 5]);
    assert_eq!(despawn, vec![1]);
    let (spawn, despawn) = reconcile_ids(&[], &[]);
    assert!(spawn.is_empty() && despawn.is_empty());
}

#[test]
fn client_outgoing_messages() {
    let mut save = SaveData::new_default();
    save.player_name = "ABCDEFGHIJKLMNOPQRSTUVWXYZ".to_string();
    save.preferred_color_index = 4;
    assert_eq!(
        hello_message(&save),
        ClientMessage::Hello { protocol_version: PROTOCOL_VERSION, name: "ABCDEFGHIJKLMNOP".to_string(), color_index: 4 }
    );
    assert_eq!(chat_message(&"z".repeat(130)), ClientMessage::Chat { text: "z".repeat(120) });
    assert_eq!(meeting_message(MeetingCommand::Emergency { actor_id: 1 }), ClientMessage::Emergency);
    assert_eq!(meeting_message(MeetingCommand::Vote { voter_id: 1, target: 3 }), ClientMessage::Vote { target: Some(3) });
    assert_eq!(meeting_message(MeetingCommand::Skip { voter_id: 1 }), ClientMessage::Vote { target: None });
    let mut previous = None;
    assert_eq!(ready_message(&mut previous, false), Some(ClientMessage::Ready { ready: false }));
    assert_eq!(ready_message(&mut previous, false), None);
    assert_eq!(ready_message(&mut previous, true), Some(ClientMessage::Ready { ready: true }));
}

#[test]
fn match_start_tells_each_client_its_role() {
    let mut host = HostSession::new();
    let cfg = MatchConfig::default();
    host.on_connect(5, true, 1, &cfg, 0);
    host.on_connect(6, true, 1, &cfg, 0);
    host.on_connect(7, true, 1, &cfg, 0);
    let roster = vec![
        PlayerSummary { id: 7, name: "S".to_string(), role: Role::Impostor, alive: true, is_bot: false },
        PlayerSummary { id: 5, name: "F".to_string(), role: Role::Crewmate, alive: true, is_bot: false },
    ];
    assert_eq!(host.match_start_roles(&roster), vec![(5, Role::Crewmate), (7, Role::Impostor)]);
}

#[test]
fn each_client_is_told_only_about_its_own_player() {
    let mut host = HostSession::new();
    let cfg = MatchConfig::default();
    host.on_connect(5, true, 1, &cfg, 0);
    host.on_connect(6, true, 1, &cfg, 0);
    let roster = vec![
        PlayerSummary { id: 5, name: "A".to_string(), role: Role::Impostor, alive: true, is_bot: false },
        PlayerSummary { id: 6, name: "B".to_string(), role: Role::Crewmate, alive: true, is_bot: false },
    ];
    let mut meeting = MeetingState::new();
    meeting.begin_meeting("x".to_string(), &roster);
    assert!(meeting.cast_vote(GamePhase::Voting, 6, None, None));
    assert_eq!(
        host.private_state(5, &roster, &meeting),
        Some(PrivateSelection { player_index: 0, role: Role::Impostor, voted: false, acknowledged_input_sequence: None })
    );
    assert_eq!(
        host.private_state(6, &roster, &meeting),
        Some(PrivateSelection { player_index: 1, role: Role::Crewmate, voted: true, acknowledged_input_sequence: None })
    );
    assert_eq!(host.private_state(7, &roster, &meeting), None);
    assert_eq!(host.private_state(5, &roster[1..], &meeting), None);
}

#[test]
fn a_lobby_snapshot_keeps_the_local_ready_toggle() {
    let mut session = ClientSession::new();
    session.apply_reliable(ServerReliable::Welcome { player_id: 7 });
    session.lobby.local_ready = true;
    session.apply_reliable(ServerReliable::LobbySnapshot {
        players: vec![NetLobbyPlayer { player_id: 7, name: "Me".to_string(), color_index: 1, ready: false, is_host: false }],
    });
    assert!(session.lobby.local_ready);
    assert!(!session.lobby.slots[0].ready);
    let mut previous = Some(false);
    assert_eq!(ready_message(&mut previous, session.lobby.local_ready), Some(ClientMessage::Ready { ready: true }));
}

#[test]
fn a_snapshot_tick_sends_one_sequence_to_every_client() {
    let mut host = HostSession::new();
    let cfg = MatchConfig::default();
    host.on_connect(5, true, 1, &cfg, 0);
    host.on_connect(6, true, 1, &cfg, 0);
    let roster = vec![PlayerSummary { id: 5, name: "A".to_string(), role: Role::Crewmate, alive: true, is_bot: false }];
    let meeting = MeetingState::new();
    let mut seq = ServerSnapshotSequence(u32::MAX);
    assert!(tick_snapshots(&mut seq, &host, &[], &roster, &meeting).is_empty());
    assert_eq!(seq.0, 0);
    let out = tick_snapshots(&mut seq, &host, &[6, 5], &roster, &meeting);
    assert_eq!(seq.0, 1);
    assert_eq!(
        out,
        vec![
            (6, 1, None),
            (5, 1, Some(PrivateSelection { player_index: 0, role: Role::Crewmate, voted: false, acknowledged_input_sequence: None })),
        ]
    );
}
