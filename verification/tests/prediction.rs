use opensus::net::{
    ClientInputQueue, ClientPredictionState, ClientSnapshotSequence, MAX_CLIENT_PENDING_INPUTS,
    NetInputCommand, NetworkIdentity, ServerSnapshotSequence, input_packet_gate, reliable_packet_gate,
    sequence_is_newer, snapshot_packet_gate,
};

fn input(sequence: u32) -> NetInputCommand {
    NetInputCommand { sequence, movement: [1.0f32.to_bits(), 0.0f32.to_bits()], interact: false }
}

#[test]
fn prediction_ack_removes_processed_commands() {
    let mut prediction = ClientPredictionState::default();
    prediction.push(input(1));
    prediction.push(input(2));
    prediction.push(input(3));
    prediction.acknowledge(Some(2));
    let remaining: Vec<u32> = prediction.pending.iter().map(|command| command.sequence).collect();
    assert_eq!(remaining, vec![3]);
}

#[test]
fn prediction_batch_preserves_oldest_first_order() {
    let mut prediction = ClientPredictionState::default();
    prediction.push(input(10));
    prediction.push(input(11));
    prediction.push(input(12));
    let sequences: Vec<u32> = prediction.send_batch().iter().map(|command| command.sequence).collect();
    assert_eq!(sequences, vec![10, 11, 12]);
}

#[test]
fn prediction_ack_handles_sequence_wraparound() {
    let mut prediction = ClientPredictionState::default();
    prediction.push(input(u32::MAX));
    prediction.push(input(0));
    prediction.push(input(1));
    prediction.acknowledge(Some(u32::MAX));
    let remaining: Vec<u32> = prediction.pending.iter().map(|command| command.sequence).collect();
    assert_eq!(remaining, vec![0, 1]);
}

#[test]
fn sequence_order_is_strict_and_wraps() {
    assert!(!sequence_is_newer(5, 5));
    assert!(sequence_is_newer(6, 5));
    assert!(!sequence_is_newer(5, 6));
    assert!(sequence_is_newer(0, u32::MAX));
    assert!(!sequence_is_newer(u32::MAX, 0));
    assert!(!sequence_is_newer(5 + u32::MAX / 2, 5));
}

#[test]
fn prediction_buffer_keeps_the_newest() {
    let mut prediction = ClientPredictionState::new();
    for s in 0..(MAX_CLIENT_PENDING_INPUTS as u32 + 10) {
        prediction.push(input(s));
    }
    assert_eq!(prediction.pending.len(), MAX_CLIENT_PENDING_INPUTS);
    assert_eq!(prediction.pending.front().unwrap().sequence, 10);
    assert_eq!(prediction.pending.back().unwrap().sequence, MAX_CLIENT_PENDING_INPUTS as u32 + 9);
    assert_eq!(prediction.send_batch().len(), 64);
    prediction.acknowledge(None);
    assert_eq!(prediction.pending.len(), MAX_CLIENT_PENDING_INPUTS);
    prediction.clear();
    assert!(prediction.pending.is_empty());
}

#[test]
fn host_queue_skips_stale_and_non_finite_commands() {
    let mut queue = ClientInputQueue::new();
    let bad = NetInputCommand { sequence: 4, movement: [f32::NAN.to_bits(), 0], interact: false };
    assert!(queue.enqueue_batch(true, &[input(3), input(2), bad, input(5)]));
    let seqs: Vec<u32> = queue.pending.iter().map(|c| c.sequence).collect();
    assert_eq!(seqs, vec![3, 5]);
    assert_eq!(queue.last_enqueued, Some(5));
    assert!(!queue.enqueue_batch(false, &[input(6)]));
    let too_many: Vec<NetInputCommand> = (10..80).map(input).collect();
    assert!(!queue.enqueue_batch(true, &too_many));
    assert_eq!(queue.pending.len(), 2);
}

#[test]
fn host_queue_plays_oldest_in_play_and_newest_outside() {
    let mut queue = ClientInputQueue::new();
    queue.enqueue_batch(true, &[input(1), input(2), input(3)]);
    assert_eq!(queue.next_command(true).map(|c| c.sequence), Some(1));
    assert_eq!(queue.next_command(false).map(|c| c.sequence), Some(3));
    assert!(queue.pending.is_empty());
    assert_eq!(queue.next_command(true), None);
    queue.mark_processed(3);
    assert_eq!(queue.last_processed, Some(3));
}

#[test]
fn snapshots_are_applied_once_and_in_order() {
    let mut seq = ClientSnapshotSequence::default();
    assert!(seq.accept(7));
    assert!(!seq.accept(7));
    assert!(!seq.accept(6));
    assert!(seq.accept(8));
    let mut server = ServerSnapshotSequence(u32::MAX);
    assert_eq!(server.advance(), 0);
    let mut identity = NetworkIdentity::default();
    assert_eq!(identity.next_input_sequence(), 1);
}

#[test]
fn packet_gates() {
    assert_eq!(reliable_packet_gate(0, 100), Some(true));
    assert_eq!(reliable_packet_gate(0, 5000), Some(false));
    assert_eq!(reliable_packet_gate(32, 10), None);
    assert!(input_packet_gate(64, 4096));
    assert!(!input_packet_gate(65, 10));
    assert!(snapshot_packet_gate(65536));
    assert!(!snapshot_packet_gate(65537));
}
