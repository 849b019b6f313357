use std::collections::VecDeque;
use vstd::prelude::*;

verus! {

/// Wire protocol version checked in the client hello.
pub const PROTOCOL_VERSION: u32 = 4;
/// Netcode protocol id shared by host and clients.
pub const PROTOCOL_ID: u64 = 0x4F50_454E_5355_5301;
/// Revision of the map layout that both ends must agree on.
pub const MAP_REVISION: u32 = 2;
/// Revision of the gameplay rules that both ends must agree on.
pub const GAMEPLAY_PROTOCOL_VERSION: u32 = 2;

/// Up to one second of 64 Hz commands per input packet.
pub const INPUT_BATCH_SIZE: usize = 64;
/// Client-side bound on unacknowledged commands.
pub const MAX_CLIENT_PENDING_INPUTS: usize = 256;
/// Server-side bound on commands queued per client.
pub const MAX_SERVER_PENDING_INPUTS: usize = 128;
/// Largest client packet the host decodes.
pub const MAX_CLIENT_PACKET_BYTES: usize = 4096;
/// Largest snapshot packet a client decodes.
pub const MAX_SNAPSHOT_BYTES: usize = 65536;
/// Reliable packets the host reads per client and frame.
pub const MAX_RELIABLE_PACKETS_PER_FRAME: u32 = 32;
/// Input packets the host reads per client and frame.
pub const MAX_INPUT_PACKETS_PER_FRAME: usize = 64;

/// Distance from `previous` forward to `sequence`, modulo 2^32.
pub open spec fn sequence_distance(sequence: u32, previous: u32) -> int {
    if sequence >= previous {
        sequence - previous
    } else {
        sequence - previous + 0x1_0000_0000
    }
}

/// `sequence` lies strictly ahead of `previous`, less than half the
/// sequence space away (so the counter may wrap around).
pub open spec fn spec_sequence_is_newer(sequence: u32, previous: u32) -> bool {
    sequence != previous && sequence_distance(sequence, previous) < 0x7FFF_FFFF
}

/// Wrapping sequence comparison used to drop stale or duplicated packets.
pub fn sequence_is_newer(sequence: u32, previous: u32) -> (r: bool)
    ensures
        r == spec_sequence_is_newer(sequence, previous),
{
    sequence != previous && sequence.wrapping_sub(previous) < (u32::MAX / 2)
}

/// One fixed-step input command. Each movement axis is carried as the raw
/// IEEE-754 bits of an `f32`, which the rules only inspect for finiteness.
#[derive(Clone, Copy, PartialEq, Eq, Debug)]
pub struct NetInputCommand {
    pub sequence: u32,
    pub movement: [u32; 2],
    pub interact: bool,
}

/// An `f32` with these bits is finite: its exponent field is not all ones.
pub open spec fn bits_are_finite(bits: u32) -> bool {
    (bits >> 23u32) & 0xFFu32 != 0xFFu32
}

/// Finiteness of an `f32` given by its bits.
pub fn f32_bits_finite(bits: u32) -> (r: bool)
    ensures
        r == bits_are_finite(bits),
{
    (bits >> 23u32) & 0xFFu32 != 0xFFu32
}

impl NetInputCommand {
    pub open spec fn spec_finite(&self) -> bool {
        bits_are_finite(self.movement[0]) && bits_are_finite(self.movement[1])
    }

    /// Both movement axes are finite numbers.
    pub fn movement_is_finite(&self) -> (r: bool)
        ensures
            r == self.spec_finite(),
    {
        f32_bits_finite(self.movement[0]) && f32_bits_finite(self.movement[1])
    }
}

/// The commands of `s` newer than `ack`, in order.
pub open spec fn keep_newer(s: Seq<NetInputCommand>, ack: u32) -> Seq<NetInputCommand>
    decreases s.len(),
{
    if s.len() == 0 {
        s
    } else if spec_sequence_is_newer(s.last().sequence, ack) {
        keep_newer(s.drop_last(), ack).push(s.last())
    } else {
        keep_newer(s.drop_last(), ack)
    }
}

/// The last `cap` elements of `s` (all of it when it is shorter).
pub open spec fn keep_last<T>(s: Seq<T>, cap: nat) -> Seq<T> {
    if s.len() > cap {
        s.subrange(s.len() - cap, s.len() as int)
    } else {
        s
    }
}

/// Client-side commands that the server has not acknowledged yet.
pub struct ClientPredictionState {
    pub pending: VecDeque<NetInputCommand>,
}

impl ClientPredictionState {
    pub fn new() -> (r: Self)
        ensures
            r.pending@.len() == 0,
    {
        ClientPredictionState { pending: VecDeque::new() }
    }

    /// Remembers a sent command, dropping the oldest beyond the bound.
    pub fn push(&mut self, command: NetInputCommand)
        ensures
            final(self).pending@ == keep_last(old(self).pending@.push(command), MAX_CLIENT_PENDING_INPUTS as nat),
    {
        self.pending.push_back(command);
        let ghost all = old(self).pending@.push(command);
        while self.pending.len() > MAX_CLIENT_PENDING_INPUTS
            invariant
                all.len() >= self.pending@.len(),
                self.pending@ == all.subrange(all.len() - self.pending@.len(), all.len() as int),
                self.pending@.len() >= MAX_CLIENT_PENDING_INPUTS || self.pending@ == all,
            decreases self.pending@.len(),
        {
            let ghost before = self.pending@;
            self.pending.pop_front();
            proof {
                assert(self.pending@ =~= all.subrange(all.len() - self.pending@.len(), all.len() as int));
            }
        }
        proof {
            if all.len() > MAX_CLIENT_PENDING_INPUTS {
                assert(self.pending@.len() == MAX_CLIENT_PENDING_INPUTS);
            } else {
                assert(self.pending@.len() <= MAX_CLIENT_PENDING_INPUTS);
                if self.pending@ != all {
                    assert(self.pending@.len() == all.len());
                    assert(self.pending@ =~= all);
                }
            }
        }
    }

    /// Forgets every command the server has processed (everything not newer
    /// than `acknowledged`). `None` acknowledges nothing.
    pub fn acknowledge(&mut self, acknowledged: Option<u32>)
        ensures
            acknowledged is None ==> final(self).pending@ == old(self).pending@,
            acknowledged matches Some(a) ==> final(self).pending@ == keep_newer(old(self).pending@, a),
    {
        let ack = match acknowledged {
            Some(a) => a,
            None => return,
        };
        let mut kept: VecDeque<NetInputCommand> = VecDeque::new();
        let mut i: usize = 0;
        while i < self.pending.len()
            invariant
                i <= self.pending@.len(),
                self.pending@ == old(self).pending@,
                kept@ == keep_newer(self.pending@.take(i as int), ack),
            decreases self.pending@.len() - i,
        {
            proof {
                assert(self.pending@.take(i as int + 1).drop_last() =~= self.pending@.take(i as int));
            }
            let command = self.pending[i];
            if sequence_is_newer(command.sequence, ack) {
                kept.push_back(command);
            }
            i = i + 1;
        }
        proof {
            assert(self.pending@.take(self.pending@.len() as int) =~= self.pending@);
        }
        self.pending = kept;
    }

    /// The oldest unacknowledged commands first, at most one batch.
    pub fn send_batch(&self) -> (batch: Vec<NetInputCommand>)
        ensures
            batch@ == self.pending@.take(if self.pending@.len() < INPUT_BATCH_SIZE { self.pending@.len() as int } else { INPUT_BATCH_SIZE as int }),
    {
        let mut batch: Vec<NetInputCommand> = Vec::new();
        let mut i: usize = 0;
        while i < self.pending.len() && i < INPUT_BATCH_SIZE
            invariant
                i <= self.pending@.len(),
                i <= INPUT_BATCH_SIZE,
                batch@ == self.pending@.take(i as int),
            decreases self.pending@.len() - i,
        {
            batch.push(self.pending[i]);
            proof {
                assert(batch@ =~= self.pending@.take(i as int + 1));
            }
            i = i + 1;
        }
        batch
    }

    /// Drops every pending command.
    pub fn clear(&mut self)
        ensures
            final(self).pending@.len() == 0,
    {
        self.pending = VecDeque::new();
    }
}

impl Default for ClientPredictionState {
    fn default() -> (r: Self)
        ensures
            r.pending@.len() == 0,
    {
        ClientPredictionState::new()
    }
}

/// Host-side queue of one client's accepted but not yet simulated commands.
pub struct ClientInputQueue {
    pub pending: VecDeque<NetInputCommand>,
    /// Highest sequence accepted into the queue.
    pub last_enqueued: Option<u32>,
    /// Highest sequence actually simulated.
    pub last_processed: Option<u32>,
}

/// The state after offering one command to the queue.
pub open spec fn offer_command(pending: Seq<NetInputCommand>, last: Option<u32>, command: NetInputCommand) -> (Seq<NetInputCommand>, Option<u32>) {
    if !command.spec_finite() {
        (pending, last)
    } else if last matches Some(p) && !spec_sequence_is_newer(command.sequence, p) {
        (pending, last)
    } else {
        (pending.push(command), Some(command.sequence))
    }
}

/// Offers the commands one by one; stops at the first one that finds the
/// queue full.
pub open spec fn offer_commands(pending: Seq<NetInputCommand>, last: Option<u32>, commands: Seq<NetInputCommand>) -> (Seq<NetInputCommand>, Option<u32>)
    decreases commands.len(),
{
    if commands.len() == 0 {
        (pending, last)
    } else {
        let head = commands[0];
        let skipped = !head.spec_finite() || (last matches Some(p) && !spec_sequence_is_newer(head.sequence, p));
        if skipped {
            offer_commands(pending, last, commands.drop_first())
        } else if pending.len() >= MAX_SERVER_PENDING_INPUTS {
            (pending, last)
        } else {
            let next = offer_command(pending, last, head);
            offer_commands(next.0, next.1, commands.drop_first())
        }
    }
}

impl ClientInputQueue {
    pub fn new() -> (r: Self)
        ensures
            r.pending@.len() == 0,
            r.last_enqueued is None,
            r.last_processed is None,
    {
        ClientInputQueue { pending: VecDeque::new(), last_enqueued: None, last_processed: None }
    }

    /// Accepts one input packet's commands: the whole batch is refused from
    /// an unauthenticated client or when it is larger than one batch;
    /// otherwise non-finite and stale commands are skipped and the rest
    /// queued in order until the queue is full.
    pub fn enqueue_batch(&mut self, authenticated: bool, commands: &[NetInputCommand]) -> (accepted_batch: bool)
        ensures
            accepted_batch == (authenticated && commands@.len() <= INPUT_BATCH_SIZE),
            !accepted_batch ==> final(self).pending@ == old(self).pending@ && final(self).last_enqueued == old(self).last_enqueued,
            accepted_batch ==> (final(self).pending@, final(self).last_enqueued) == offer_commands(old(self).pending@, old(self).last_enqueued, commands@),
            final(self).last_processed == old(self).last_processed,
    {
        if !authenticated || commands.len() > INPUT_BATCH_SIZE {
            return false;
        }
        let mut i: usize = 0;
        proof {
            assert(commands@.skip(0) =~= commands@);
        }
        while i < commands.len()
            invariant
                i <= commands@.len(),
                authenticated,
                commands@.len() <= INPUT_BATCH_SIZE,
                self.last_processed == old(self).last_processed,
                offer_commands(self.pending@, self.last_enqueued, commands@.skip(i as int))
                    == offer_commands(old(self).pending@, old(self).last_enqueued, commands@),
            decreases commands@.len() - i,
        {
            let command = commands[i];
            proof {
                assert(commands@.skip(i as int)[0] == command);
                assert(commands@.skip(i as int).drop_first() =~= commands@.skip(i as int + 1));
            }
            if !command.movement_is_finite() {
                i = i + 1;
                continue;
            }
            let stale = match self.last_enqueued {
                Some(p) => !sequence_is_newer(command.sequence, p),
                None => false,
            };
            if stale {
                i = i + 1;
                continue;
            }
            if self.pending.len() >= MAX_SERVER_PENDING_INPUTS {
                return true;
            }
            self.pending.push_back(command);
            self.last_enqueued = Some(command.sequence);
            i = i + 1;
        }
        proof {
            assert(commands@.skip(i as int).len() == 0);
        }
        true
    }

    /// The command to simulate this fixed step: the oldest one during open
    /// play; outside play the newest one, discarding the rest.
    pub fn next_command(&mut self, playing: bool) -> (r: Option<NetInputCommand>)
        ensures
            old(self).pending@.len() == 0 ==> r is None && final(self).pending@ == old(self).pending@,
            old(self).pending@.len() > 0 && playing ==> r == Some(old(self).pending@[0])
                && final(self).pending@ == old(self).pending@.drop_first(),
            old(self).pending@.len() > 0 && !playing ==> r == Some(old(self).pending@.last())
                && final(self).pending@.len() == 0,
            final(self).last_enqueued == old(self).last_enqueued,
            final(self).last_processed == old(self).last_processed,
    {
        if playing {
            let r = self.pending.pop_front();
            proof {
                if old(self).pending@.len() > 0 {
                    assert(self.pending@ =~= old(self).pending@.drop_first());
                }
            }
            r
        } else {
            let newest = self.pending.pop_back();
            self.pending = VecDeque::new();
            newest
        }
    }

    /// Records that the command with this sequence was simulated.
    pub fn mark_processed(&mut self, sequence: u32)
        ensures
            final(self).last_processed == Some(sequence),
            final(self).pending@ == old(self).pending@,
            final(self).last_enqueued == old(self).last_enqueued,
    {
        self.last_processed = Some(sequence);
    }
}

/// The last world snapshot a client applied.
#[derive(Clone, Copy, PartialEq, Eq, Structural, Debug, Default)]
pub struct ClientSnapshotSequence {
    pub last_applied: Option<u32>,
}

impl ClientSnapshotSequence {
    /// Accepts a snapshot unless it is not newer than the last applied one;
    /// an accepted snapshot becomes the last applied.
    pub fn accept(&mut self, sequence: u32) -> (accepted: bool)
        ensures
            accepted == (old(self).last_applied matches Some(p) ==> spec_sequence_is_newer(sequence, p)),
            accepted ==> final(self).last_applied == Some(sequence),
            !accepted ==> *final(self) == *old(self),
    {
        if let Some(prev) = self.last_applied {
            if !sequence_is_newer(sequence, prev) {
                return false;
            }
        }
        self.last_applied = Some(sequence);
        true
    }
}

/// The host's world snapshot counter.
#[derive(Clone, Copy, PartialEq, Eq, Structural, Debug, Default)]
pub struct ServerSnapshotSequence(pub u32);

impl ServerSnapshotSequence {
    /// Advances (wrapping) and returns the sequence of the next snapshot.
    pub fn advance(&mut self) -> (r: u32)
        ensures
            r == final(self).0,
            final(self).0 == if old(self).0 == u32::MAX { 0 } else { (old(self).0 + 1) as u32 },
    {
        self.0 = self.0.wrapping_add(1);
        self.0
    }
}

/// Per-connection identity and input counter on a client.
#[derive(Clone, Copy, PartialEq, Eq, Structural, Debug, Default)]
pub struct NetworkIdentity {
    pub my_player_id: Option<u64>,
    pub hello_sent: bool,
    pub input_sequence: u32,
}

impl NetworkIdentity {
    /// Advances (wrapping) and returns the sequence of the next input command.
    pub fn next_input_sequence(&mut self) -> (r: u32)
        ensures
            r == final(self).input_sequence,
            final(self).input_sequence == if old(self).input_sequence == u32::MAX { 0 } else { (old(self).input_sequence + 1) as u32 },
            final(self).my_player_id == old(self).my_player_id,
            final(self).hello_sent == old(self).hello_sent,
    {
        self.input_sequence = self.input_sequence.wrapping_add(1);
        self.input_sequence
    }
}

/// Whether the host decodes another reliable packet from a client this
/// frame: at most the per-frame cap, and none larger than the byte limit.
/// Returns `None` to stop reading this client, `Some(false)` to skip it.
pub fn reliable_packet_gate(processed_before: u32, byte_len: usize) -> (r: Option<bool>)
    ensures
        processed_before + 1 > MAX_RELIABLE_PACKETS_PER_FRAME ==> r is None,
        processed_before + 1 <= MAX_RELIABLE_PACKETS_PER_FRAME ==> r == Some(byte_len <= MAX_CLIENT_PACKET_BYTES),
{
    if processed_before >= MAX_RELIABLE_PACKETS_PER_FRAME {
        return None;
    }
    Some(byte_len <= MAX_CLIENT_PACKET_BYTES)
}

/// Whether the host keeps reading a client's input channel this frame.
pub fn input_packet_gate(processed_including_this: usize, byte_len: usize) -> (r: bool)
    ensures
        r == (processed_including_this <= MAX_INPUT_PACKETS_PER_FRAME && byte_len <= MAX_CLIENT_PACKET_BYTES),
{
    processed_including_this <= MAX_INPUT_PACKETS_PER_FRAME && byte_len <= MAX_CLIENT_PACKET_BYTES
}

/// Whether a client decodes a snapshot packet of this size.
pub fn snapshot_packet_gate(byte_len: usize) -> (r: bool)
    ensures
        r == (byte_len <= MAX_SNAPSHOT_BYTES),
{
    byte_len <= MAX_SNAPSHOT_BYTES
}

} // verus!
