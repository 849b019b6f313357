use vstd::prelude::*;

use crate::chat::{ChatEntry, accept_remote_chat, chat_delivered_to, chat_open_spec, spec_sanitize};
use crate::lobby::{HelloOutcome, LobbyState, has_slot, seated_by_hello, slot_not, slots_with_ready};
use crate::meeting::{MeetingCommand, MeetingState};
use crate::net::{
    ClientInputQueue, ClientPredictionState, ClientSnapshotSequence, NetInputCommand, NetworkIdentity, PROTOCOL_VERSION,
    ServerSnapshotSequence,
};
use crate::players::{PlayerSummary, find_player, player_is};
use crate::roles::GamePhase;
use crate::rules::MatchConfig;
use crate::sabotage::SabotageKind;
use crate::util::{first_where, lemma_first_where};

verus! {

/// How long a connected client has to say hello, in milliseconds.
pub const HANDSHAKE_TIMEOUT_MS: u64 = 5000;

/// A message from a client to the host.
#[derive(Clone, PartialEq, Eq, Debug)]
pub enum ClientMessage {
    Hello { protocol_version: u32, name: String, color_index: u8 },
    Ready { ready: bool },
    Input { commands: Vec<NetInputCommand> },
    Kill,
    Report,
    Emergency,
    Vote { target: Option<u64> },
    Sabotage { kind: SabotageKind },
    Chat { text: String },
}

/// The rate limit a message is charged to, besides the reliable channel's own.
#[derive(Clone, Copy, PartialEq, Eq, Structural, Debug)]
pub enum BucketKind {
    Action,
    Chat,
}

/// What the host does about one reliable message.
#[derive(Clone, PartialEq, Eq, Debug)]
pub enum HostEffect {
    /// Nothing (dropped, or fully handled in the session and lobby).
    Ignore,
    /// Wrong protocol: send the reason, disconnect, stop reading this client.
    Reject { reason: String },
    /// No seat left: disconnect.
    Disconnect,
    /// Authenticated: tell the client its player id.
    Welcome { player_id: u64 },
    Kill { actor_id: u64 },
    Report { reporter_id: u64 },
    Meeting { command: MeetingCommand },
    Sabotage { actor_id: u64, kind: SabotageKind },
    /// A chat line to log and relay.
    Chat { entry: ChatEntry },
}

/// One connected client, as the host tracks it.
pub struct ClientRecord {
    pub client_id: u64,
    pub player_id: u64,
    pub authenticated: bool,
    /// Until when (milliseconds on the host clock) the hello may arrive.
    pub handshake_deadline_ms: Option<u64>,
    pub inputs: ClientInputQueue,
}

/// The host's connected clients, each listed once.
pub struct HostSession {
    pub clients: Vec<ClientRecord>,
}

/// Matches the record of this client.
pub open spec fn record_is(id: u64) -> spec_fn(ClientRecord) -> bool {
    |r: ClientRecord| r.client_id == id
}

/// Every client is listed at most once.
pub open spec fn distinct_clients(clients: Seq<ClientRecord>) -> bool {
    forall|i: int, j: int| 0 <= i < clients.len() && 0 <= j < clients.len() && i != j ==> (#[trigger] clients[i]).client_id != (#[trigger] clients[j]).client_id
}

/// The rate limit charged for a message, besides the reliable channel's.
pub open spec fn spec_extra_bucket(msg: ClientMessage) -> Option<BucketKind> {
    match msg {
        ClientMessage::Kill | ClientMessage::Report | ClientMessage::Emergency | ClientMessage::Vote { .. } | ClientMessage::Sabotage { .. } => Some(BucketKind::Action),
        ClientMessage::Chat { .. } => Some(BucketKind::Chat),
        _ => None,
    }
}

/// The rate limit charged for a message, besides the reliable channel's.
pub fn extra_bucket(msg: &ClientMessage) -> (r: Option<BucketKind>)
    ensures
        r == spec_extra_bucket(*msg),
{
    match msg {
        ClientMessage::Kill | ClientMessage::Report | ClientMessage::Emergency | ClientMessage::Vote { .. } | ClientMessage::Sabotage { .. } => Some(BucketKind::Action),
        ClientMessage::Chat { .. } => Some(BucketKind::Chat),
        _ => None,
    }
}

/// What the host does with an authenticated client's game action: the
/// client id is the actor.
pub open spec fn spec_action_effect(client_id: u64, msg: ClientMessage) -> HostEffect {
    match msg {
        ClientMessage::Kill => HostEffect::Kill { actor_id: client_id },
        ClientMessage::Report => HostEffect::Report { reporter_id: client_id },
        ClientMessage::Emergency => HostEffect::Meeting { command: MeetingCommand::Emergency { actor_id: client_id } },
        ClientMessage::Vote { target: Some(t) } => HostEffect::Meeting { command: MeetingCommand::Vote { voter_id: client_id, target: t } },
        ClientMessage::Vote { target: None } => HostEffect::Meeting { command: MeetingCommand::Skip { voter_id: client_id } },
        ClientMessage::Sabotage { kind } => HostEffect::Sabotage { actor_id: client_id, kind },
        _ => HostEffect::Ignore,
    }
}

impl HostSession {
    pub open spec fn wf(&self) -> bool {
        distinct_clients(self.clients@)
    }

    /// Index of this client's record.
    pub open spec fn index_of(&self, id: u64) -> Option<int> {
        first_where(self.clients@, record_is(id))
    }

    pub open spec fn spec_is_authenticated(&self, id: u64) -> bool {
        self.index_of(id) matches Some(i) && self.clients@[i].authenticated
    }

    pub fn new() -> (r: Self)
        ensures
            r.clients@.len() == 0,
            r.wf(),
    {
        HostSession { clients: Vec::new() }
    }

    /// Finds this client's record.
    pub fn find(&self, id: u64) -> (r: Option<usize>)
        ensures
            r matches Some(i) ==> self.index_of(id) == Some(i as int),
            r is None ==> self.index_of(id) is None,
            self.index_of(id) matches Some(i) ==> 0 <= i < self.clients@.len() && self.clients@[i].client_id == id,
            self.index_of(id) is None ==> forall|j: int| 0 <= j < self.clients@.len() ==> self.clients@[j].client_id != id,
    {
        proof {
            lemma_first_where(self.clients@, record_is(id));
        }
        let mut i: usize = 0;
        while i < self.clients.len()
            invariant
                i <= self.clients@.len(),
                forall|j: int| 0 <= j < i ==> self.clients@[j].client_id != id,
                first_where(self.clients@, record_is(id)) matches Some(k) ==> {
                    &&& 0 <= k < self.clients@.len()
                    &&& record_is(id)(self.clients@[k])
                    &&& forall|j: int| 0 <= j < k ==> !record_is(id)(#[trigger] self.clients@[j])
                },
                first_where(self.clients@, record_is(id)) is None <==> forall|j: int| 0 <= j < self.clients@.len() ==> !record_is(id)(#[trigger] self.clients@[j]),
            decreases self.clients@.len() - i,
        {
            if self.clients[i].client_id == id {
                proof {
                    if let Some(k) = first_where(self.clients@, record_is(id)) {
                        if k > i as int {
                            assert(!record_is(id)(self.clients@[i as int]));
                        }
                    }
                }
                return Some(i);
            }
            i = i + 1;
        }
        None
    }

    /// Whether this client has said a valid hello.
    pub fn is_authenticated(&self, id: u64) -> (r: bool)
        ensures
            r == self.spec_is_authenticated(id),
    {
        match self.find(id) {
            Some(i) => self.clients[i].authenticated,
            None => false,
        }
    }

    /// Whether the host reads this message at all: before its hello, only a
    /// client's hello is read.
    pub fn reads_message(&self, id: u64, msg: &ClientMessage) -> (r: bool)
        ensures
            r == (self.spec_is_authenticated(id) || msg is Hello),
    {
        self.is_authenticated(id) || matches!(msg, ClientMessage::Hello { .. })
    }

    /// The player a client controls.
    pub fn player_for(&self, id: u64) -> (r: Option<u64>)
        ensures
            r == (match self.index_of(id) { Some(i) => Some(self.clients@[i].player_id), None => None }),
    {
        match self.find(id) {
            Some(i) => Some(self.clients[i].player_id),
            None => None,
        }
    }

    /// A client connects. It is admitted only while the lobby is open and
    /// has a free seat; it then has a few seconds to say hello (its seat is
    /// taken only with the hello). Returns whether it was admitted.
    pub fn on_connect(&mut self, id: u64, in_lobby: bool, lobby_len: usize, cfg: &MatchConfig, now_ms: u64) -> (admitted: bool)
        requires
            old(self).wf(),
        ensures
            admitted == (in_lobby && lobby_len < cfg.max_players),
            final(self).wf(),
            !admitted ==> final(self).clients@ == old(self).clients@,
            admitted && old(self).index_of(id) is None ==> final(self).clients@ == old(self).clients@.push(ClientRecord {
                client_id: id,
                player_id: id,
                authenticated: false,
                handshake_deadline_ms: Some(final(self).clients@.last().handshake_deadline_ms.unwrap()),
                inputs: final(self).clients@.last().inputs,
            }) && final(self).clients@.last().inputs.pending@.len() == 0
                && final(self).clients@.last().inputs.last_enqueued is None
                && final(self).clients@.last().inputs.last_processed is None,
            admitted ==> (final(self).index_of(id) matches Some(k) && final(self).clients@[k].handshake_deadline_ms == Some(
                if now_ms as int + HANDSHAKE_TIMEOUT_MS as int > u64::MAX { u64::MAX } else { (now_ms + HANDSHAKE_TIMEOUT_MS) as u64 })),
            admitted ==> (old(self).index_of(id) matches Some(k) ==> final(self).clients@.len() == old(self).clients@.len()
                && (forall|j: int| 0 <= j < old(self).clients@.len() && j != k ==> final(self).clients@[j] == old(self).clients@[j])
                && final(self).clients@[k].client_id == id
                && final(self).clients@[k].player_id == id
                && final(self).clients@[k].authenticated == old(self).clients@[k].authenticated
                && final(self).clients@[k].inputs == old(self).clients@[k].inputs),
    {
        if !in_lobby || lobby_len >= cfg.max_players as usize {
            return false;
        }
        let deadline = now_ms.saturating_add(HANDSHAKE_TIMEOUT_MS);
        match self.find(id) {
            Some(k) => {
                proof {
                    lemma_first_where(self.clients@, record_is(id));
                }
                let mut rec = self.clients.remove(k);
                rec.player_id = id;
                rec.handshake_deadline_ms = Some(deadline);
                self.clients.insert(k, rec);
                proof {
                    lemma_first_where(self.clients@, record_is(id));
                    assert(self.clients@[k as int].client_id == id);
                    assert(forall|j: int| 0 <= j < k ==> self.clients@[j] == old(self).clients@[j]);
                    if let Some(k2) = first_where(self.clients@, record_is(id)) {
                        if k2 < k {
                            assert(old(self).clients@[k2].client_id == id);
                        }
                    }
                }
            },
            None => {
                self.clients.push(ClientRecord {
                    client_id: id,
                    player_id: id,
                    authenticated: false,
                    handshake_deadline_ms: Some(deadline),
                    inputs: ClientInputQueue::new(),
                });
                proof {
                    lemma_first_where(self.clients@, record_is(id));
                    lemma_first_where(old(self).clients@, record_is(id));
                    let n = old(self).clients@.len() as int;
                    assert(self.clients@[n].client_id == id);
                    assert(forall|j: int| 0 <= j < n ==> self.clients@[j] == old(self).clients@[j]);
                    if let Some(k2) = first_where(self.clients@, record_is(id)) {
                        if k2 < n {
                            assert(old(self).clients@[k2].client_id == id);
                        }
                    }
                }
            },
        }
        true
    }

    /// A client left: its record goes, and so do its lobby seats. Returns
    /// the player it controlled (whose in-match entity is then despawned).
    pub fn on_disconnect(&mut self, id: u64, lobby: &mut LobbyState) -> (r: Option<u64>)
        requires
            old(self).wf(),
        ensures
            final(self).wf(),
            r == (match old(self).index_of(id) { Some(i) => Some(old(self).clients@[i].player_id), None => None }),
            final(self).clients@ == (match old(self).index_of(id) { Some(i) => old(self).clients@.remove(i), None => old(self).clients@ }),
            r matches Some(p) ==> final(lobby).slots@ == old(lobby).slots@.filter(slot_not(p)),
            r is None ==> final(lobby).slots@ == old(lobby).slots@,
            final(lobby).local_ready == old(lobby).local_ready,
            final(lobby).is_host == old(lobby).is_host,
    {
        match self.find(id) {
            Some(k) => {
                let rec = self.clients.remove(k);
                proof {
                    assert forall|i: int, j: int| 0 <= i < self.clients@.len() && 0 <= j < self.clients@.len() && i != j
                        implies (#[trigger] self.clients@[i]).client_id != (#[trigger] self.clients@[j]).client_id by {
                        let oi = if i < k { i } else { i + 1 };
                        let oj = if j < k { j } else { j + 1 };
                        assert(self.clients@[i] == old(self).clients@[oi]);
                        assert(self.clients@[j] == old(self).clients@[oj]);
                    }
                }
                let pid = rec.player_id;
                lobby.remove_player(pid);
                Some(pid)
            },
            None => None,
        }
    }

    /// Clients still unauthenticated after their hello deadline. Their
    /// deadline is dropped (they are disconnected, and leave through
    /// `on_disconnect`).
    pub fn expire_handshakes(&mut self, now_ms: u64) -> (expired: Vec<u64>)
        requires
            old(self).wf(),
        ensures
            final(self).wf(),
            final(self).clients@.len() == old(self).clients@.len(),
            forall|j: int| 0 <= j < old(self).clients@.len() ==> {
                let o = #[trigger] old(self).clients@[j];
                let n = final(self).clients@[j];
                &&& n.client_id == o.client_id
                &&& n.player_id == o.player_id
                &&& n.authenticated == o.authenticated
                &&& n.inputs == o.inputs
                &&& n.handshake_deadline_ms == if timed_out(o, now_ms) { None } else { o.handshake_deadline_ms }
            },
            expired@ == old(self).clients@.filter(|r: ClientRecord| timed_out(r, now_ms)).map_values(|r: ClientRecord| r.client_id),
    {
        let mut expired: Vec<u64> = Vec::new();
        let ghost olds = self.clients@;
        let mut i: usize = 0;
        while i < self.clients.len()
            invariant
                olds == old(self).clients@,
                distinct_clients(olds),
                self.clients@.len() == olds.len(),
                i <= olds.len(),
                forall|j: int| 0 <= j < olds.len() ==> {
                    let o = #[trigger] olds[j];
                    let n = self.clients@[j];
                    &&& n.client_id == o.client_id
                    &&& n.player_id == o.player_id
                    &&& n.authenticated == o.authenticated
                    &&& n.inputs == o.inputs
                    &&& n.handshake_deadline_ms == if j < i && timed_out(o, now_ms) { None } else { o.handshake_deadline_ms }
                },
                expired@ == olds.take(i as int).filter(|r: ClientRecord| timed_out(r, now_ms)).map_values(|r: ClientRecord| r.client_id),
            decreases olds.len() - i,
        {
            proof {
                assert(olds.take(i as int + 1).drop_last() =~= olds.take(i as int));
                reveal_with_fuel(Seq::filter, 1);
            }
            let late = match self.clients[i].handshake_deadline_ms {
                Some(d) => !self.clients[i].authenticated && now_ms > d,
                None => false,
            };
            if late {
                let mut rec = self.clients.remove(i);
                rec.handshake_deadline_ms = None;
                expired.push(rec.client_id);
                self.clients.insert(i, rec);
                proof {
                    assert(olds.take(i as int + 1).filter(|r: ClientRecord| timed_out(r, now_ms))
                        == olds.take(i as int).filter(|r: ClientRecord| timed_out(r, now_ms)).push(olds[i as int]));
                    assert(expired@ =~= olds.take(i as int + 1).filter(|r: ClientRecord| timed_out(r, now_ms)).map_values(|r: ClientRecord| r.client_id));
                }
            } else {
                proof {
                    assert(olds.take(i as int + 1).filter(|r: ClientRecord| timed_out(r, now_ms))
                        == olds.take(i as int).filter(|r: ClientRecord| timed_out(r, now_ms)));
                }
            }
            i = i + 1;
        }
        proof {
            assert(olds.take(i as int) =~= olds);
            assert forall|a: int, b: int| 0 <= a < self.clients@.len() && 0 <= b < self.clients@.len() && a != b
                implies (#[trigger] self.clients@[a]).client_id != (#[trigger] self.clients@[b]).client_id by {
                assert(olds[a].client_id != olds[b].client_id);
            }
        }
        expired
    }

    /// Marks a client authenticated and drops its hello deadline.
    fn authenticate(&mut self, k: usize)
        requires
            old(self).wf(),
            k < old(self).clients@.len(),
        ensures
            final(self).wf(),
            final(self).clients@.len() == old(self).clients@.len(),
            forall|j: int| 0 <= j < old(self).clients@.len() && j != k ==> final(self).clients@[j] == old(self).clients@[j],
            final(self).clients@[k as int].client_id == old(self).clients@[k as int].client_id,
            final(self).clients@[k as int].player_id == old(self).clients@[k as int].player_id,
            final(self).clients@[k as int].inputs == old(self).clients@[k as int].inputs,
            final(self).clients@[k as int].authenticated,
            final(self).clients@[k as int].handshake_deadline_ms is None,
    {
        let mut rec = self.clients.remove(k);
        rec.authenticated = true;
        rec.handshake_deadline_ms = None;
        self.clients.insert(k, rec);
        proof {
            assert forall|a: int, b: int| 0 <= a < self.clients@.len() && 0 <= b < self.clients@.len() && a != b
                implies (#[trigger] self.clients@[a]).client_id != (#[trigger] self.clients@[b]).client_id by {
                assert(old(self).clients@[a].client_id != old(self).clients@[b].client_id);
            }
        }
    }

    /// Handles one reliable message from a connected client (after the rate
    /// limits passed). An unknown client, or one not yet authenticated that
    /// sends anything but a hello, is ignored. A hello with the wrong
    /// protocol is rejected; otherwise it authenticates the client and seats
    /// it (or refreshes its seat). Ready flags go to the lobby; game actions
    /// become requests with the client as actor; a chat line is accepted as
    /// `accept_remote_chat` says, from the player the client controls.
    pub fn handle_reliable(
        &mut self,
        id: u64,
        msg: ClientMessage,
        phase: GamePhase,
        lobby: &mut LobbyState,
        cfg: &MatchConfig,
        roster: &[PlayerSummary],
    ) -> (effect: HostEffect)
        requires
            old(self).wf(),
        ensures
            final(self).wf(),
            final(self).clients@.len() == old(self).clients@.len(),
            final(lobby).local_ready == old(lobby).local_ready,
            final(lobby).is_host == old(lobby).is_host,
            !(old(self).spec_is_authenticated(id) || (msg is Hello && old(self).index_of(id) is Some)) ==> effect == HostEffect::Ignore
                && final(self).clients@ == old(self).clients@ && final(lobby).slots@ == old(lobby).slots@,
            old(self).index_of(id) is Some && (msg matches ClientMessage::Hello { protocol_version, .. } && protocol_version != PROTOCOL_VERSION)
                ==> effect == (HostEffect::Reject { reason: effect->reason }) && effect->reason@ == "protocol mismatch"@
                && final(self).clients@ == old(self).clients@ && final(lobby).slots@ == old(lobby).slots@,
            old(self).index_of(id) matches Some(k) ==> (msg matches ClientMessage::Hello { protocol_version, name, color_index } ==> (protocol_version == PROTOCOL_VERSION ==> {
                &&& final(self).clients@[k].authenticated
                &&& final(self).clients@[k].handshake_deadline_ms is None
                &&& final(self).clients@[k].client_id == old(self).clients@[k].client_id
                &&& final(self).clients@[k].player_id == old(self).clients@[k].player_id
                &&& forall|j: int| 0 <= j < old(self).clients@.len() && j != k ==> final(self).clients@[j] == old(self).clients@[j]
                &&& (!has_slot(old(lobby).slots@, id) && old(lobby).slots@.len() >= cfg.max_players ==> effect == HostEffect::Disconnect
                    && final(lobby).slots@ == old(lobby).slots@)
                &&& (has_slot(old(lobby).slots@, id) || old(lobby).slots@.len() < cfg.max_players ==> effect == (HostEffect::Welcome { player_id: id })
                    && seated_by_hello(old(lobby).slots@, final(lobby).slots@, id, name@, color_index))
            })),
            old(self).spec_is_authenticated(id) ==> (msg matches ClientMessage::Ready { ready } ==> effect == HostEffect::Ignore
                && final(self).clients@ == old(self).clients@
                && final(lobby).slots@ == slots_with_ready(old(lobby).slots@, id, ready)),
            old(self).spec_is_authenticated(id) && (msg is Kill || msg is Report || msg is Emergency || msg is Vote || msg is Sabotage || msg is Input)
                ==> effect == spec_action_effect(id, msg) && final(self).clients@ == old(self).clients@ && final(lobby).slots@ == old(lobby).slots@,
            old(self).spec_is_authenticated(id) ==> (msg matches ClientMessage::Chat { text } ==> {
                let pid = old(self).clients@[old(self).index_of(id).unwrap()].player_id;
                &&& final(self).clients@ == old(self).clients@
                &&& final(lobby).slots@ == old(lobby).slots@
                &&& (effect is Chat <==> (chat_open_spec(phase) && spec_sanitize(text@).len() > 0
                    && first_where(roster@, player_is(pid)) is Some))
                &&& (effect matches HostEffect::Chat { entry } ==> {
                    let p = roster@[first_where(roster@, player_is(pid)).unwrap()];
                    &&& entry.player_id == p.id
                    &&& entry.name == p.name
                    &&& entry.is_ghost == !p.alive
                    &&& entry.text@ == spec_sanitize(text@)
                })
                &&& (!(effect is Chat) ==> effect == HostEffect::Ignore)
            }),
    {
        let k = match self.find(id) {
            Some(k) => k,
            None => return HostEffect::Ignore,
        };
        let authed = self.clients[k].authenticated;
        match msg {
            ClientMessage::Hello { protocol_version, name, color_index } => {
                if protocol_version != PROTOCOL_VERSION {
                    proof {
                        reveal_strlit("protocol mismatch");
                    }
                    return HostEffect::Reject { reason: String::from_str("protocol mismatch") };
                }
                self.authenticate(k);
                proof {
                    lemma_first_where(old(self).clients@, record_is(id));
                }
                match lobby.apply_hello(id, protocol_version, PROTOCOL_VERSION, name.as_str(), color_index, cfg) {
                    HelloOutcome::LobbyFull => HostEffect::Disconnect,
                    _ => HostEffect::Welcome { player_id: id },
                }
            },
            _ => {
                if !authed {
                    return HostEffect::Ignore;
                }
                match msg {
                    ClientMessage::Ready { ready } => {
                        lobby.set_ready(id, ready);
                        HostEffect::Ignore
                    },
                    ClientMessage::Kill => HostEffect::Kill { actor_id: id },
                    ClientMessage::Report => HostEffect::Report { reporter_id: id },
                    ClientMessage::Emergency => HostEffect::Meeting { command: MeetingCommand::Emergency { actor_id: id } },
                    ClientMessage::Vote { target } => match target {
                        Some(t) => HostEffect::Meeting { command: MeetingCommand::Vote { voter_id: id, target: t } },
                        None => HostEffect::Meeting { command: MeetingCommand::Skip { voter_id: id } },
                    },
                    ClientMessage::Sabotage { kind } => HostEffect::Sabotage { actor_id: id, kind },
                    ClientMessage::Chat { text } => {
                        let pid = self.clients[k].player_id;
                        let sender = match find_player(roster, pid) {
                            Some(i) => Some(&roster[i]),
                            None => None,
                        };
                        match accept_remote_chat(phase, text.as_str(), sender) {
                            Some(entry) => HostEffect::Chat { entry },
                            None => HostEffect::Ignore,
                        }
                    },
                    _ => HostEffect::Ignore,
                }
            },
        }
    }

    /// The clients that receive a chat line: of the connected clients that
    /// control a player, a living sender reaches all, a ghost only those
    /// whose player is dead or not in the match.
    pub fn chat_recipients(&self, connected: &[u64], sender_ghost: bool, roster: &[PlayerSummary]) -> (r: Vec<u64>)
        ensures
            r@ == connected@.filter(|c: u64| self.index_of(c) is Some && chat_delivered_to_spec(
                sender_ghost,
                recipient_ghost_spec(roster@, self.clients@[self.index_of(c).unwrap()].player_id),
            )),
    {
        let mut out: Vec<u64> = Vec::new();
        let mut i: usize = 0;
        while i < connected.len()
            invariant
                i <= connected@.len(),
                out@ == connected@.take(i as int).filter(|c: u64| self.index_of(c) is Some && chat_delivered_to_spec(
                    sender_ghost,
                    recipient_ghost_spec(roster@, self.clients@[self.index_of(c).unwrap()].player_id),
                )),
            decreases connected@.len() - i,
        {
            proof {
                assert(connected@.take(i as int + 1).drop_last() =~= connected@.take(i as int));
                reveal_with_fuel(Seq::filter, 1);
            }
            let c = connected[i];
            match self.player_for(c) {
                Some(pid) => {
                    let recipient_ghost = match find_player(roster, pid) {
                        Some(j) => Some(!roster[j].alive),
                        None => None,
                    };
                    if chat_delivered_to(sender_ghost, recipient_ghost) {
                        out.push(c);
                    }
                },
                None => {},
            }
            i = i + 1;
        }
        proof {
            assert(connected@.take(i as int) =~= connected@);
        }
        out
    }

    /// The last input sequence the host simulated for a player's client.
    pub fn acknowledged_input(&self, player_id: u64) -> (r: Option<u32>)
        ensures
            r == (match first_where(self.clients@, record_of_player(player_id)) {
                Some(i) => self.clients@[i].inputs.last_processed,
                None => None,
            }),
    {
        proof {
            lemma_first_where(self.clients@, record_of_player(player_id));
        }
        let mut i: usize = 0;
        while i < self.clients.len()
            invariant
                i <= self.clients@.len(),
                forall|j: int| 0 <= j < i ==> !record_of_player(player_id)(#[trigger] self.clients@[j]),
                first_where(self.clients@, record_of_player(player_id)) matches Some(k) ==> {
                    &&& 0 <= k < self.clients@.len()
                    &&& record_of_player(player_id)(self.clients@[k])
                    &&& forall|j: int| 0 <= j < k ==> !record_of_player(player_id)(#[trigger] self.clients@[j])
                },
                first_where(self.clients@, record_of_player(player_id)) is None <==> forall|j: int| 0 <= j < self.clients@.len() ==> !record_of_player(player_id)(#[trigger] self.clients@[j]),
            decreases self.clients@.len() - i,
        {
            if self.clients[i].player_id == player_id {
                proof {
                    if let Some(k) = first_where(self.clients@, record_of_player(player_id)) {
                        if k > i as int {
                            assert(!record_of_player(player_id)(self.clients@[i as int]));
                        }
                    }
                }
                return self.clients[i].inputs.last_processed;
            }
            i = i + 1;
        }
        None
    }
}

/// Matches the record of the client controlling this player.
pub open spec fn record_of_player(player_id: u64) -> spec_fn(ClientRecord) -> bool {
    |c: ClientRecord| c.player_id == player_id
}

/// Matches the entry of this body entity.
pub open spec fn entry_of_entity(entity: u64) -> spec_fn((u64, u64)) -> bool {
    |e: (u64, u64)| e.1 == entity
}

/// The match-start notices: each connected client whose player is in the
/// match learns its role.
pub open spec fn spec_role_of(roster: Seq<PlayerSummary>, player_id: u64) -> Option<crate::roles::Role> {
    match first_where(roster, player_is(player_id)) {
        Some(j) => Some(roster[j].role),
        None => None,
    }
}

impl HostSession {
    /// The role each connected client is told when the match starts, for
    /// the clients whose player is in the match, in connection order.
    pub fn match_start_roles(&self, roster: &[PlayerSummary]) -> (r: Vec<(u64, crate::roles::Role)>)
        ensures
            r@ == self.clients@.filter(|c: ClientRecord| spec_role_of(roster@, c.player_id) is Some)
                .map_values(|c: ClientRecord| (c.client_id, spec_role_of(roster@, c.player_id).unwrap())),
    {
        let mut out: Vec<(u64, crate::roles::Role)> = Vec::new();
        let mut i: usize = 0;
        while i < self.clients.len()
            invariant
                i <= self.clients@.len(),
                out@ == self.clients@.take(i as int).filter(|c: ClientRecord| spec_role_of(roster@, c.player_id) is Some)
                    .map_values(|c: ClientRecord| (c.client_id, spec_role_of(roster@, c.player_id).unwrap())),
            decreases self.clients@.len() - i,
        {
            proof {
                assert(self.clients@.take(i as int + 1).drop_last() =~= self.clients@.take(i as int));
                reveal_with_fuel(Seq::filter, 1);
            }
            let pid = self.clients[i].player_id;
            match find_player(roster, pid) {
                Some(j) => {
                    out.push((self.clients[i].client_id, roster[j].role));
                    proof {
                        assert(out@ =~= self.clients@.take(i as int + 1).filter(|c: ClientRecord| spec_role_of(roster@, c.player_id) is Some)
                            .map_values(|c: ClientRecord| (c.client_id, spec_role_of(roster@, c.player_id).unwrap())));
                    }
                },
                None => {},
            }
            i = i + 1;
        }
        proof {
            assert(self.clients@.take(i as int) =~= self.clients@);
        }
        out
    }
}

/// What the host tells only one client in a world snapshot: where the
/// player it controls stands in the roster, that player's role, whether it
/// has voted, and the last of its inputs the host simulated.
#[derive(Clone, Copy, PartialEq, Eq, Structural, Debug)]
pub struct PrivateSelection {
    pub player_index: usize,
    pub role: crate::roles::Role,
    pub voted: bool,
    pub acknowledged_input_sequence: Option<u32>,
}

impl HostSession {
    /// The last input sequence simulated for this player's client.
    pub open spec fn spec_acknowledged(&self, player_id: u64) -> Option<u32> {
        match first_where(self.clients@, record_of_player(player_id)) {
            Some(i) => self.clients@[i].inputs.last_processed,
            None => None,
        }
    }

    /// The player a client controls, if it is connected.
    pub open spec fn spec_player_for(&self, client_id: u64) -> Option<u64> {
        match self.index_of(client_id) {
            Some(i) => Some(self.clients@[i].player_id),
            None => None,
        }
    }

    /// The private part of one client's world snapshot, as a value.
    pub open spec fn spec_private_state(&self, client_id: u64, roster: Seq<PlayerSummary>, meeting: MeetingState) -> Option<PrivateSelection> {
        match self.spec_player_for(client_id) {
            None => None,
            Some(pid) => match first_where(roster, player_is(pid)) {
                None => None,
                Some(i) => Some(PrivateSelection {
                    player_index: i as usize,
                    role: roster[i].role,
                    voted: meeting.has_voted(pid),
                    acknowledged_input_sequence: self.spec_acknowledged(pid),
                }),
            },
        }
    }

    /// The private part of one client's world snapshot. A client that is not
    /// connected, or whose player is not in the match, gets none; otherwise
    /// it is told only about its own player: its role, its vote flag, and
    /// the input acknowledgement of that player.
    pub fn private_state(&self, client_id: u64, roster: &[PlayerSummary], meeting: &MeetingState) -> (r: Option<PrivateSelection>)
        ensures
            r == self.spec_private_state(client_id, roster@, *meeting),
            self.spec_player_for(client_id) is None ==> r is None,
            self.spec_player_for(client_id) matches Some(pid) ==> {
                &&& (r is Some <==> first_where(roster@, player_is(pid)) is Some)
                &&& (r matches Some(sel) ==> {
                    &&& sel.player_index as int == first_where(roster@, player_is(pid)).unwrap()
                    &&& roster@[sel.player_index as int].id == pid
                    &&& sel.role == roster@[sel.player_index as int].role
                    &&& sel.voted == meeting.has_voted(pid)
                    &&& sel.acknowledged_input_sequence == self.spec_acknowledged(pid)
                })
            },
    {
        let pid = match self.player_for(client_id) {
            Some(p) => p,
            None => return None,
        };
        let idx = match find_player(roster, pid) {
            Some(i) => i,
            None => return None,
        };
        Some(PrivateSelection {
            player_index: idx,
            role: roster[idx].role,
            voted: meeting.voted(pid),
            acknowledged_input_sequence: self.acknowledged_input(pid),
        })
    }
}

/// One snapshot tick of the host: the snapshot counter advances once
/// (wrapping), whether or not any client is connected, and every connected
/// client, in the order given, gets a snapshot under that one sequence with
/// its own private part. Returns (client, sequence, private part) per client.
pub fn tick_snapshots(
    seq: &mut ServerSnapshotSequence,
    session: &HostSession,
    clients: &[u64],
    roster: &[PlayerSummary],
    meeting: &MeetingState,
) -> (r: Vec<(u64, u32, Option<PrivateSelection>)>)
    ensures
        final(seq).0 == if old(seq).0 == u32::MAX { 0 } else { (old(seq).0 + 1) as u32 },
        r@.len() == clients@.len(),
        forall|k: int| 0 <= k < clients@.len() ==> #[trigger] r@[k] == (clients@[k], final(seq).0,
            session.spec_private_state(clients@[k], roster@, *meeting)),
{
    let sequence = seq.advance();
    let mut out: Vec<(u64, u32, Option<PrivateSelection>)> = Vec::new();
    let mut k: usize = 0;
    while k < clients.len()
        invariant
            k <= clients@.len(),
            out@.len() == k,
            forall|j: int| 0 <= j < k ==> #[trigger] out@[j] == (clients@[j], sequence,
                session.spec_private_state(clients@[j], roster@, *meeting)),
        decreases clients@.len() - k,
    {
        let private = session.private_state(clients[k], roster, meeting);
        out.push((clients[k], sequence, private));
        k = k + 1;
    }
    out
}

/// Whether a record's hello deadline has passed unanswered.
pub open spec fn timed_out(r: ClientRecord, now_ms: u64) -> bool {
    !r.authenticated && (r.handshake_deadline_ms matches Some(d) && now_ms > d)
}

/// `chat_delivered_to`, as a formula.
pub open spec fn chat_delivered_to_spec(sender_ghost: bool, recipient_ghost: Option<bool>) -> bool {
    !sender_ghost || recipient_ghost != Some(false)
}

/// Whether the player is a ghost, if it is in the match.
pub open spec fn recipient_ghost_spec(roster: Seq<PlayerSummary>, player_id: u64) -> Option<bool> {
    match first_where(roster, player_is(player_id)) {
        Some(j) => Some(!roster[j].alive),
        None => None,
    }
}

/// Host-side ids for the bodies on the floor, stable across snapshots.
pub struct BodyIds {
    /// (body id, entity) pairs, oldest first.
    pub entries: Vec<(u64, u64)>,
    pub next_id: u64,
}

impl BodyIds {
    pub fn new() -> (r: Self)
        ensures
            r.entries@.len() == 0,
            r.next_id == 0,
    {
        BodyIds { entries: Vec::new(), next_id: 0 }
    }

    /// The id of the body with this entity: the one it was given before, or
    /// the next fresh id.
    pub fn id_for(&mut self, entity: u64) -> (id: u64)
        requires
            old(self).next_id < u64::MAX,
        ensures
            first_where(old(self).entries@, entry_of_entity(entity)) matches Some(i) ==> id == old(self).entries@[i].0
                && *final(self) == *old(self),
            first_where(old(self).entries@, entry_of_entity(entity)) is None ==> id == old(self).next_id + 1
                && final(self).next_id == id
                && final(self).entries@ == old(self).entries@.push((id, entity)),
    {
        proof {
            lemma_first_where(self.entries@, entry_of_entity(entity));
        }
        let mut i: usize = 0;
        while i < self.entries.len()
            invariant
                i <= self.entries@.len(),
                forall|j: int| 0 <= j < i ==> !entry_of_entity(entity)(#[trigger] self.entries@[j]),
                first_where(self.entries@, entry_of_entity(entity)) matches Some(k) ==> {
                    &&& 0 <= k < self.entries@.len()
                    &&& entry_of_entity(entity)(self.entries@[k])
                    &&& forall|j: int| 0 <= j < k ==> !entry_of_entity(entity)(#[trigger] self.entries@[j])
                },
                first_where(self.entries@, entry_of_entity(entity)) is None <==> forall|j: int| 0 <= j < self.entries@.len() ==> !entry_of_entity(entity)(#[trigger] self.entries@[j]),
            decreases self.entries@.len() - i,
        {
            if self.entries[i].1 == entity {
                proof {
                    if let Some(k) = first_where(self.entries@, entry_of_entity(entity)) {
                        if k > i as int {
                            assert(!entry_of_entity(entity)(self.entries@[i as int]));
                        }
                    }
                }
                return self.entries[i].0;
            }
            i = i + 1;
        }
        self.next_id = self.next_id + 1;
        let id = self.next_id;
        self.entries.push((id, entity));
        id
    }
}

/// Entering or leaving a match resets the per-match network state: the
/// client's input counter, snapshot sequence and prediction buffer, and the
/// input queues the host keeps per client (its clients stay connected).
pub fn reset_network_match_state(
    identity: &mut NetworkIdentity,
    snapshots: &mut ClientSnapshotSequence,
    prediction: &mut ClientPredictionState,
    host: &mut HostSession,
)
    requires
        old(host).wf(),
    ensures
        *final(identity) == (NetworkIdentity { input_sequence: 0, ..*old(identity) }),
        final(snapshots).last_applied is None,
        final(prediction).pending@.len() == 0,
        final(host).wf(),
        final(host).clients@.len() == old(host).clients@.len(),
        forall|j: int| 0 <= j < old(host).clients@.len() ==> {
            let o = #[trigger] old(host).clients@[j];
            let n = final(host).clients@[j];
            &&& n.client_id == o.client_id
            &&& n.player_id == o.player_id
            &&& n.authenticated == o.authenticated
            &&& n.handshake_deadline_ms == o.handshake_deadline_ms
            &&& n.inputs.pending@.len() == 0
            &&& n.inputs.last_enqueued is None
            &&& n.inputs.last_processed is None
        },
{
    identity.input_sequence = 0;
    snapshots.last_applied = None;
    prediction.clear();
    let ghost olds = host.clients@;
    let mut i: usize = 0;
    while i < host.clients.len()
        invariant
            olds == old(host).clients@,
            distinct_clients(olds),
            host.clients@.len() == olds.len(),
            i <= olds.len(),
            forall|j: int| 0 <= j < olds.len() ==> {
                let o = #[trigger] olds[j];
                let n = host.clients@[j];
                &&& n.client_id == o.client_id
                &&& n.player_id == o.player_id
                &&& n.authenticated == o.authenticated
                &&& n.handshake_deadline_ms == o.handshake_deadline_ms
                &&& (j < i ==> n.inputs.pending@.len() == 0 && n.inputs.last_enqueued is None && n.inputs.last_processed is None)
                &&& (j >= i ==> n == o)
            },
        decreases olds.len() - i,
    {
        let mut rec = host.clients.remove(i);
        rec.inputs = ClientInputQueue::new();
        host.clients.insert(i, rec);
        i = i + 1;
    }
    proof {
        assert forall|a: int, b: int| 0 <= a < host.clients@.len() && 0 <= b < host.clients@.len() && a != b
            implies (#[trigger] host.clients@[a]).client_id != (#[trigger] host.clients@[b]).client_id by {
            assert(olds[a].client_id != olds[b].client_id);
        }
    }
}

} // verus!
