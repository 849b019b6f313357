use vstd::prelude::*;

use crate::chat::{CHAT_MAX_LEN, ChatEntry, ChatState, spec_push_entry};
use crate::hosting::ClientMessage;
use crate::lobby::{LobbySlot, LobbyState, MAX_NAME_CHARS, NetLobbyPlayer};
use crate::meeting::{MeetingCommand, MeetingState, VoteOption};
use crate::net::{ClientSnapshotSequence, NetworkIdentity, PROTOCOL_VERSION, spec_sequence_is_newer};
use crate::roles::{GamePhase, Role};
use crate::rules::TaskBoard;
use crate::sabotage::{ActiveSabotage, SabotageKind, idle_sabotage};
use crate::save::SaveData;
use crate::text::{take_chars, truncate_chars};

verus! {

/// A reliable message from the host to a client.
#[derive(Clone, PartialEq, Eq, Debug)]
pub enum ServerReliable {
    Welcome { player_id: u64 },
    LobbySnapshot { players: Vec<NetLobbyPlayer> },
    MatchStarted { your_role: Role },
    Chat { player_id: u64, name: String, text: String, is_ghost: bool },
    Rejected { reason: String },
    /// A world snapshot sent on the reliable channel (ignored there).
    WorldSnapshot,
}

/// What the client does next after a reliable message.
#[derive(Clone, PartialEq, Eq, Debug)]
pub enum ClientEvent {
    Nothing,
    /// The match began: enter the game.
    EnterGame,
    /// The host refused this client (the reason is logged).
    Rejected { reason: String },
}

/// A client's view of its connection and the lobby.
pub struct ClientSession {
    pub identity: NetworkIdentity,
    pub lobby: LobbyState,
    pub local_role: Option<Role>,
    pub chat: ChatState,
    pub snapshots: ClientSnapshotSequence,
}

/// The part of a world snapshot that the client's state keeps.
#[derive(Clone, PartialEq, Eq, Debug)]
pub struct SnapshotCore {
    pub sequence: u32,
    pub phase: GamePhase,
    /// Kind, fixes needed and fixes done of the sabotage in progress.
    pub sabotage: Option<(SabotageKind, u8, u8)>,
    pub tasks_completed: u32,
    pub tasks_total: u32,
    pub meeting_prompt: String,
    pub vote_options: Vec<VoteOption>,
    pub result_text: String,
    pub private: Option<PrivateCore>,
}

/// What the host tells only this client.
#[derive(Clone, Copy, PartialEq, Eq, Structural, Debug)]
pub struct PrivateCore {
    pub emergencies_left: u8,
    pub role: Role,
    pub voted: bool,
}

/// The match state a client mirrors from snapshots.
pub struct ClientWorld {
    pub phase: GamePhase,
    pub sabotage: ActiveSabotage,
    pub tasks: TaskBoard,
    pub meeting: MeetingState,
    pub emergencies_left: Option<u8>,
}

/// The seats that a lobby snapshot gives a client; its own ready toggle
/// stays as it was.
pub open spec fn lobby_after_snapshot(old: LobbyState, new: LobbyState, players: Seq<NetLobbyPlayer>, my_player_id: Option<u64>) -> bool {
    &&& !new.is_host
    &&& new.slots@.len() == players.len()
    &&& forall|k: int| 0 <= k < players.len() ==> #[trigger] new.slots@[k] == (LobbySlot {
        id: players[k].player_id,
        name: players[k].name,
        color_index: players[k].color_index,
        ready: players[k].ready,
        is_local: my_player_id == Some(players[k].player_id),
        is_host: players[k].is_host,
        is_bot: false,
    })
    &&& new.local_ready == old.local_ready
}

/// Ids to spawn: those incoming that no replica has yet (in order).
pub open spec fn ids_to_spawn(existing: Seq<u64>, incoming: Seq<u64>) -> Seq<u64> {
    incoming.filter(|id: u64| !existing.contains(id))
}

/// Ids to despawn: replicas that the snapshot no longer lists.
pub open spec fn ids_to_despawn(existing: Seq<u64>, incoming: Seq<u64>) -> Seq<u64> {
    existing.filter(|id: u64| !incoming.contains(id))
}

fn seq_contains(ids: &[u64], id: u64) -> (r: bool)
    ensures
        r == ids@.contains(id),
{
    let mut i: usize = 0;
    while i < ids.len()
        invariant
            i <= ids@.len(),
            forall|j: int| 0 <= j < i ==> ids@[j] != id,
        decreases ids@.len() - i,
    {
        if ids[i] == id {
            return true;
        }
        i = i + 1;
    }
    false
}

/// The entries of `ids` that `other` does not hold, in order.
fn missing_from(ids: &[u64], other: &[u64]) -> (r: Vec<u64>)
    ensures
        r@ == ids@.filter(|id: u64| !other@.contains(id)),
{
    let mut out: Vec<u64> = Vec::new();
    let mut i: usize = 0;
    while i < ids.len()
        invariant
            i <= ids@.len(),
            out@ == ids@.take(i as int).filter(|id: u64| !other@.contains(id)),
        decreases ids@.len() - i,
    {
        proof {
            assert(ids@.take(i as int + 1).drop_last() =~= ids@.take(i as int));
            reveal_with_fuel(Seq::filter, 1);
        }
        let id = ids[i];
        if !seq_contains(other, id) {
            out.push(id);
        }
        i = i + 1;
    }
    proof {
        assert(ids@.take(i as int) =~= ids@);
    }
    out
}

/// Reconciles the replicas with a snapshot's list: which ids to spawn and
/// which replicas to despawn (the others are updated in place).
pub fn reconcile_ids(existing: &[u64], incoming: &[u64]) -> (r: (Vec<u64>, Vec<u64>))
    ensures
        r.0@ == ids_to_spawn(existing@, incoming@),
        r.1@ == ids_to_despawn(existing@, incoming@),
{
    (missing_from(incoming, existing), missing_from(existing, incoming))
}

/// The hello a client sends: the protocol version, its name cut to the
/// lobby's limit and its preferred color.
pub fn hello_message(save: &SaveData) -> (m: ClientMessage)
    ensures
        m matches ClientMessage::Hello { protocol_version, name, color_index } && protocol_version == PROTOCOL_VERSION
            && name@ == truncate_chars(save.player_name@, MAX_NAME_CHARS as nat)
            && color_index == save.preferred_color_index,
{
    ClientMessage::Hello {
        protocol_version: PROTOCOL_VERSION,
        name: take_chars(save.player_name.as_str(), MAX_NAME_CHARS),
        color_index: save.preferred_color_index,
    }
}

/// The chat message for a typed line, cut to the chat limit.
pub fn chat_message(text: &str) -> (m: ClientMessage)
    ensures
        m matches ClientMessage::Chat { text: t } && t@ == truncate_chars(text@, CHAT_MAX_LEN as nat),
{
    ClientMessage::Chat { text: take_chars(text, CHAT_MAX_LEN) }
}

/// The message for a meeting command: an emergency call, a vote for a
/// player, or a skip (a vote for nobody).
pub fn meeting_message(cmd: MeetingCommand) -> (m: ClientMessage)
    ensures
        cmd is Emergency ==> m == ClientMessage::Emergency,
        cmd matches MeetingCommand::Vote { target, .. } ==> m == (ClientMessage::Vote { target: Some(target) }),
        cmd is Skip ==> m == (ClientMessage::Vote { target: None }),
{
    match cmd {
        MeetingCommand::Emergency { .. } => ClientMessage::Emergency,
        MeetingCommand::Vote { target, .. } => ClientMessage::Vote { target: Some(target) },
        MeetingCommand::Skip { .. } => ClientMessage::Vote { target: None },
    }
}

/// The ready flag goes out only when it changed since the last one sent.
pub fn ready_message(previous: &mut Option<bool>, local_ready: bool) -> (m: Option<ClientMessage>)
    ensures
        *old(previous) == Some(local_ready) ==> m is None && *final(previous) == *old(previous),
        *old(previous) != Some(local_ready) ==> m == Some(ClientMessage::Ready { ready: local_ready })
            && *final(previous) == Some(local_ready),
{
    if *previous == Some(local_ready) {
        return None;
    }
    *previous = Some(local_ready);
    Some(ClientMessage::Ready { ready: local_ready })
}

impl ClientSession {
    pub fn new() -> (r: Self)
        ensures
            r.identity == (NetworkIdentity { my_player_id: None, hello_sent: false, input_sequence: 0 }),
            r.lobby.slots@.len() == 0,
            !r.lobby.local_ready,
            !r.lobby.is_host,
            r.local_role is None,
            r.chat.entries@.len() == 0,
            r.snapshots.last_applied is None,
    {
        ClientSession {
            identity: NetworkIdentity { my_player_id: None, hello_sent: false, input_sequence: 0 },
            lobby: LobbyState::new(),
            local_role: None,
            chat: ChatState::new(),
            snapshots: ClientSnapshotSequence { last_applied: None },
        }
    }

    /// The hello to send, once per connection, as soon as it is connected.
    pub fn hello_to_send(&mut self, connected: bool, save: &SaveData) -> (m: Option<ClientMessage>)
        ensures
            (old(self).identity.hello_sent || !connected) ==> m is None && final(self).identity == old(self).identity,
            !(old(self).identity.hello_sent || !connected) ==> final(self).identity.hello_sent
                && final(self).identity.my_player_id == old(self).identity.my_player_id
                && final(self).identity.input_sequence == old(self).identity.input_sequence
                && (m matches Some(h) && h matches ClientMessage::Hello { protocol_version, name, color_index }
                && protocol_version == PROTOCOL_VERSION
                && name@ == truncate_chars(save.player_name@, MAX_NAME_CHARS as nat)
                && color_index == save.preferred_color_index),
            final(self).lobby == old(self).lobby,
            final(self).local_role == old(self).local_role,
            final(self).chat.entries@ == old(self).chat.entries@,
            final(self).snapshots == old(self).snapshots,
    {
        if self.identity.hello_sent || !connected {
            return None;
        }
        self.identity.hello_sent = true;
        Some(hello_message(save))
    }

    /// Applies one reliable message from the host: the welcome gives this
    /// client its player id; a lobby snapshot replaces the seats; the match
    /// start sets the local role and enters the game; a chat line is logged.
    pub fn apply_reliable(&mut self, msg: ServerReliable) -> (ev: ClientEvent)
        ensures
            msg matches ServerReliable::Welcome { player_id } ==> ev == ClientEvent::Nothing
                && final(self).identity == (NetworkIdentity { my_player_id: Some(player_id), ..old(self).identity })
                && final(self).lobby == old(self).lobby && final(self).chat.entries@ == old(self).chat.entries@
                && final(self).local_role == old(self).local_role,
            msg matches ServerReliable::LobbySnapshot { players } ==> ev == ClientEvent::Nothing
                && lobby_after_snapshot(old(self).lobby, final(self).lobby, players@, old(self).identity.my_player_id)
                && final(self).identity == old(self).identity && final(self).chat.entries@ == old(self).chat.entries@
                && final(self).local_role == old(self).local_role,
            msg matches ServerReliable::MatchStarted { your_role } ==> ev == ClientEvent::EnterGame
                && final(self).local_role == Some(your_role)
                && final(self).identity == old(self).identity && final(self).lobby == old(self).lobby
                && final(self).chat.entries@ == old(self).chat.entries@,
            msg matches ServerReliable::Chat { player_id, name, text, is_ghost } ==> ev == ClientEvent::Nothing
                && final(self).chat.entries@ == spec_push_entry(old(self).chat.entries@, ChatEntry { player_id, name, text, is_ghost })
                && final(self).identity == old(self).identity && final(self).lobby == old(self).lobby
                && final(self).local_role == old(self).local_role,
            msg matches ServerReliable::Rejected { reason } ==> ev == (ClientEvent::Rejected { reason })
                && final(self).identity == old(self).identity && final(self).lobby == old(self).lobby
                && final(self).local_role == old(self).local_role && final(self).chat.entries@ == old(self).chat.entries@,
            msg is WorldSnapshot ==> ev == ClientEvent::Nothing
                && final(self).identity == old(self).identity && final(self).lobby == old(self).lobby
                && final(self).local_role == old(self).local_role && final(self).chat.entries@ == old(self).chat.entries@,
            final(self).snapshots == old(self).snapshots,
    {
        match msg {
            ServerReliable::Welcome { player_id } => {
                self.identity.my_player_id = Some(player_id);
                ClientEvent::Nothing
            },
            ServerReliable::LobbySnapshot { players } => {
                let me = self.identity.my_player_id;
                self.lobby.apply_snapshot(players, me);
                ClientEvent::Nothing
            },
            ServerReliable::MatchStarted { your_role } => {
                self.local_role = Some(your_role);
                ClientEvent::EnterGame
            },
            ServerReliable::Chat { player_id, name, text, is_ghost } => {
                self.chat.push(ChatEntry { player_id, name, text, is_ghost });
                ClientEvent::Nothing
            },
            ServerReliable::Rejected { reason } => ClientEvent::Rejected { reason },
            ServerReliable::WorldSnapshot => ClientEvent::Nothing,
        }
    }

    /// Applies a world snapshot unless it is older than the last one
    /// applied: the phase, sabotage, task bar and meeting ballot follow the
    /// host; the private part sets the local role, vote flag and emergencies.
    /// Returns whether it was applied.
    pub fn apply_snapshot(&mut self, world: &mut ClientWorld, snap: SnapshotCore) -> (applied: bool)
        ensures
            applied == (old(self).snapshots.last_applied matches Some(p) ==> spec_sequence_is_newer(snap.sequence, p)),
            !applied ==> final(self).snapshots == old(self).snapshots && final(self).local_role == old(self).local_role
                && final(world).phase == old(world).phase && final(world).sabotage == old(world).sabotage
                && final(world).tasks == old(world).tasks && final(world).meeting == old(world).meeting
                && final(world).emergencies_left == old(world).emergencies_left,
            applied ==> {
                &&& final(self).snapshots.last_applied == Some(snap.sequence)
                &&& final(world).phase == snap.phase
                &&& final(world).sabotage == (match snap.sabotage {
                    Some((kind, needed, done)) => ActiveSabotage { kind: Some(kind), fixes_needed: needed, fixes_done: done },
                    None => idle_sabotage(),
                })
                &&& final(world).tasks == (TaskBoard { completed: snap.tasks_completed, total: snap.tasks_total })
                &&& final(world).meeting.prompt == snap.meeting_prompt
                &&& final(world).meeting.options == snap.vote_options
                &&& final(world).meeting.result_text == snap.result_text
                &&& final(world).meeting.votes == old(world).meeting.votes
                &&& final(world).meeting.pending_eject == old(world).meeting.pending_eject
                &&& final(world).meeting.local_voted == (match snap.private { Some(p) => p.voted, None => old(world).meeting.local_voted })
                &&& final(self).local_role == (match snap.private { Some(p) => Some(p.role), None => old(self).local_role })
                &&& final(world).emergencies_left == (match snap.private { Some(p) => Some(p.emergencies_left), None => old(world).emergencies_left })
            },
            final(self).identity == old(self).identity,
            final(self).lobby == old(self).lobby,
            final(self).chat.entries@ == old(self).chat.entries@,
    {
        if !self.snapshots.accept(snap.sequence) {
            return false;
        }
        world.phase = snap.phase;
        match snap.sabotage {
            Some((kind, needed, done)) => {
                world.sabotage.kind = Some(kind);
                world.sabotage.fixes_needed = needed;
                world.sabotage.fixes_done = done;
            },
            None => world.sabotage.clear(),
        }
        world.tasks.completed = snap.tasks_completed;
        world.tasks.total = snap.tasks_total;
        world.meeting.prompt = snap.meeting_prompt;
        world.meeting.options = snap.vote_options;
        world.meeting.result_text = snap.result_text;
        if let Some(p) = snap.private {
            world.meeting.local_voted = p.voted;
            self.local_role = Some(p.role);
            world.emergencies_left = Some(p.emergencies_left);
        }
        true
    }
}

} // verus!
