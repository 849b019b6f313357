use std::collections::VecDeque;
use vstd::prelude::*;

use crate::players::PlayerSummary;
use crate::roles::GamePhase;
use crate::text::{is_control, pop_char, push_char, spec_is_control, take_chars, trim_white_space, trimmed, truncate_chars};

verus! {

/// Longest chat line, in characters (and the input buffer's byte budget).
pub const CHAT_MAX_LEN: usize = 120;
/// Entries kept in the chat log.
pub const CHAT_LOG_CAP: usize = 50;

/// One chat line.
#[derive(Clone, PartialEq, Eq, Debug)]
pub struct ChatEntry {
    pub player_id: u64,
    pub name: String,
    pub text: String,
    pub is_ghost: bool,
}

/// Matches the lines a viewer may read: a ghost's line only ghosts see.
pub open spec fn readable_by(viewer_ghost: bool) -> spec_fn(ChatEntry) -> bool {
    |e: ChatEntry| !e.is_ghost || viewer_ghost
}

impl ChatEntry {
    /// Whether this line is shown to a viewer: living players never see a
    /// ghost's line; ghosts see everything.
    pub fn visible_to(&self, viewer_ghost: bool) -> (r: bool)
        ensures
            r == readable_by(viewer_ghost)(*self),
    {
        !self.is_ghost || viewer_ghost
    }

    /// A line said by this player (a dead player speaks as a ghost).
    pub fn from_player(player: &PlayerSummary, text: String) -> (r: Self)
        ensures
            r == (ChatEntry { player_id: player.id, name: player.name, text, is_ghost: !player.alive }),
    {
        ChatEntry { player_id: player.id, name: player.name.clone(), text, is_ghost: !player.alive }
    }
}

/// The meeting chat log, oldest first.
pub struct ChatState {
    pub entries: VecDeque<ChatEntry>,
}

/// The log after adding `entry`: the oldest line is dropped when full.
pub open spec fn spec_push_entry(log: Seq<ChatEntry>, entry: ChatEntry) -> Seq<ChatEntry> {
    if log.len() >= CHAT_LOG_CAP { log.drop_first().push(entry) } else { log.push(entry) }
}

impl ChatState {
    pub fn new() -> (r: Self)
        ensures
            r.entries@.len() == 0,
    {
        ChatState { entries: VecDeque::new() }
    }

    /// Appends a line, dropping the oldest once the log is full.
    pub fn push(&mut self, entry: ChatEntry)
        ensures
            final(self).entries@ == spec_push_entry(old(self).entries@, entry),
    {
        if self.entries.len() >= CHAT_LOG_CAP {
            self.entries.pop_front();
            proof {
                assert(self.entries@ =~= old(self).entries@.drop_first());
            }
        }
        self.entries.push_back(entry);
    }

    /// The lines this viewer may read, oldest first.
    pub fn visible_entries(&self, viewer_ghost: bool) -> (r: Vec<ChatEntry>)
        ensures
            r@ == self.entries@.filter(readable_by(viewer_ghost)),
    {
        let mut out: Vec<ChatEntry> = Vec::new();
        let mut i: usize = 0;
        while i < self.entries.len()
            invariant
                i <= self.entries@.len(),
                out@ == self.entries@.take(i as int).filter(readable_by(viewer_ghost)),
            decreases self.entries@.len() - i,
        {
            proof {
                assert(self.entries@.take(i as int + 1).drop_last() =~= self.entries@.take(i as int));
                reveal_with_fuel(Seq::filter, 1);
            }
            let e = &self.entries[i];
            if e.visible_to(viewer_ghost) {
                out.push(ChatEntry { player_id: e.player_id, name: e.name.clone(), text: e.text.clone(), is_ghost: e.is_ghost });
            }
            i = i + 1;
        }
        proof {
            assert(self.entries@.take(i as int) =~= self.entries@);
        }
        out
    }

    /// Empties the log.
    pub fn clear(&mut self)
        ensures
            final(self).entries@.len() == 0,
    {
        self.entries = VecDeque::new();
    }
}

impl Default for ChatState {
    fn default() -> (r: Self)
        ensures
            r.entries@.len() == 0,
    {
        ChatState::new()
    }
}

/// A submitted chat line: trimmed, then cut to the maximum length.
pub open spec fn spec_sanitize(text: Seq<char>) -> Seq<char> {
    truncate_chars(trimmed(text), CHAT_MAX_LEN as nat)
}

/// Trims a chat line and cuts it to the maximum length.
pub fn sanitize_chat(text: &str) -> (r: String)
    ensures
        r@ == spec_sanitize(text@),
{
    let t = trim_white_space(text);
    take_chars(t.as_str(), CHAT_MAX_LEN)
}

/// Chat is open while a meeting is discussed or voted on.
pub fn chat_open(phase: GamePhase) -> (r: bool)
    ensures
        r == (phase is Meeting || phase is Voting),
{
    match phase {
        GamePhase::Meeting | GamePhase::Voting => true,
        _ => false,
    }
}

/// Who hears a line: a living player's line reaches everyone; a ghost's
/// line reaches only ghosts (a recipient not found counts as a ghost).
pub fn chat_delivered_to(sender_ghost: bool, recipient_ghost: Option<bool>) -> (r: bool)
    ensures
        r == (!sender_ghost || recipient_ghost != Some(false)),
{
    if !sender_ghost {
        return true;
    }
    match recipient_ghost {
        Some(g) => g,
        None => true,
    }
}

/// A chat packet at the host: accepted during a meeting, from a known
/// player, when something is left after sanitizing.
pub fn accept_remote_chat(phase: GamePhase, text: &str, sender: Option<&PlayerSummary>) -> (r: Option<ChatEntry>)
    ensures
        r is Some <==> (chat_open_spec(phase) && spec_sanitize(text@).len() > 0 && sender is Some),
        r matches Some(e) ==> e == (ChatEntry {
            player_id: sender.unwrap().id,
            name: sender.unwrap().name,
            text: e.text,
            is_ghost: !sender.unwrap().alive,
        }) && e.text@ == spec_sanitize(text@),
{
    if !chat_open(phase) {
        return None;
    }
    let clean = sanitize_chat(text);
    if clean.as_str().is_empty() {
        return None;
    }
    match sender {
        Some(p) => Some(ChatEntry::from_player(p, clean)),
        None => None,
    }
}

pub open spec fn chat_open_spec(phase: GamePhase) -> bool {
    phase is Meeting || phase is Voting
}

/// Keys that edit the chat line.
#[derive(Clone, PartialEq, Eq, Debug)]
pub enum ChatKey {
    Enter,
    Backspace,
    Space,
    Character(String),
    Other,
}

/// The line being typed.
pub struct ChatInputBuffer(pub String);

/// Byte length of the UTF-8 encoding.
pub open spec fn utf8_len(s: Seq<char>) -> nat {
    vstd::utf8::encode_utf8(s).len()
}

/// Typing `input` into `buf`: control characters are ignored, and a
/// character is taken only while the line is shorter than the byte budget.
pub open spec fn spec_type_chars(buf: Seq<char>, input: Seq<char>) -> Seq<char>
    decreases input.len(),
{
    if input.len() == 0 {
        buf
    } else {
        let c = input[0];
        let next = if !spec_is_control(c) && utf8_len(buf) < CHAT_MAX_LEN { buf.push(c) } else { buf };
        spec_type_chars(next, input.drop_first())
    }
}

impl ChatInputBuffer {
    pub fn new() -> (r: Self)
        ensures
            r.0@.len() == 0,
    {
        ChatInputBuffer(String::new())
    }

    fn byte_len(&self) -> (r: usize)
        ensures
            r == utf8_len(self.0@),
    {
        self.0.as_str().as_bytes().len()
    }

    /// Applies one key. Enter submits the sanitized line (when not empty)
    /// and clears the buffer; Backspace removes the last character; Space
    /// and characters are added within the budget.
    pub fn apply_key(&mut self, key: ChatKey) -> (submitted: Option<String>)
        ensures
            key is Enter ==> final(self).0@.len() == 0 && (submitted is Some <==> spec_sanitize(old(self).0@).len() > 0)
                && (submitted matches Some(t) ==> t@ == spec_sanitize(old(self).0@)),
            key is Backspace ==> submitted is None && final(self).0@ == (if old(self).0@.len() > 0 { old(self).0@.drop_last() } else { old(self).0@ }),
            key is Space ==> submitted is None && final(self).0@ == (if utf8_len(old(self).0@) < CHAT_MAX_LEN { old(self).0@.push(' ') } else { old(self).0@ }),
            key matches ChatKey::Character(s) ==> submitted is None && final(self).0@ == spec_type_chars(old(self).0@, s@),
            key is Other ==> submitted is None && final(self).0@ == old(self).0@,
    {
        match key {
            ChatKey::Enter => {
                let text = sanitize_chat(self.0.as_str());
                self.0 = String::new();
                if text.as_str().is_empty() {
                    None
                } else {
                    Some(text)
                }
            },
            ChatKey::Backspace => {
                pop_char(&mut self.0);
                None
            },
            ChatKey::Space => {
                if self.byte_len() < CHAT_MAX_LEN {
                    push_char(&mut self.0, ' ');
                }
                None
            },
            ChatKey::Character(input) => {
                let n = input.as_str().unicode_len();
                let mut i: usize = 0;
                proof {
                    assert(input@.skip(0) =~= input@);
                }
                while i < n
                    invariant
                        n == input@.len(),
                        i <= n,
                        spec_type_chars(self.0@, input@.skip(i as int)) == spec_type_chars(old(self).0@, input@),
                    decreases n - i,
                {
                    let c = input.as_str().get_char(i);
                    proof {
                        assert(input@.skip(i as int)[0] == c);
                        assert(input@.skip(i as int).drop_first() =~= input@.skip(i as int + 1));
                    }
                    if !is_control(c) && self.byte_len() < CHAT_MAX_LEN {
                        push_char(&mut self.0, c);
                    }
                    i = i + 1;
                }
                proof {
                    assert(input@.skip(n as int).len() == 0);
                }
                None
            },
            ChatKey::Other => None,
        }
    }
}

} // verus!
