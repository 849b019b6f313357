use vstd::prelude::*;

use crate::roles::RuntimeMode;
use crate::rules::MatchConfig;
use crate::save::{PLAYER_COLOR_COUNT, SaveData};
use crate::text::{decimal, push_decimal, take_chars, truncate_chars};

verus! {

/// Longest player name accepted from the network.
pub const MAX_NAME_CHARS: usize = 16;

/// One seat in the pre-match lobby.
#[derive(Clone, PartialEq, Eq, Debug)]
pub struct LobbySlot {
    pub id: u64,
    pub name: String,
    pub color_index: u8,
    pub ready: bool,
    pub is_local: bool,
    pub is_host: bool,
    pub is_bot: bool,
}

/// The lobby as this process sees it.
#[derive(Clone, PartialEq, Eq, Debug)]
pub struct LobbyState {
    pub slots: Vec<LobbySlot>,
    pub local_ready: bool,
    pub is_host: bool,
}

/// A lobby seat as broadcast by the host.
#[derive(Clone, PartialEq, Eq, Debug)]
pub struct NetLobbyPlayer {
    pub player_id: u64,
    pub name: String,
    pub color_index: u8,
    pub ready: bool,
    pub is_host: bool,
}

/// Outcome of a client hello at the host.
#[derive(Clone, Copy, PartialEq, Eq, Structural, Debug)]
pub enum HelloOutcome {
    /// Wrong protocol version: reject and disconnect.
    ProtocolMismatch,
    /// Authenticated, but no seat is left: disconnect.
    LobbyFull,
    /// Authenticated and seated.
    Joined,
    /// Authenticated again; name and color refreshed.
    Updated,
}

/// Display name of the `i`-th offline bot.
pub open spec fn bot_name(i: u64) -> Seq<char> {
    "Agent-"@ + decimal((i + 2) as nat)
}

/// Matches seats of other players than `id`.
pub open spec fn slot_not(id: u64) -> spec_fn(LobbySlot) -> bool {
    |s: LobbySlot| s.id != id
}

/// Whether the slot list holds this id.
pub open spec fn has_slot(slots: Seq<LobbySlot>, id: u64) -> bool {
    exists|k: int| 0 <= k < slots.len() && (#[trigger] slots[k]).id == id
}

/// Index of the first slot with this id.
pub open spec fn first_slot(slots: Seq<LobbySlot>, id: u64) -> int
    decreases slots.len(),
{
    if slots.len() == 0 {
        -1
    } else if first_slot(slots.drop_last(), id) >= 0 {
        first_slot(slots.drop_last(), id)
    } else if slots.last().id == id {
        slots.len() - 1
    } else {
        -1
    }
}

/// The seats after the ready flag of `id`'s seat (the first with its id) is
/// set to `ready`; unchanged where it has none.
pub open spec fn slots_with_ready(slots: Seq<LobbySlot>, id: u64, ready: bool) -> Seq<LobbySlot> {
    let k = first_slot(slots, id);
    if k < 0 {
        slots
    } else {
        slots.update(k, LobbySlot { ready, ..slots[k] })
    }
}

/// What an accepted hello of a client with a free seat, or one already
/// seated, does to the seats: a newcomer is seated last (name cut to the
/// limit, not ready, remote), a seated client gets name and color refreshed.
pub open spec fn seated_by_hello(before: Seq<LobbySlot>, after: Seq<LobbySlot>, id: u64, name: Seq<char>, color_index: u8) -> bool {
    if has_slot(before, id) {
        let k = first_slot(before, id);
        &&& after.len() == before.len()
        &&& forall|j: int| 0 <= j < before.len() && j != k ==> after[j] == before[j]
        &&& after[k].name@ == truncate_chars(name, MAX_NAME_CHARS as nat)
        &&& after[k].color_index == color_index
        &&& after[k].id == id
        &&& after[k].ready == before[k].ready
        &&& after[k].is_local == before[k].is_local
        &&& after[k].is_host == before[k].is_host
        &&& after[k].is_bot == before[k].is_bot
    } else {
        &&& after == before.push(LobbySlot {
            id,
            name: after.last().name,
            color_index,
            ready: false,
            is_local: false,
            is_host: false,
            is_bot: false,
        })
        &&& after.last().name@ == truncate_chars(name, MAX_NAME_CHARS as nat)
    }
}

pub proof fn lemma_first_slot(slots: Seq<LobbySlot>, id: u64)
    ensures
        -1 <= first_slot(slots, id) < slots.len(),
        first_slot(slots, id) >= 0 ==> slots[first_slot(slots, id)].id == id
            && forall|j: int| 0 <= j < first_slot(slots, id) ==> slots[j].id != id,
        first_slot(slots, id) < 0 <==> !has_slot(slots, id),
    decreases slots.len(),
{
    if slots.len() > 0 {
        lemma_first_slot(slots.drop_last(), id);
        if first_slot(slots.drop_last(), id) >= 0 {
            let f = first_slot(slots.drop_last(), id);
            assert(slots.drop_last()[f] == slots[f]);
            assert forall|j: int| 0 <= j < f implies slots[j].id != id by {
                assert(slots.drop_last()[j] == slots[j]);
            }
            assert(has_slot(slots, id));
        } else {
            assert forall|j: int| 0 <= j < slots.len() - 1 implies slots[j].id != id by {
                assert(slots.drop_last()[j] == slots[j]);
                if slots[j].id == id {
                    assert(has_slot(slots.drop_last(), id));
                }
            }
        }
    }
}

/// Finds the first slot with this id.
fn find_slot(slots: &Vec<LobbySlot>, id: u64) -> (r: Option<usize>)
    ensures
        r matches Some(k) ==> k as int == first_slot(slots@, id) && k < slots@.len(),
        r is None ==> first_slot(slots@, id) < 0,
{
    proof {
        lemma_first_slot(slots@, id);
    }
    let mut k: usize = 0;
    while k < slots.len()
        invariant
            k <= slots@.len(),
            forall|j: int| 0 <= j < k ==> slots@[j].id != id,
            -1 <= first_slot(slots@, id) < slots@.len(),
            first_slot(slots@, id) >= 0 ==> slots@[first_slot(slots@, id)].id == id
                && forall|j: int| 0 <= j < first_slot(slots@, id) ==> slots@[j].id != id,
            first_slot(slots@, id) < 0 <==> !has_slot(slots@, id),
        decreases slots@.len() - k,
    {
        if slots[k].id == id {
            return Some(k);
        }
        k = k + 1;
    }
    None
}

/// Index of the first local slot, if any.
pub open spec fn first_local(slots: Seq<LobbySlot>) -> int
    decreases slots.len(),
{
    if slots.len() == 0 {
        -1
    } else if first_local(slots.drop_last()) >= 0 {
        first_local(slots.drop_last())
    } else if slots.last().is_local {
        slots.len() - 1
    } else {
        -1
    }
}

pub proof fn lemma_first_local(slots: Seq<LobbySlot>)
    ensures
        -1 <= first_local(slots) < slots.len(),
        first_local(slots) >= 0 ==> slots[first_local(slots)].is_local
            && forall|j: int| 0 <= j < first_local(slots) ==> !slots[j].is_local,
        first_local(slots) < 0 ==> forall|j: int| 0 <= j < slots.len() ==> !slots[j].is_local,
    decreases slots.len(),
{
    if slots.len() > 0 {
        lemma_first_local(slots.drop_last());
        assert forall|j: int| 0 <= j < slots.len() - 1 implies slots.drop_last()[j] == slots[j] by {}
    }
}

fn find_local(slots: &Vec<LobbySlot>) -> (r: Option<usize>)
    ensures
        r matches Some(k) ==> k as int == first_local(slots@) && k < slots@.len(),
        r is None ==> first_local(slots@) < 0,
{
    proof {
        lemma_first_local(slots@);
    }
    let mut k: usize = 0;
    while k < slots.len()
        invariant
            k <= slots@.len(),
            forall|j: int| 0 <= j < k ==> !slots@[j].is_local,
            -1 <= first_local(slots@) < slots@.len(),
            first_local(slots@) >= 0 ==> slots@[first_local(slots@)].is_local
                && forall|j: int| 0 <= j < first_local(slots@) ==> !slots@[j].is_local,
            first_local(slots@) < 0 ==> forall|j: int| 0 <= j < slots@.len() ==> !slots@[j].is_local,
        decreases slots@.len() - k,
    {
        if slots[k].is_local {
            return Some(k);
        }
        k = k + 1;
    }
    None
}

impl LobbySlot {
    /// A copy of this seat.
    pub fn duplicate(&self) -> (r: Self)
        ensures
            r == *self,
    {
        LobbySlot {
            id: self.id,
            name: self.name.clone(),
            color_index: self.color_index,
            ready: self.ready,
            is_local: self.is_local,
            is_host: self.is_host,
            is_bot: self.is_bot,
        }
    }
}

/// Fewest players needed to start: two crew per impostor plus one, at least three.
pub open spec fn spec_minimum_players(impostor_count: u8) -> int {
    if 2 * impostor_count + 1 > 3 { 2 * impostor_count + 1 } else { 3 }
}

/// Fewest players needed to start a match.
pub fn minimum_players(impostor_count: u8) -> (r: usize)
    ensures
        r == spec_minimum_players(impostor_count),
{
    let m = (impostor_count as usize) * 2 + 1;
    if m > 3 { m } else { 3 }
}

impl LobbyState {
    pub fn new() -> (r: Self)
        ensures
            r.slots@.len() == 0,
            !r.local_ready,
            !r.is_host,
    {
        LobbyState { slots: Vec::new(), local_ready: false, is_host: false }
    }

    /// Fills the lobby on entry: offline, the local host plus bots up to
    /// the player cap; hosting online, the local host alone; as a client,
    /// nothing until the host's snapshot arrives.
    pub fn setup(&mut self, save: &SaveData, mode: RuntimeMode, cfg: &MatchConfig)
        ensures
            !final(self).local_ready,
            final(self).is_host == !(mode is Client),
            mode is Client ==> final(self).slots@.len() == 0,
            !(mode is Client) ==> {
                &&& final(self).slots@.len() >= 1
                &&& final(self).slots@[0] == (LobbySlot {
                    id: 1,
                    name: save.player_name,
                    color_index: save.preferred_color_index,
                    ready: false,
                    is_local: true,
                    is_host: true,
                    is_bot: false,
                })
            },
            mode is Host ==> final(self).slots@.len() == 1,
            mode is Local ==> final(self).slots@.len() == 1 + if cfg.bot_count as int <= cfg.max_players as int - 1 {
                cfg.bot_count as int
            } else if cfg.max_players as int >= 1 {
                cfg.max_players as int - 1
            } else {
                0
            },
            mode is Local ==> forall|k: int| 1 <= k < final(self).slots@.len() ==> {
                let s = #[trigger] final(self).slots@[k];
                &&& s.id == 10 + (k - 1)
                &&& s.name@ == bot_name((k - 1) as u64)
                &&& s.color_index == (save.preferred_color_index + k) % (PLAYER_COLOR_COUNT as int)
                &&& s.ready && !s.is_local && !s.is_host && s.is_bot
            },
    {
        self.slots = Vec::new();
        self.local_ready = false;
        match mode {
            RuntimeMode::Client => {
                self.is_host = false;
                return;
            },
            _ => {},
        }
        self.is_host = true;
        self.slots.push(LobbySlot {
            id: 1,
            name: save.player_name.clone(),
            color_index: save.preferred_color_index,
            ready: false,
            is_local: true,
            is_host: true,
            is_bot: false,
        });
        if let RuntimeMode::Host = mode {
            return;
        }
        let max = cfg.max_players as u64;
        let bots: u64 = if max == 0 {
            0
        } else if (cfg.bot_count as u64) <= max - 1 {
            cfg.bot_count as u64
        } else {
            max - 1
        };
        let mut i: u64 = 0;
        while i < bots
            invariant
                i <= bots <= 255,
                mode is Local,
                self.is_host && !self.local_ready,
                self.slots@.len() == 1 + i,
                self.slots@[0] == (LobbySlot {
                    id: 1,
                    name: save.player_name,
                    color_index: save.preferred_color_index,
                    ready: false,
                    is_local: true,
                    is_host: true,
                    is_bot: false,
                }),
                forall|k: int| 1 <= k < self.slots@.len() ==> {
                    let s = #[trigger] self.slots@[k];
                    &&& s.id == 10 + (k - 1)
                    &&& s.name@ == bot_name((k - 1) as u64)
                    &&& s.color_index == (save.preferred_color_index + k) % (PLAYER_COLOR_COUNT as int)
                    &&& s.ready && !s.is_local && !s.is_host && s.is_bot
                },
            decreases bots - i,
        {
            let mut name = String::from_str("Agent-");
            push_decimal(&mut name, i + 2);
            proof {
                reveal_strlit("Agent-");
            }
            let color = ((save.preferred_color_index as u64 + 1 + i) % (PLAYER_COLOR_COUNT as u64)) as u8;
            self.slots.push(LobbySlot {
                id: 10 + i,
                name,
                color_index: color,
                ready: true,
                is_local: false,
                is_host: false,
                is_bot: true,
            });
            i = i + 1;
        }
    }

    /// The host may start when it is ready, enough players are seated and,
    /// online, every remote player is ready (offline bots are always ready).
    pub fn can_start_match(&self, mode: RuntimeMode, cfg: &MatchConfig) -> (r: bool)
        ensures
            r == (self.is_host && self.local_ready && self.slots@.len() >= spec_minimum_players(cfg.impostor_count)
                && (mode is Local || forall|k: int| 0 <= k < self.slots@.len() ==> (#[trigger] self.slots@[k]).is_local || self.slots@[k].ready)),
    {
        if !self.is_host || !self.local_ready {
            return false;
        }
        if self.slots.len() < minimum_players(cfg.impostor_count) {
            return false;
        }
        if let RuntimeMode::Local = mode {
            return true;
        }
        let mut k: usize = 0;
        while k < self.slots.len()
            invariant
                k <= self.slots@.len(),
                self.is_host && self.local_ready,
                self.slots@.len() >= spec_minimum_players(cfg.impostor_count),
                !(mode is Local),
                forall|j: int| 0 <= j < k ==> (#[trigger] self.slots@[j]).is_local || self.slots@[j].ready,
            decreases self.slots@.len() - k,
        {
            if !self.slots[k].is_local && !self.slots[k].ready {
                assert(!(self.slots@[k as int].is_local || self.slots@[k as int].ready));
                return false;
            }
            k = k + 1;
        }
        true
    }

    /// A remote player connected: admitted only while the lobby screen is
    /// up and a seat is free.
    pub fn accepts_connection(&self, in_lobby: bool, cfg: &MatchConfig) -> (r: bool)
        ensures
            r == (in_lobby && self.slots@.len() < cfg.max_players),
    {
        in_lobby && self.slots.len() < cfg.max_players as usize
    }

    /// A client's hello at the host. With the right protocol version the
    /// client is authenticated; a newcomer gets a seat (name cut to 16
    /// characters, not ready) if one is free, a returning player gets its
    /// name and color refreshed.
    pub fn apply_hello(&mut self, client_id: u64, protocol_version: u32, expected_version: u32, name: &str, color_index: u8, cfg: &MatchConfig) -> (r: HelloOutcome)
        ensures
            protocol_version != expected_version ==> r == HelloOutcome::ProtocolMismatch && *final(self) == *old(self),
            protocol_version == expected_version && !has_slot(old(self).slots@, client_id) && old(self).slots@.len() >= cfg.max_players
                ==> r == HelloOutcome::LobbyFull && *final(self) == *old(self),
            protocol_version == expected_version && !has_slot(old(self).slots@, client_id) && old(self).slots@.len() < cfg.max_players
                ==> r == HelloOutcome::Joined && final(self).slots@ == old(self).slots@.push(LobbySlot {
                    id: client_id,
                    name: final(self).slots@.last().name,
                    color_index,
                    ready: false,
                    is_local: false,
                    is_host: false,
                    is_bot: false,
                }) && final(self).slots@.last().name@ == truncate_chars(name@, MAX_NAME_CHARS as nat),
            protocol_version == expected_version && has_slot(old(self).slots@, client_id) ==> {
                let k = first_slot(old(self).slots@, client_id);
                &&& r == HelloOutcome::Updated
                &&& final(self).slots@.len() == old(self).slots@.len()
                &&& forall|j: int| 0 <= j < old(self).slots@.len() && j != k ==> final(self).slots@[j] == old(self).slots@[j]
                &&& final(self).slots@[k].name@ == truncate_chars(name@, MAX_NAME_CHARS as nat)
                &&& final(self).slots@[k].color_index == color_index
                &&& final(self).slots@[k].id == client_id
                &&& final(self).slots@[k].ready == old(self).slots@[k].ready
                &&& final(self).slots@[k].is_local == old(self).slots@[k].is_local
                &&& final(self).slots@[k].is_host == old(self).slots@[k].is_host
                &&& final(self).slots@[k].is_bot == old(self).slots@[k].is_bot
            },
            final(self).local_ready == old(self).local_ready,
            final(self).is_host == old(self).is_host,
    {
        if protocol_version != expected_version {
            return HelloOutcome::ProtocolMismatch;
        }
        match find_slot(&self.slots, client_id) {
            None => {
                proof {
                    lemma_first_slot(self.slots@, client_id);
                }
                if self.slots.len() >= cfg.max_players as usize {
                    return HelloOutcome::LobbyFull;
                }
                self.slots.push(LobbySlot {
                    id: client_id,
                    name: take_chars(name, MAX_NAME_CHARS),
                    color_index,
                    ready: false,
                    is_local: false,
                    is_host: false,
                    is_bot: false,
                });
                HelloOutcome::Joined
            },
            Some(k) => {
                proof {
                    lemma_first_slot(self.slots@, client_id);
                }
                let new_name = take_chars(name, MAX_NAME_CHARS);
                self.slots[k].name = new_name;
                self.slots[k].color_index = color_index;
                HelloOutcome::Updated
            },
        }
    }

    /// Removes every seat of a player who left.
    pub fn remove_player(&mut self, id: u64)
        ensures
            final(self).slots@ == old(self).slots@.filter(slot_not(id)),
            final(self).local_ready == old(self).local_ready,
            final(self).is_host == old(self).is_host,
    {
        let mut kept: Vec<LobbySlot> = Vec::new();
        let mut k: usize = 0;
        while k < self.slots.len()
            invariant
                k <= self.slots@.len(),
                self.slots@ == old(self).slots@,
                kept@ == self.slots@.take(k as int).filter(slot_not(id)),
            decreases self.slots@.len() - k,
        {
            proof {
                assert(self.slots@.take(k as int + 1).drop_last() =~= self.slots@.take(k as int));
                reveal_with_fuel(Seq::filter, 1);
            }
            if self.slots[k].id != id {
                kept.push(self.slots[k].duplicate());
            }
            k = k + 1;
        }
        proof {
            assert(self.slots@.take(self.slots@.len() as int) =~= self.slots@);
        }
        self.slots = kept;
        proof {
            reveal_with_fuel(Seq::filter, 1);
        }
    }

    /// Sets the ready flag of this player's seat (the first with its id).
    pub fn set_ready(&mut self, id: u64, ready: bool)
        ensures
            final(self).slots@ == slots_with_ready(old(self).slots@, id, ready),
            final(self).local_ready == old(self).local_ready,
            final(self).is_host == old(self).is_host,
    {
        if let Some(k) = find_slot(&self.slots, id) {
            self.slots[k].ready = ready;
            proof {
                assert(self.slots@ =~= old(self).slots@.update(k as int, LobbySlot { ready, ..old(self).slots@[k as int] }));
            }
        }
    }

    /// Flips the local ready flag and mirrors it on the local seat.
    pub fn toggle_local_ready(&mut self)
        ensures
            final(self).local_ready == !old(self).local_ready,
            first_local(old(self).slots@) < 0 ==> final(self).slots@ == old(self).slots@,
            first_local(old(self).slots@) >= 0 ==> final(self).slots@ == old(self).slots@.update(
                first_local(old(self).slots@),
                LobbySlot { ready: !old(self).local_ready, ..old(self).slots@[first_local(old(self).slots@)] },
            ),
            final(self).is_host == old(self).is_host,
    {
        self.local_ready = !self.local_ready;
        let ready = self.local_ready;
        if let Some(k) = find_local(&self.slots) {
            self.slots[k].ready = ready;
            proof {
                assert(self.slots@ =~= old(self).slots@.update(k as int, LobbySlot { ready, ..old(self).slots@[k as int] }));
            }
        }
    }

    /// Mirrors a new color choice on the local seat.
    pub fn set_local_color(&mut self, color_index: u8)
        ensures
            first_local(old(self).slots@) < 0 ==> final(self).slots@ == old(self).slots@,
            first_local(old(self).slots@) >= 0 ==> final(self).slots@ == old(self).slots@.update(
                first_local(old(self).slots@),
                LobbySlot { color_index, ..old(self).slots@[first_local(old(self).slots@)] },
            ),
            final(self).local_ready == old(self).local_ready,
            final(self).is_host == old(self).is_host,
    {
        if let Some(k) = find_local(&self.slots) {
            self.slots[k].color_index = color_index;
            proof {
                assert(self.slots@ =~= old(self).slots@.update(k as int, LobbySlot { color_index, ..old(self).slots@[k as int] }));
            }
        }
    }

    /// The seats as broadcast to clients.
    pub fn snapshot(&self) -> (r: Vec<NetLobbyPlayer>)
        ensures
            r@.len() == self.slots@.len(),
            forall|k: int| 0 <= k < r@.len() ==> #[trigger] r@[k] == (NetLobbyPlayer {
                player_id: self.slots@[k].id,
                name: self.slots@[k].name,
                color_index: self.slots@[k].color_index,
                ready: self.slots@[k].ready,
                is_host: self.slots@[k].is_host,
            }),
    {
        let mut r: Vec<NetLobbyPlayer> = Vec::new();
        let mut k: usize = 0;
        while k < self.slots.len()
            invariant
                k <= self.slots@.len(),
                r@.len() == k,
                forall|j: int| 0 <= j < k ==> #[trigger] r@[j] == (NetLobbyPlayer {
                    player_id: self.slots@[j].id,
                    name: self.slots@[j].name,
                    color_index: self.slots@[j].color_index,
                    ready: self.slots@[j].ready,
                    is_host: self.slots@[j].is_host,
                }),
            decreases self.slots@.len() - k,
        {
            let s = &self.slots[k];
            r.push(NetLobbyPlayer {
                player_id: s.id,
                name: s.name.clone(),
                color_index: s.color_index,
                ready: s.ready,
                is_host: s.is_host,
            });
            k = k + 1;
        }
        r
    }

    /// A client adopts the host's lobby snapshot: the seats are replaced and
    /// its own seat is the one with its player id. The local ready toggle is
    /// kept as it is, so that a change the player made is still sent to the
    /// host as a ready message.
    pub fn apply_snapshot(&mut self, players: Vec<NetLobbyPlayer>, my_player_id: Option<u64>)
        ensures
            !final(self).is_host,
            final(self).slots@.len() == players@.len(),
            forall|k: int| 0 <= k < players@.len() ==> #[trigger] final(self).slots@[k] == (LobbySlot {
                id: players@[k].player_id,
                name: players@[k].name,
                color_index: players@[k].color_index,
                ready: players@[k].ready,
                is_local: my_player_id == Some(players@[k].player_id),
                is_host: players@[k].is_host,
                is_bot: false,
            }),
            final(self).local_ready == old(self).local_ready,
    {
        self.is_host = false;
        let mut slots: Vec<LobbySlot> = Vec::new();
        let mut k: usize = 0;
        while k < players.len()
            invariant
                k <= players@.len(),
                slots@.len() == k,
                forall|j: int| 0 <= j < k ==> #[trigger] slots@[j] == (LobbySlot {
                    id: players@[j].player_id,
                    name: players@[j].name,
                    color_index: players@[j].color_index,
                    ready: players@[j].ready,
                    is_local: my_player_id == Some(players@[j].player_id),
                    is_host: players@[j].is_host,
                    is_bot: false,
                }),
            decreases players@.len() - k,
        {
            let p = &players[k];
            let is_local = match my_player_id {
                Some(id) => id == p.player_id,
                None => false,
            };
            slots.push(LobbySlot {
                id: p.player_id,
                name: p.name.clone(),
                color_index: p.color_index,
                ready: p.ready,
                is_local,
                is_host: p.is_host,
                is_bot: false,
            });
            k = k + 1;
        }
        self.slots = slots;
    }
}

impl Default for LobbyState {
    fn default() -> (r: Self)
        ensures
            r.slots@.len() == 0,
            !r.local_ready,
            !r.is_host,
    {
        LobbyState::new()
    }
}

} // verus!
