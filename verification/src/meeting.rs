use vstd::prelude::*;

use crate::chance::{random_index, random_ratio};
use crate::players::{PlayerSummary, has_living_player, roster_has_living, roster_has_living_bot};
use crate::roles::GamePhase;
use crate::util::{first_where, lemma_first_where_prefix, lemma_first_where_step};

verus! {

/// One entry of the meeting ballot.
#[derive(Clone, PartialEq, Eq, Debug)]
pub struct VoteOption {
    pub player_id: u64,
    pub name: String,
    pub dead: bool,
}

/// A cast vote: the voter and `Some(target)`, or `None` for a skip.
pub type Vote = (u64, Option<u64>);

/// Meeting and ballot state, owned by the authority.
#[derive(Clone, PartialEq, Eq, Debug)]
pub struct MeetingState {
    pub prompt: String,
    pub options: Vec<VoteOption>,
    /// Votes in the order they were cast; each voter appears once.
    pub votes: Vec<Vote>,
    pub local_voted: bool,
    pub result_text: String,
    /// The player to eject when `Results` begins.
    pub pending_eject: Option<u64>,
}

/// Commands that drive a meeting.
#[derive(Clone, Copy, PartialEq, Eq, Structural, Debug)]
pub enum MeetingCommand {
    Emergency { actor_id: u64 },
    Vote { voter_id: u64, target: u64 },
    Skip { voter_id: u64 },
}

/// Matches the ballot option of this player.
pub open spec fn option_is(id: u64) -> spec_fn(VoteOption) -> bool {
    |o: VoteOption| o.player_id == id
}

/// Matches votes cast by this voter.
pub open spec fn voter_is(id: u64) -> spec_fn(Vote) -> bool {
    |v: Vote| v.0 == id
}

/// Every voter appears at most once.
pub open spec fn distinct_voters(votes: Seq<Vote>) -> bool {
    forall|i: int, j: int| 0 <= i < votes.len() && 0 <= j < votes.len() && i != j ==> (#[trigger] votes[i]).0 != (#[trigger] votes[j]).0
}

pub open spec fn has_voted_in(votes: Seq<Vote>, id: u64) -> bool {
    exists|i: int| 0 <= i < votes.len() && (#[trigger] votes[i]).0 == id
}

pub open spec fn living_option_in(options: Seq<VoteOption>, id: u64) -> bool {
    exists|i: int| 0 <= i < options.len() && (#[trigger] options[i]).player_id == id && !options[i].dead
}

/// Number of votes for `target` (`None` counts skips).
pub open spec fn vote_count(votes: Seq<Vote>, target: Option<u64>) -> nat
    decreases votes.len(),
{
    if votes.len() == 0 {
        0
    } else {
        vote_count(votes.drop_last(), target) + if votes.last().1 == target { 1nat } else { 0nat }
    }
}

/// `target` received more votes than any other choice (skip included).
pub open spec fn is_strict_leader(votes: Seq<Vote>, target: Option<u64>) -> bool {
    &&& vote_count(votes, target) > 0
    &&& forall|t: Option<u64>| t != target ==> #[trigger] vote_count(votes, t) < vote_count(votes, target)
}

/// The ejected player: the unique strict plurality winner, when it is a
/// player rather than a skip. Ties, skips and empty ballots eject nobody.
pub open spec fn spec_eject(votes: Seq<Vote>) -> Option<u64> {
    if exists|id: u64| is_strict_leader(votes, Some(id)) {
        Some(choose|id: u64| is_strict_leader(votes, Some(id)))
    } else {
        None
    }
}

/// Name shown for an ejected player: its ballot name, or "Unknown".
pub open spec fn option_name(options: Seq<VoteOption>, id: u64) -> Seq<char> {
    match first_where(options, option_is(id)) {
        Some(i) => options[i].name@,
        None => "Unknown"@,
    }
}

pub open spec fn spec_result_text(options: Seq<VoteOption>, votes: Seq<Vote>) -> Seq<char> {
    match spec_eject(votes) {
        Some(id) => option_name(options, id) + " was ejected."@,
        None => "No one was ejected. (Skip / Tie)"@,
    }
}

pub proof fn lemma_vote_count_bound(votes: Seq<Vote>, t: Option<u64>)
    ensures
        vote_count(votes, t) <= votes.len(),
    decreases votes.len(),
{
    if votes.len() > 0 {
        lemma_vote_count_bound(votes.drop_last(), t);
    }
}

pub proof fn lemma_vote_count_push(votes: Seq<Vote>, v: Vote, t: Option<u64>)
    ensures
        vote_count(votes.push(v), t) == vote_count(votes, t) + if v.1 == t { 1nat } else { 0nat },
{
    assert(votes.push(v).drop_last() =~= votes);
}

/// Two different choices cannot both be strict leaders.
pub proof fn lemma_strict_leader_unique(votes: Seq<Vote>, a: Option<u64>, b: Option<u64>)
    requires
        is_strict_leader(votes, a),
        is_strict_leader(votes, b),
    ensures
        a == b,
{
    if a != b {
        assert(vote_count(votes, b) < vote_count(votes, a));
        assert(vote_count(votes, a) < vote_count(votes, b));
    }
}

fn same_target(a: Option<u64>, b: Option<u64>) -> (r: bool)
    ensures
        r == (a == b),
{
    match (a, b) {
        (None, None) => true,
        (Some(x), Some(y)) => x == y,
        _ => false,
    }
}

/// Index of the tally entry for `t`.
fn find_tally(tallies: &Vec<(Option<u64>, u32)>, t: Option<u64>) -> (r: Option<usize>)
    ensures
        r matches Some(k) ==> k < tallies@.len() && tallies@[k as int].0 == t,
        r is None ==> forall|k: int| 0 <= k < tallies@.len() ==> tallies@[k].0 != t,
{
    let mut k: usize = 0;
    while k < tallies.len()
        invariant
            k <= tallies@.len(),
            forall|j: int| 0 <= j < k ==> tallies@[j].0 != t,
        decreases tallies@.len() - k,
    {
        if same_target(tallies[k].0, t) {
            return Some(k);
        }
        k = k + 1;
    }
    None
}

/// Counts the votes per choice: one entry per distinct choice with its count.
fn tally_votes(votes: &Vec<Vote>) -> (tallies: Vec<(Option<u64>, u32)>)
    requires
        votes@.len() <= u32::MAX,
    ensures
        forall|k: int| 0 <= k < tallies@.len() ==> tallies@[k].1 == vote_count(votes@, #[trigger] tallies@[k].0),
        forall|a: int, b: int| 0 <= a < tallies@.len() && 0 <= b < tallies@.len() && a != b ==> (#[trigger] tallies@[a]).0 != (#[trigger] tallies@[b]).0,
        forall|t: Option<u64>| #[trigger] vote_count(votes@, t) > 0 ==> exists|k: int| 0 <= k < tallies@.len() && tallies@[k].0 == t,
{
    let mut tallies: Vec<(Option<u64>, u32)> = Vec::new();
    let mut i: usize = 0;
    while i < votes.len()
        invariant
            i <= votes@.len() <= u32::MAX,
            forall|k: int| 0 <= k < tallies@.len() ==> tallies@[k].1 == vote_count(votes@.take(i as int), #[trigger] tallies@[k].0),
            forall|a: int, b: int| 0 <= a < tallies@.len() && 0 <= b < tallies@.len() && a != b ==> (#[trigger] tallies@[a]).0 != (#[trigger] tallies@[b]).0,
            forall|t: Option<u64>| #[trigger] vote_count(votes@.take(i as int), t) > 0 ==> exists|k: int| 0 <= k < tallies@.len() && tallies@[k].0 == t,
        decreases votes@.len() - i,
    {
        let t = votes[i].1;
        let ghost prev = votes@.take(i as int);
        let ghost before_t = tallies@;
        proof {
            assert(votes@.take(i as int + 1) =~= prev.push(votes@[i as int]));
            assert forall|u: Option<u64>| #[trigger] vote_count(votes@.take(i as int + 1), u) == vote_count(prev, u) + if u == t { 1nat } else { 0nat } by {
                lemma_vote_count_push(prev, votes@[i as int], u);
            }
        }
        let ghost mut kk: int = 0;
        match find_tally(&tallies, t) {
            Some(k) => {
                let c = tallies[k].1;
                proof {
                    lemma_vote_count_bound(prev, t);
                    kk = k as int;
                }
                tallies.set(k, (t, c + 1));
            },
            None => {
                proof {
                    kk = tallies@.len() as int;
                }
                tallies.push((t, 1));
            },
        }
        proof {
            let next = votes@.take(i as int + 1);
            assert forall|u: Option<u64>| #[trigger] vote_count(next, u) > 0 implies exists|k: int| 0 <= k < tallies@.len() && tallies@[k].0 == u by {
                if u == t {
                    assert(0 <= kk < tallies@.len() && tallies@[kk].0 == t);
                } else {
                    assert(vote_count(prev, u) > 0);
                    let k = choose|k: int| 0 <= k < before_t.len() && before_t[k].0 == u;
                    assert(tallies@[k].0 == u);
                }
            }
        }
        i = i + 1;
    }
    proof {
        assert(votes@.take(votes@.len() as int) =~= votes@);
    }
    tallies
}

impl MeetingState {
    /// An idle meeting: empty ballot, no votes, nothing pending.
    pub fn new() -> (r: Self)
        ensures
            r.prompt@.len() == 0,
            r.options@.len() == 0,
            r.votes@.len() == 0,
            !r.local_voted,
            r.result_text@.len() == 0,
            r.pending_eject is None,
    {
        MeetingState {
            prompt: String::new(),
            options: Vec::new(),
            votes: Vec::new(),
            local_voted: false,
            result_text: String::new(),
            pending_eject: None,
        }
    }

    /// Each voter appears at most once.
    pub open spec fn wf(&self) -> bool {
        distinct_voters(self.votes@)
    }

    pub open spec fn has_voted(&self, id: u64) -> bool {
        has_voted_in(self.votes@, id)
    }

    pub open spec fn living_option(&self, id: u64) -> bool {
        living_option_in(self.options@, id)
    }

    /// Whether this player has voted.
    pub fn voted(&self, id: u64) -> (r: bool)
        ensures
            r == self.has_voted(id),
    {
        let mut i: usize = 0;
        while i < self.votes.len()
            invariant
                i <= self.votes@.len(),
                forall|j: int| 0 <= j < i ==> (#[trigger] self.votes@[j]).0 != id,
            decreases self.votes@.len() - i,
        {
            if self.votes[i].0 == id {
                return true;
            }
            i = i + 1;
        }
        false
    }

    /// Whether this player is on the ballot and alive.
    pub fn is_living_option(&self, id: u64) -> (r: bool)
        ensures
            r == self.living_option(id),
    {
        let mut i: usize = 0;
        while i < self.options.len()
            invariant
                i <= self.options@.len(),
                forall|j: int| 0 <= j < i ==> !((#[trigger] self.options@[j]).player_id == id && !self.options@[j].dead),
            decreases self.options@.len() - i,
        {
            if self.options[i].player_id == id && !self.options[i].dead {
                return true;
            }
            i = i + 1;
        }
        false
    }

    /// Opens a meeting: new prompt, a ballot with every player (dead ones
    /// marked), and no votes or result yet.
    pub fn begin_meeting(&mut self, prompt: String, roster: &[PlayerSummary])
        ensures
            final(self).prompt == prompt,
            final(self).options@.len() == roster@.len(),
            forall|i: int| 0 <= i < roster@.len() ==> {
                &&& (#[trigger] final(self).options@[i]).player_id == roster@[i].id
                &&& final(self).options@[i].name == roster@[i].name
                &&& final(self).options@[i].dead == !roster@[i].alive
            },
            final(self).votes@.len() == 0,
            !final(self).local_voted,
            final(self).result_text@.len() == 0,
            final(self).pending_eject is None,
    {
        self.prompt = prompt;
        let mut options: Vec<VoteOption> = Vec::new();
        let mut i: usize = 0;
        while i < roster.len()
            invariant
                i <= roster@.len(),
                options@.len() == i,
                forall|j: int| 0 <= j < i ==> {
                    &&& (#[trigger] options@[j]).player_id == roster@[j].id
                    &&& options@[j].name == roster@[j].name
                    &&& options@[j].dead == !roster@[j].alive
                },
            decreases roster@.len() - i,
        {
            options.push(VoteOption { player_id: roster[i].id, name: roster[i].name.clone(), dead: !roster[i].alive });
            i = i + 1;
        }
        self.options = options;
        self.votes = Vec::new();
        self.local_voted = false;
        self.result_text = String::new();
        self.pending_eject = None;
    }

    /// Returns to open play: clears the prompt, ballot, votes and result.
    pub fn clear_for_play(&mut self)
        ensures
            final(self).prompt@.len() == 0,
            final(self).options@.len() == 0,
            final(self).votes@.len() == 0,
            !final(self).local_voted,
            final(self).result_text@.len() == 0,
            final(self).pending_eject is None,
    {
        self.prompt = String::new();
        self.options = Vec::new();
        self.votes = Vec::new();
        self.local_voted = false;
        self.result_text = String::new();
        self.pending_eject = None;
    }

    /// True once every living ballot option has voted. With nobody alive the
    /// meeting resolves at once, so it can never deadlock.
    pub fn all_voted(&self) -> (r: bool)
        ensures
            r == forall|i: int| 0 <= i < self.options@.len() && !(#[trigger] self.options@[i]).dead ==> self.has_voted(self.options@[i].player_id),
    {
        let mut i: usize = 0;
        while i < self.options.len()
            invariant
                i <= self.options@.len(),
                forall|j: int| 0 <= j < i && !(#[trigger] self.options@[j]).dead ==> self.has_voted(self.options@[j].player_id),
            decreases self.options@.len() - i,
        {
            if !self.options[i].dead && !self.voted(self.options[i].player_id) {
                return false;
            }
            i = i + 1;
        }
        true
    }

    /// Index of this player's ballot option.
    fn find_option(&self, id: u64) -> (r: Option<usize>)
        ensures
            r matches Some(i) ==> first_where(self.options@, option_is(id)) == Some(i as int),
            r matches Some(i) ==> i < self.options@.len(),
            r is None ==> first_where(self.options@, option_is(id)) is None,
    {
        let mut i: usize = 0;
        while i < self.options.len()
            invariant
                i <= self.options@.len(),
                first_where(self.options@.take(i as int), option_is(id)) is None,
            decreases self.options@.len() - i,
        {
            proof {
                lemma_first_where_step(self.options@, i as int, option_is(id));
            }
            if self.options[i].player_id == id {
                proof {
                    lemma_first_where_prefix(self.options@, i as int + 1, option_is(id));
                }
                return Some(i);
            }
            i = i + 1;
        }
        proof {
            assert(self.options@.take(self.options@.len() as int) =~= self.options@);
        }
        None
    }

    /// Tallies the ballot, picks the player to eject (a unique strict
    /// plurality; skips and ties eject nobody), writes the result line and
    /// moves to `Results`.
    pub fn resolve_votes(&mut self, phase: &mut GamePhase)
        requires
            old(self).votes@.len() <= u32::MAX,
        ensures
            *final(phase) == GamePhase::Results,
            final(self).pending_eject == spec_eject(old(self).votes@),
            final(self).result_text@ == spec_result_text(old(self).options@, old(self).votes@),
            final(self).prompt == old(self).prompt,
            final(self).options == old(self).options,
            final(self).votes == old(self).votes,
            final(self).local_voted == old(self).local_voted,
    {
        let ghost votes = self.votes@;
        let tallies = tally_votes(&self.votes);

        // Highest count.
        let mut maximum: u32 = 0;
        let mut j: usize = 0;
        while j < tallies.len()
            invariant
                j <= tallies@.len(),
                forall|k: int| 0 <= k < j ==> (#[trigger] tallies@[k]).1 <= maximum,
                maximum == 0 || exists|k: int| 0 <= k < j && tallies@[k].1 == maximum,
            decreases tallies@.len() - j,
        {
            if tallies[j].1 > maximum {
                maximum = tallies[j].1;
            }
            j = j + 1;
        }

        // Which entries reach it.
        let mut leader: Option<usize> = None;
        let mut ambiguous = false;
        let mut j: usize = 0;
        while j < tallies.len()
            invariant
                j <= tallies@.len(),
                leader is None ==> !ambiguous && forall|k: int| 0 <= k < j ==> (#[trigger] tallies@[k]).1 != maximum,
                leader matches Some(a) ==> a < j && tallies@[a as int].1 == maximum,
                !ambiguous ==> (leader matches Some(a) ==> forall|k: int| 0 <= k < j && k != a ==> (#[trigger] tallies@[k]).1 != maximum),
                ambiguous ==> exists|a: int, b: int| 0 <= a < j && 0 <= b < j && a != b && tallies@[a].1 == maximum && tallies@[b].1 == maximum,
            decreases tallies@.len() - j,
        {
            if tallies[j].1 == maximum {
                match leader {
                    None => leader = Some(j),
                    Some(a) => {
                        ambiguous = true;
                        assert(tallies@[a as int].1 == maximum && tallies@[j as int].1 == maximum);
                    },
                }
            }
            j = j + 1;
        }

        let mut eject: Option<u64> = None;
        if maximum > 0 && !ambiguous {
            if let Some(a) = leader {
                eject = tallies[a].0;
            }
        }

        proof {
            match eject {
                Some(id) => {
                    let a = leader.unwrap() as int;
                    assert(tallies@[a].0 == Some(id));
                    assert(vote_count(votes, Some(id)) == maximum);
                    assert forall|t: Option<u64>| t != Some(id) implies #[trigger] vote_count(votes, t) < vote_count(votes, Some(id)) by {
                        if vote_count(votes, t) > 0 {
                            let k = choose|k: int| 0 <= k < tallies@.len() && tallies@[k].0 == t;
                            assert(tallies@[k].1 <= maximum);
                            assert(k != a);
                            assert(tallies@[k].1 != maximum);
                        }
                    }
                    assert(is_strict_leader(votes, Some(id)));
                    let c = choose|i: u64| is_strict_leader(votes, Some(i));
                    lemma_strict_leader_unique(votes, Some(c), Some(id));
                    assert(spec_eject(votes) == Some(id));
                },
                None => {
                    if exists|id: u64| is_strict_leader(votes, Some(id)) {
                        let id = choose|id: u64| is_strict_leader(votes, Some(id));
                        let k = choose|k: int| 0 <= k < tallies@.len() && tallies@[k].0 == Some(id);
                        assert(tallies@[k].1 == vote_count(votes, Some(id)));
                        let top = choose|m: int| 0 <= m < tallies@.len() && tallies@[m].1 == maximum;
                        if top != k {
                            assert(tallies@[top].0 != Some(id));
                            assert(vote_count(votes, tallies@[top].0) < vote_count(votes, Some(id)));
                            assert(false);
                        }
                        assert(maximum > 0);
                        if ambiguous {
                            let (x, y) = choose|x: int, y: int| 0 <= x < tallies@.len() && 0 <= y < tallies@.len() && x != y && tallies@[x].1 == maximum && tallies@[y].1 == maximum;
                            let other = if x != k { x } else { y };
                            assert(tallies@[other].0 != Some(id));
                            assert(vote_count(votes, tallies@[other].0) < vote_count(votes, Some(id)));
                            assert(false);
                        }
                        assert(leader == Some(k as usize));
                        assert(false);
                    }
                },
            }
        }

        self.pending_eject = eject;
        match eject {
            Some(id) => {
                let text = match self.find_option(id) {
                    Some(k) => String::from_str(self.options[k].name.as_str()).concat(" was ejected."),
                    None => String::from_str("Unknown").concat(" was ejected."),
                };
                self.result_text = text;
            },
            None => {
                self.result_text = String::from_str("No one was ejected. (Skip / Tie)");
            },
        }
        *phase = GamePhase::Results;
    }

    /// Records a vote (`Some(target)`) or a skip (`None`) during `Voting`.
    /// Accepted only from a living ballot option that has not voted yet,
    /// and (for a vote) only for a living target.
    pub fn cast_vote(&mut self, phase: GamePhase, voter_id: u64, target: Option<u64>, local_id: Option<u64>) -> (accepted: bool)
        requires
            old(self).wf(),
        ensures
            final(self).wf(),
            accepted == (phase is Voting && !old(self).has_voted(voter_id) && old(self).living_option(voter_id)
                && (target matches Some(t) ==> old(self).living_option(t))),
            accepted ==> {
                &&& final(self).votes@ == old(self).votes@.push((voter_id, target))
                &&& final(self).local_voted == (old(self).local_voted || local_id == Some(voter_id))
                &&& final(self).prompt == old(self).prompt
                &&& final(self).options == old(self).options
                &&& final(self).result_text == old(self).result_text
                &&& final(self).pending_eject == old(self).pending_eject
            },
            !accepted ==> *final(self) == *old(self),
    {
        if !matches!(phase, GamePhase::Voting) || self.voted(voter_id) || !self.is_living_option(voter_id) {
            return false;
        }
        if let Some(t) = target {
            if !self.is_living_option(t) {
                return false;
            }
        }
        self.votes.push((voter_id, target));
        let is_local = match local_id {
            Some(l) => l == voter_id,
            None => false,
        };
        if is_local {
            self.local_voted = true;
        }
        proof {
            assert forall|i: int, j: int| 0 <= i < self.votes@.len() && 0 <= j < self.votes@.len() && i != j implies (#[trigger] self.votes@[i]).0 != (#[trigger] self.votes@[j]).0 by {
                if i < old(self).votes@.len() && j < old(self).votes@.len() {
                    assert(old(self).votes@[i] == self.votes@[i]);
                    assert(old(self).votes@[j] == self.votes@[j]);
                } else if i < old(self).votes@.len() {
                    assert(old(self).votes@[i] == self.votes@[i]);
                } else {
                    assert(old(self).votes@[j] == self.votes@[j]);
                }
            }
        }
        true
    }

    /// Ids of the living ballot options, in ballot order.
    fn living_ids(&self) -> (ids: Vec<u64>)
        ensures
            forall|k: int| 0 <= k < ids@.len() ==> self.living_option(#[trigger] ids@[k]),
            ids@.len() == 0 ==> forall|i: int| 0 <= i < self.options@.len() ==> (#[trigger] self.options@[i]).dead,
    {
        let mut ids: Vec<u64> = Vec::new();
        let mut i: usize = 0;
        while i < self.options.len()
            invariant
                i <= self.options@.len(),
                forall|k: int| 0 <= k < ids@.len() ==> self.living_option(#[trigger] ids@[k]),
                ids@.len() == 0 ==> forall|j: int| 0 <= j < i ==> (#[trigger] self.options@[j]).dead,
            decreases self.options@.len() - i,
        {
            if !self.options[i].dead {
                let ghost at = i as int;
                ids.push(self.options[i].player_id);
                proof {
                    assert(self.options@[at].player_id == ids@[ids@.len() - 1]);
                }
            }
            i = i + 1;
        }
        ids
    }

    /// Fills a vote for every living bot other than `local_id` that has not
    /// voted yet: a skip one time in four (or when nobody is on the ballot
    /// alive), otherwise a random living ballot option.
    pub fn bot_votes(&mut self, roster: &[PlayerSummary], local_id: u64)
        requires
            old(self).wf(),
        ensures
            final(self).wf(),
            final(self).votes@.len() >= old(self).votes@.len(),
            final(self).votes@.subrange(0, old(self).votes@.len() as int) == old(self).votes@,
            forall|k: int| old(self).votes@.len() <= k < final(self).votes@.len() ==> {
                let v = #[trigger] final(self).votes@[k];
                &&& roster_has_living_bot(roster@, v.0)
                &&& v.0 != local_id
                &&& !old(self).has_voted(v.0)
                &&& (v.1 matches Some(t) ==> old(self).living_option(t))
            },
            forall|i: int| 0 <= i < roster@.len() && (#[trigger] roster@[i]).alive && roster@[i].is_bot && roster@[i].id != local_id ==> final(self).has_voted(roster@[i].id),
            final(self).prompt == old(self).prompt,
            final(self).options == old(self).options,
            final(self).local_voted == old(self).local_voted,
            final(self).result_text == old(self).result_text,
            final(self).pending_eject == old(self).pending_eject,
    {
        let living = self.living_ids();
        let ghost old_votes = self.votes@;
        let mut i: usize = 0;
        while i < roster.len()
            invariant
                i <= roster@.len(),
                self.options == old(self).options,
                self.prompt == old(self).prompt,
                self.local_voted == old(self).local_voted,
                self.result_text == old(self).result_text,
                self.pending_eject == old(self).pending_eject,
                old_votes == old(self).votes@,
                forall|k: int| 0 <= k < living@.len() ==> self.living_option(#[trigger] living@[k]),
                living@.len() == 0 ==> forall|j: int| 0 <= j < self.options@.len() ==> (#[trigger] self.options@[j]).dead,
                distinct_voters(self.votes@),
                self.votes@.len() >= old_votes.len(),
                self.votes@.subrange(0, old_votes.len() as int) == old_votes,
                forall|k: int| old_votes.len() <= k < self.votes@.len() ==> {
                    let v = #[trigger] self.votes@[k];
                    &&& roster_has_living_bot(roster@, v.0)
                    &&& v.0 != local_id
                    &&& !has_voted_in(old_votes, v.0)
                    &&& (v.1 matches Some(t) ==> self.living_option(t))
                },
                forall|j: int| 0 <= j < i && (#[trigger] roster@[j]).alive && roster@[j].is_bot && roster@[j].id != local_id ==> has_voted_in(self.votes@, roster@[j].id),
            decreases roster@.len() - i,
        {
            let id = roster[i].id;
            if id != local_id && roster[i].alive && roster[i].is_bot && !self.voted(id) {
                let skip = random_ratio(1, 4);
                let choice: Option<u64> = if skip || living.len() == 0 {
                    None
                } else {
                    let k = random_index(living.len());
                    Some(living[k])
                };
                let ghost before = self.votes@;
                self.votes.push((id, choice));
                proof {
                    assert(self.votes@ == before.push((id, choice)));
                    assert(self.votes@[before.len() as int] == (id, choice));
                    assert(roster_has_living_bot(roster@, id)) by {
                        assert(roster@[i as int].id == id && roster@[i as int].alive && roster@[i as int].is_bot);
                    }
                    assert(!has_voted_in(old_votes, id)) by {
                        if has_voted_in(old_votes, id) {
                            let w = choose|w: int| 0 <= w < old_votes.len() && (#[trigger] old_votes[w]).0 == id;
                            assert(before.subrange(0, old_votes.len() as int)[w] == before[w]);
                            assert(before[w].0 == id);
                        }
                    }
                    assert forall|a: int, b: int| 0 <= a < self.votes@.len() && 0 <= b < self.votes@.len() && a != b implies (#[trigger] self.votes@[a]).0 != (#[trigger] self.votes@[b]).0 by {
                        if a < before.len() && b < before.len() {
                            assert(before[a] == self.votes@[a] && before[b] == self.votes@[b]);
                        } else if a < before.len() {
                            assert(before[a] == self.votes@[a]);
                        } else {
                            assert(before[b] == self.votes@[b]);
                        }
                    }
                    assert(self.votes@.subrange(0, old_votes.len() as int) =~= before.subrange(0, old_votes.len() as int));
                    assert forall|k: int| old_votes.len() <= k < self.votes@.len() implies {
                        let v = #[trigger] self.votes@[k];
                        &&& roster_has_living_bot(roster@, v.0)
                        &&& v.0 != local_id
                        &&& !has_voted_in(old_votes, v.0)
                        &&& (v.1 matches Some(t) ==> self.living_option(t))
                    } by {
                        if k < before.len() {
                            assert(before[k] == self.votes@[k]);
                        }
                    }
                    assert forall|j: int| 0 <= j <= i && (#[trigger] roster@[j]).alive && roster@[j].is_bot && roster@[j].id != local_id implies has_voted_in(self.votes@, roster@[j].id) by {
                        if j < i {
                            let w = choose|w: int| 0 <= w < before.len() && (#[trigger] before[w]).0 == roster@[j].id;
                            assert(self.votes@[w] == before[w]);
                        } else {
                            assert(self.votes@[before.len() as int].0 == roster@[j].id);
                        }
                    }
                }
            } else {
                proof {
                    if id != local_id && roster[i as int].alive && roster[i as int].is_bot {
                        assert(has_voted_in(self.votes@, roster@[i as int].id));
                    }
                }
            }
            i = i + 1;
        }
        proof {
            assert forall|k: int| old(self).votes@.len() <= k < self.votes@.len() implies {
                let v = #[trigger] self.votes@[k];
                &&& roster_has_living_bot(roster@, v.0)
                &&& v.0 != local_id
                &&& !old(self).has_voted(v.0)
                &&& (v.1 matches Some(t) ==> old(self).living_option(t))
            } by {}
        }
    }

    /// A vote or skip command from a player: when accepted, the living bots
    /// that have not voted yet get their votes filled in.
    pub fn handle_vote(
        &mut self,
        phase: GamePhase,
        voter_id: u64,
        target: Option<u64>,
        local_id: Option<u64>,
        roster: &[PlayerSummary],
    ) -> (accepted: bool)
        requires
            old(self).wf(),
        ensures
            final(self).wf(),
            accepted == (phase is Voting && !old(self).has_voted(voter_id) && old(self).living_option(voter_id)
                && (target matches Some(t) ==> old(self).living_option(t))),
            !accepted ==> *final(self) == *old(self),
            accepted ==> {
                &&& final(self).votes@.len() > old(self).votes@.len()
                &&& final(self).votes@[old(self).votes@.len() as int] == (voter_id, target)
                &&& final(self).votes@.subrange(0, old(self).votes@.len() as int) == old(self).votes@
                &&& final(self).local_voted == (old(self).local_voted || local_id == Some(voter_id))
                &&& forall|i: int| 0 <= i < roster@.len() && (#[trigger] roster@[i]).alive && roster@[i].is_bot ==> final(self).has_voted(roster@[i].id)
            },
    {
        let accepted = self.cast_vote(phase, voter_id, target, local_id);
        if accepted {
            let ghost mid = self.votes@;
            self.bot_votes(roster, voter_id);
            proof {
                assert(self.votes@.subrange(0, mid.len() as int)[old(self).votes@.len() as int] == self.votes@[old(self).votes@.len() as int]);
                assert(self.votes@.subrange(0, old(self).votes@.len() as int) =~= mid.subrange(0, old(self).votes@.len() as int));
                assert(mid.subrange(0, old(self).votes@.len() as int) =~= old(self).votes@);
                assert forall|i: int| 0 <= i < roster@.len() && (#[trigger] roster@[i]).alive && roster@[i].is_bot implies self.has_voted(roster@[i].id) by {
                    if roster@[i].id == voter_id {
                        assert(self.votes@[old(self).votes@.len() as int].0 == voter_id);
                    }
                }
            }
        }
        accepted
    }

    /// An emergency call by `actor_id`: accepted in open play when no
    /// critical sabotage is running and the caller is a living player of the
    /// match with a meeting left (`emergencies_left` is the caller's count)
    /// who stands at the button. Spends one meeting and opens the
    /// "Emergency Meeting!" ballot.
    pub fn handle_emergency(
        &mut self,
        phase: &mut GamePhase,
        critical_sabotage: bool,
        actor_id: u64,
        emergencies_left: &mut u8,
        near_button: bool,
        roster: &[PlayerSummary],
    ) -> (accepted: bool)
        ensures
            accepted == (*old(phase) is Playing && !critical_sabotage && roster_has_living(roster@, actor_id)
                && *old(emergencies_left) > 0 && near_button),
            accepted ==> {
                &&& *final(emergencies_left) == *old(emergencies_left) - 1
                &&& *final(phase) == GamePhase::Meeting
                &&& final(self).prompt@ == "Emergency Meeting!"@
                &&& final(self).options@.len() == roster@.len()
                &&& forall|i: int| 0 <= i < roster@.len() ==> (#[trigger] final(self).options@[i]).player_id == roster@[i].id
                    && final(self).options@[i].dead == !roster@[i].alive
                &&& final(self).votes@.len() == 0
                &&& final(self).pending_eject is None
            },
            !accepted ==> *final(self) == *old(self) && *final(phase) == *old(phase) && *final(emergencies_left) == *old(emergencies_left),
    {
        if !matches!(*phase, GamePhase::Playing) || critical_sabotage || !has_living_player(roster, actor_id) || *emergencies_left == 0
            || !near_button {
            return false;
        }
        *emergencies_left = *emergencies_left - 1;
        self.begin_meeting(String::from_str("Emergency Meeting!"), roster);
        *phase = GamePhase::Meeting;
        true
    }
}

impl Default for MeetingState {
    fn default() -> (r: Self)
        ensures
            r.prompt@.len() == 0,
            r.options@.len() == 0,
            r.votes@.len() == 0,
            !r.local_voted,
            r.result_text@.len() == 0,
            r.pending_eject is None,
    {
        MeetingState::new()
    }
}

/// During `Voting` every living bot (other than the local player; `u64::MAX`
/// stands for "no local player") has its vote filled in.
pub fn ensure_bot_votes(phase: GamePhase, meeting: &mut MeetingState, roster: &[PlayerSummary], local_id: Option<u64>)
    requires
        old(meeting).wf(),
    ensures
        final(meeting).wf(),
        !(phase is Voting) ==> *final(meeting) == *old(meeting),
        phase is Voting ==> forall|i: int| 0 <= i < roster@.len() && (#[trigger] roster@[i]).alive && roster@[i].is_bot
            && roster@[i].id != (match local_id { Some(l) => l, None => u64::MAX })
            ==> final(meeting).has_voted(roster@[i].id),
        final(meeting).votes@.subrange(0, old(meeting).votes@.len() as int) == old(meeting).votes@,
        final(meeting).votes@.len() >= old(meeting).votes@.len(),
{
    if !matches!(phase, GamePhase::Voting) {
        proof { assert(meeting.votes@.subrange(0, meeting.votes@.len() as int) =~= meeting.votes@); }
        return;
    }
    let skip = match local_id {
        Some(l) => l,
        None => u64::MAX,
    };
    meeting.bot_votes(roster, skip);
}

} // verus!
