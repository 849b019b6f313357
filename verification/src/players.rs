use vstd::prelude::*;

use crate::roles::Role;
use crate::util::{first_where, lemma_first_where, lemma_first_where_prefix, lemma_first_where_step};

verus! {

/// What the rules need to know about one spawned player: identity, display
/// name, team and whether it is still alive (a dead player is a ghost).
#[derive(Clone, PartialEq, Eq, Debug)]
pub struct PlayerSummary {
    pub id: u64,
    pub name: String,
    pub role: Role,
    pub alive: bool,
    /// An offline bot (bots fill in their votes by themselves).
    pub is_bot: bool,
}

/// Matches the player with this id.
pub open spec fn player_is(id: u64) -> spec_fn(PlayerSummary) -> bool {
    |p: PlayerSummary| p.id == id
}

/// Whether the roster holds a living player with this id.
pub open spec fn roster_has_living(roster: Seq<PlayerSummary>, id: u64) -> bool {
    exists|i: int| 0 <= i < roster.len() && roster[i].id == id && roster[i].alive
}

/// Whether the roster holds a living bot with this id.
pub open spec fn roster_has_living_bot(roster: Seq<PlayerSummary>, id: u64) -> bool {
    exists|i: int| 0 <= i < roster.len() && roster[i].id == id && roster[i].alive && roster[i].is_bot
}

/// Whether the roster holds a living player with this id.
pub fn has_living_player(roster: &[PlayerSummary], id: u64) -> (r: bool)
    ensures
        r == roster_has_living(roster@, id),
{
    let mut i: usize = 0;
    while i < roster.len()
        invariant
            i <= roster@.len(),
            forall|j: int| 0 <= j < i ==> !(roster@[j].id == id && roster@[j].alive),
        decreases roster@.len() - i,
    {
        if roster[i].id == id && roster[i].alive {
            return true;
        }
        i = i + 1;
    }
    false
}

/// Finds the first player with this id.
pub fn find_player(roster: &[PlayerSummary], id: u64) -> (r: Option<usize>)
    ensures
        r matches Some(i) ==> first_where(roster@, player_is(id)) == Some(i as int),
        r is None ==> first_where(roster@, player_is(id)) is None,
        r matches Some(i) ==> i < roster@.len() && roster@[i as int].id == id,
        r is None ==> forall|j: int| 0 <= j < roster@.len() ==> roster@[j].id != id,
{
    let mut i: usize = 0;
    while i < roster.len()
        invariant
            i <= roster@.len(),
            first_where(roster@.take(i as int), player_is(id)) is None,
        decreases roster@.len() - i,
    {
        proof {
            lemma_first_where_step(roster@, i as int, player_is(id));
        }
        if roster[i].id == id {
            proof {
                lemma_first_where_prefix(roster@, i as int + 1, player_is(id));
            }
            return Some(i);
        }
        i = i + 1;
    }
    proof {
        assert(roster@.take(roster@.len() as int) =~= roster@);
        lemma_first_where(roster@, player_is(id));
    }
    None
}

} // verus!
