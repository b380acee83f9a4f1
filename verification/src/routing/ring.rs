//! The token ring: the tokens that the nodes own, in the order of the ring,
//! each with its owner.

use crate::routing::Token;
use vstd::prelude::*;

verus! {

/// Whether the tokens of the entries are strictly increasing.
pub open spec fn increasing<T>(ring: Seq<(Token, T)>) -> bool {
    forall|i: int, j: int| 0 <= i < j < ring.len() ==> ring[i].0@ < ring[j].0@
}

/// The number of entries whose token is less than `token`: in a ring with
/// increasing tokens, the place of the first entry whose token is not less.
pub open spec fn entries_below<T>(ring: Seq<(Token, T)>, token: int) -> int
    decreases ring.len(),
{
    if ring.len() == 0 {
        0
    } else if ring.last().0@ < token {
        entries_below(ring.drop_last(), token) + 1
    } else {
        entries_below(ring.drop_last(), token)
    }
}

/// The owner of `token`: the owner of the first entry whose token is not
/// less than `token`, or of the first entry of the ring where there is none
/// such. An empty ring has no owners.
pub open spec fn owner_of<T>(ring: Seq<(Token, T)>, token: int) -> Option<T> {
    let place = entries_below(ring, token);
    if ring.len() == 0 {
        None
    } else if place < ring.len() {
        Some(ring[place].1)
    } else {
        Some(ring[0].1)
    }
}

/// The ring with one more entry: the entry takes the place of the one with
/// the same token where there is one, and else stands before the first entry
/// with a greater token.
pub open spec fn with_entry<T>(ring: Seq<(Token, T)>, token: Token, owner: T) -> Seq<(Token, T)> {
    let place = entries_below(ring, token@);
    if place < ring.len() && ring[place].0@ == token@ {
        ring.update(place, (token, owner))
    } else {
        ring.insert(place, (token, owner))
    }
}

/// In a ring with increasing tokens, the entries with a token less than
/// `token` are those before the first entry whose token is not less.
pub proof fn lemma_entries_below<T>(ring: Seq<(Token, T)>, token: int, place: int)
    requires
        0 <= place <= ring.len(),
        forall|i: int| 0 <= i < place ==> (#[trigger] ring[i]).0@ < token,
        forall|i: int| place <= i < ring.len() ==> (#[trigger] ring[i]).0@ >= token,
    ensures
        entries_below(ring, token) == place,
    decreases ring.len(),
{
    if ring.len() > 0 {
        let rest = ring.drop_last();
        if place == ring.len() {
            lemma_entries_below(rest, token, place - 1);
        } else {
            lemma_entries_below(rest, token, place);
        }
    }
}

/// The place that `entries_below` gives divides a ring with increasing
/// tokens into the entries with a token less than `token` and the others.
pub proof fn lemma_entries_below_divides<T>(ring: Seq<(Token, T)>, token: int)
    requires
        increasing(ring),
    ensures
        0 <= entries_below(ring, token) <= ring.len(),
        forall|i: int| 0 <= i < entries_below(ring, token) ==> (#[trigger] ring[i]).0@ < token,
        forall|i: int|
            entries_below(ring, token) <= i < ring.len() ==> (#[trigger] ring[i]).0@ >= token,
    decreases ring.len(),
{
    if ring.len() > 0 {
        let rest = ring.drop_last();
        lemma_entries_below_divides(rest, token);
        assert forall|i: int| 0 <= i < entries_below(ring, token) implies (#[trigger] ring[i]).0@
            < token by {
            if i < rest.len() {
                assert(rest[i] == ring[i]);
            }
        }
        assert forall|i: int| entries_below(ring, token) <= i < ring.len() implies (
        #[trigger] ring[i]).0@ >= token by {
            if i < rest.len() {
                assert(rest[i] == ring[i]);
            }
        }
    }
}

/// The owner of a token is the owner of the first entry of the ring whose
/// token is not less than it.
pub proof fn lemma_owner_is_first_not_below<T>(ring: Seq<(Token, T)>, token: int, i: int)
    requires
        increasing(ring),
        0 <= i < ring.len(),
        ring[i].0@ >= token,
        forall|j: int| 0 <= j < i ==> (#[trigger] ring[j]).0@ < token,
    ensures
        owner_of(ring, token) == Some(ring[i].1),
{
    lemma_entries_below(ring, token, i);
}

/// The owner of a token that is greater than all tokens of the ring is the
/// owner of the first entry: the ring wraps.
pub proof fn lemma_owner_wraps<T>(ring: Seq<(Token, T)>, token: int)
    requires
        ring.len() > 0,
        forall|j: int| 0 <= j < ring.len() ==> (#[trigger] ring[j]).0@ < token,
    ensures
        owner_of(ring, token) == Some(ring[0].1),
{
    lemma_entries_below(ring, token, ring.len() as int);
}

/// The tokens of the ring with their owners, in the order of the ring.
#[derive(Debug)]
pub struct TokenRing<T> {
    ring: Vec<(Token, T)>,
}

impl<T> View for TokenRing<T> {
    type V = Seq<(Token, T)>;

    closed spec fn view(&self) -> Seq<(Token, T)> {
        self.ring@
    }
}

impl<T> TokenRing<T> {
    #[verifier::type_invariant]
    spec fn inv(self) -> bool {
        increasing(self.ring@)
    }

    /// A ring without tokens.
    pub fn new() -> (ring: TokenRing<T>)
        ensures
            ring@ == Seq::<(Token, T)>::empty(),
    {
        TokenRing { ring: Vec::new() }
    }

    /// The number of tokens of the ring.
    pub fn len(&self) -> (len: usize)
        ensures
            len == self@.len(),
            increasing(self@),
    {
        proof {
            use_type_invariant(self);
        }
        self.ring.len()
    }

    /// The place of the first entry whose token is not less than `token`.
    fn place_of(&self, token: Token) -> (place: usize)
        ensures
            place == entries_below(self@, token@),
            place <= self@.len(),
            increasing(self@),
    {
        proof {
            use_type_invariant(self);
        }
        let wanted: i64 = token.value();
        let mut low: usize = 0;
        let mut high: usize = self.ring.len();
        while low < high
            invariant
                low <= high <= self.ring@.len(),
                increasing(self.ring@),
                wanted == token@,
                forall|i: int| 0 <= i < low ==> (#[trigger] self.ring@[i]).0@ < wanted,
                forall|i: int|
                    high <= i < self.ring@.len() ==> (#[trigger] self.ring@[i]).0@ >= wanted,
            decreases high - low,
        {
            let middle: usize = low + (high - low) / 2;
            if self.ring[middle].0.value() < wanted {
                low = middle + 1;
            } else {
                high = middle;
            }
        }
        proof {
            lemma_entries_below(self.ring@, token@, low as int);
        }
        low
    }

    /// Gives a token of the ring to an owner. A token that the ring holds
    /// already changes its owner.
    pub fn insert(self, token: Token, owner: T) -> (ring: TokenRing<T>)
        ensures
            ring@ == with_entry(self@, token, owner),
    {
        let place: usize = self.place_of(token);
        let TokenRing { ring } = self;
        let mut ring = ring;
        let ghost before = ring@;
        if place < ring.len() && ring[place].0.value() == token.value() {
            ring.set(place, (token, owner));
        } else {
            ring.insert(place, (token, owner));
            proof {
                lemma_entries_below_divides(before, token@);
            }
        }
        TokenRing { ring }
    }

    /// The owner of the given token: the primary replica of the partitions
    /// with that token.
    pub fn get_elem_for_token(&self, token: Token) -> (owner: Option<&T>)
        ensures
            match owner {
                Some(o) => owner_of(self@, token@) == Some(*o),
                None => owner_of(self@, token@) is None,
            },
    {
        let place: usize = self.place_of(token);
        if self.ring.len() == 0 {
            None
        } else if place < self.ring.len() {
            Some(&self.ring[place].1)
        } else {
            Some(&self.ring[0].1)
        }
    }

    /// The entries of the ring, in the order of the ring.
    pub fn entries(&self) -> (entries: &Vec<(Token, T)>)
        ensures
            entries@ == self@,
            increasing(self@),
    {
        proof {
            use_type_invariant(self);
        }
        &self.ring
    }
}

} // verus!
