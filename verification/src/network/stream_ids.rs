//! Stream identifiers: the numbers that tell apart the requests that are in
//! flight on one connection.

use vstd::prelude::*;

verus! {

/// The number of stream identifiers of a connection.
pub const STREAM_IDS: usize = 32768;

/// The number of 64-bit words that hold one bit for each stream identifier.
pub const WORDS: usize = 512;

/// Whether the bit at `off` is set in `word`.
pub open spec fn bit_set(word: u64, off: u64) -> bool {
    (word >> off) & 1 == 1
}

/// Whether the stream identifier `id` is marked in the words.
pub open spec fn marked(words: Seq<u64>, id: int) -> bool {
    0 <= id < 64 * words.len() && bit_set(words[id / 64], (id % 64) as u64)
}

/// The stream identifiers that are marked in the words.
pub open spec fn marked_ids(words: Seq<u64>) -> Set<int> {
    Set::new(|id: int| marked(words, id))
}

proof fn lemma_bit_after_set(word: u64, off: u64, other: u64)
    by (bit_vector)
    requires
        off < 64,
        other < 64,
    ensures
        bit_set(word | (1u64 << off), other) == (bit_set(word, other) || other == off),
{
}

proof fn lemma_bit_after_clear(word: u64, off: u64, other: u64)
    by (bit_vector)
    requires
        off < 64,
        other < 64,
    ensures
        bit_set(word & !(1u64 << off), other) == (bit_set(word, other) && other != off),
{
}

proof fn lemma_full_word(off: u64)
    by (bit_vector)
    requires
        off < 64,
    ensures
        bit_set(0xffff_ffff_ffff_ffffu64, off),
{
}

/// Setting one bit of one word marks one stream identifier more.
proof fn lemma_mark(words: Seq<u64>, block: int, off: u64)
    requires
        0 <= block < words.len(),
        off < 64,
    ensures
        marked_ids(words.update(block, words[block] | (1u64 << off))) == marked_ids(words).insert(
            64 * block + off,
        ),
{
    let after = words.update(block, words[block] | (1u64 << off));
    assert forall|id: int| marked(after, id) == (marked(words, id) || id == 64 * block + off) by {
        if 0 <= id < 64 * words.len() {
            if id / 64 == block {
                lemma_bit_after_set(words[block], off, (id % 64) as u64);
            }
        }
    }
}

/// Clearing one bit of one word marks one stream identifier less.
proof fn lemma_unmark(words: Seq<u64>, block: int, off: u64)
    requires
        0 <= block < words.len(),
        off < 64,
    ensures
        marked_ids(words.update(block, words[block] & !(1u64 << off))) == marked_ids(words).remove(
            64 * block + off,
        ),
{
    let after = words.update(block, words[block] & !(1u64 << off));
    assert forall|id: int| marked(after, id) == (marked(words, id) && id != 64 * block + off) by {
        if 0 <= id < 64 * words.len() {
            if id / 64 == block {
                lemma_bit_after_clear(words[block], off, (id % 64) as u64);
            }
        }
    }
}

/// What taking a stream identifier does to the identifiers in use: the least
/// that was not in use is in use now, or all were in use and are.
pub open spec fn allocated(before: Set<int>, after: Set<int>, stream_id: Option<i16>) -> bool {
    match stream_id {
        Some(id) => {
            &&& 0 <= id < STREAM_IDS
            &&& !before.contains(id as int)
            &&& forall|less: int| 0 <= less < id ==> before.contains(less)
            &&& after == before.insert(id as int)
        },
        None => {
            &&& forall|id: int| 0 <= id < STREAM_IDS ==> before.contains(id)
            &&& after == before
        },
    }
}

/// What giving back a stream identifier does to the identifiers in use: it is
/// in use no more, and `was_used` says whether it was.
pub open spec fn freed(before: Set<int>, after: Set<int>, stream_id: i16, was_used: bool) -> bool {
    &&& was_used == before.contains(stream_id as int)
    &&& after == before.remove(stream_id as int)
}

/// No stream identifier is in use for two requests: an identifier that was
/// taken is not given out again before it was given back.
pub proof fn lemma_one_request_per_id(
    before: Set<int>,
    between: Set<int>,
    after: Set<int>,
    first: i16,
    second: Option<i16>,
)
    requires
        allocated(before, between, Some(first)),
        allocated(between, after, second),
    ensures
        second != Some(first),
        after.contains(first as int),
{
}

/// A stream identifier is given back once: giving it back again finds it
/// out of use.
pub proof fn lemma_given_back_once(
    before: Set<int>,
    between: Set<int>,
    after: Set<int>,
    stream_id: i16,
    first: bool,
    second: bool,
)
    requires
        freed(before, between, stream_id, first),
        freed(between, after, stream_id, second),
    ensures
        !second,
        after == between,
{
}

/// A stream identifier that was taken can be given back, and can then be
/// taken again.
pub proof fn lemma_taken_is_given_back(
    before: Set<int>,
    between: Set<int>,
    after: Set<int>,
    stream_id: i16,
    was_used: bool,
)
    requires
        allocated(before, between, Some(stream_id)),
        freed(between, after, stream_id, was_used),
    ensures
        was_used,
        after == before,
{
}

/// The stream identifiers of one connection that are in use: each of them
/// belongs to one request in flight.
#[derive(Debug)]
pub struct StreamIdSet {
    used_bitmap: Vec<u64>,
}

impl View for StreamIdSet {
    type V = Set<int>;

    closed spec fn view(&self) -> Set<int> {
        marked_ids(self.used_bitmap@)
    }
}

impl StreamIdSet {
    /// Whether the set has a bit for each stream identifier.
    pub closed spec fn wf(self) -> bool {
        self.used_bitmap@.len() == WORDS
    }

    /// Only stream identifiers are in use.
    pub proof fn lemma_in_range(self)
        requires
            self.wf(),
        ensures
            forall|id: int| self@.contains(id) ==> 0 <= id < STREAM_IDS,
    {
    }

    /// A set in which no stream identifier is in use.
    pub fn new() -> (set: StreamIdSet)
        ensures
            set.wf(),
            set@ == Set::<int>::empty(),
    {
        let mut used_bitmap: Vec<u64> = Vec::new();
        let mut i: usize = 0;
        while i < WORDS
            invariant
                i <= WORDS,
                used_bitmap@.len() == i,
                forall|j: int| 0 <= j < i ==> used_bitmap@[j] == 0,
            decreases WORDS - i,
        {
            used_bitmap.push(0);
            i = i + 1;
        }
        proof {
            assert forall|id: int| !marked(used_bitmap@, id) by {
                if 0 <= id < 64 * used_bitmap@.len() {
                    let off = (id % 64) as u64;
                    assert(!bit_set(0u64, off)) by (bit_vector)
                        requires
                            off < 64,
                    ;
                }
            }
        }
        StreamIdSet { used_bitmap }
    }

    /// Whether the stream identifier is in use.
    pub fn is_used(&self, stream_id: i16) -> (used: bool)
        requires
            self.wf(),
        ensures
            used == self@.contains(stream_id as int),
    {
        if stream_id < 0 {
            return false;
        }
        let block: usize = stream_id as usize / 64;
        let off: u64 = (stream_id as usize % 64) as u64;
        (self.used_bitmap[block] >> off) & 1 == 1
    }

    /// Takes the least stream identifier that is not in use, for a new
    /// request. There is none where all are in use.
    pub fn allocate(&mut self) -> (stream_id: Option<i16>)
        requires
            old(self).wf(),
        ensures
            final(self).wf(),
            allocated(old(self)@, final(self)@, stream_id),
    {
        let mut block: usize = 0;
        while block < WORDS
            invariant
                block <= WORDS,
                self.wf(),
                *self == *old(self),
                forall|id: int| 0 <= id < 64 * block ==> marked(self.used_bitmap@, id),
            decreases WORDS - block,
        {
            let word: u64 = self.used_bitmap[block];
            if word != 0xffff_ffff_ffff_ffffu64 {
                let mut off: u64 = 0;
                while off < 64
                    invariant
                        off <= 64,
                        block < WORDS,
                        self.wf(),
                        *self == *old(self),
                        word == self.used_bitmap@[block as int],
                        forall|id: int| 0 <= id < 64 * block + off ==> marked(self.used_bitmap@, id),
                    decreases 64 - off,
                {
                    if (word >> off) & 1 == 0 {
                        let id: usize = 64 * block + off as usize;
                        proof {
                            lemma_mark(self.used_bitmap@, block as int, off);
                        }
                        self.used_bitmap.set(block, word | (1u64 << off));
                        return Some(id as i16);
                    }
                    proof {
                        let id = 64 * block + off;
                        assert((word >> off) & 1 == 1) by (bit_vector)
                            requires
                                (word >> off) & 1 != 0,
                        ;
                    }
                    off = off + 1;
                }
            } else {
                proof {
                    assert forall|id: int| 64 * block <= id < 64 * block + 64 implies marked(
                        self.used_bitmap@,
                        id,
                    ) by {
                        lemma_full_word((id % 64) as u64);
                    }
                }
            }
            block = block + 1;
        }
        None
    }

    /// Gives back the stream identifier of a request that was answered or
    /// given up. Says whether the identifier was in use: an identifier that
    /// was given back before is not given back again.
    pub fn free(&mut self, stream_id: i16) -> (was_used: bool)
        requires
            old(self).wf(),
        ensures
            final(self).wf(),
            freed(old(self)@, final(self)@, stream_id, was_used),
    {
        if stream_id < 0 {
            assert(old(self)@.remove(stream_id as int) =~= old(self)@);
            return false;
        }
        let block: usize = stream_id as usize / 64;
        let off: u64 = (stream_id as usize % 64) as u64;
        let word: u64 = self.used_bitmap[block];
        let was_used = (word >> off) & 1 == 1;
        proof {
            lemma_unmark(self.used_bitmap@, block as int, off);
        }
        self.used_bitmap.set(block, word & !(1u64 << off));
        was_used
    }
}

} // verus!
