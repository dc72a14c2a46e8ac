//! A compact set of slot indices.

use vstd::prelude::*;
use crate::entity::Index;

verus! {

/// Whether bit `pos` of `word` is set.
pub open spec fn bit(word: u64, pos: u64) -> bool {
    (word >> pos) & 1 == 1
}

proof fn lemma_bit_set(word: u64, pos: u64, other: u64)
    requires
        pos < 64,
        other < 64,
    ensures
        bit(word | (1u64 << pos), other) == (other == pos || bit(word, other)),
{
    assert((((word | (1u64 << pos)) >> other) & 1 == 1) == (other == pos || ((word >> other) & 1
        == 1))) by (bit_vector)
        requires
            pos < 64,
            other < 64,
    ;
}

proof fn lemma_bit_cleared(word: u64, pos: u64, other: u64)
    requires
        pos < 64,
        other < 64,
    ensures
        bit(word & !(1u64 << pos), other) == (other != pos && bit(word, other)),
{
    assert((((word & !(1u64 << pos)) >> other) & 1 == 1) == (other != pos && ((word >> other) & 1
        == 1))) by (bit_vector)
        requires
            pos < 64,
            other < 64,
    ;
}

proof fn lemma_bit_tested(word: u64, pos: u64)
    requires
        pos < 64,
    ensures
        (word & (1u64 << pos) != 0) == bit(word, pos),
{
    assert((word & (1u64 << pos) != 0) == ((word >> pos) & 1 == 1)) by (bit_vector)
        requires
            pos < 64,
    ;
}

proof fn lemma_bit_of_zero(pos: u64)
    requires
        pos < 64,
    ensures
        !bit(0, pos),
{
    assert(!((0u64 >> pos) & 1 == 1)) by (bit_vector)
        requires
            pos < 64,
    ;
}

/// Set of slot indices, one bit per index.
pub struct BitSet {
    words: Vec<u64>,
}

impl BitSet {
    /// Whether the bit of `id` is there and set.
    spec fn marks(&self, id: Index) -> bool {
        id / 64 < self.words.len() && bit(self.words@[id as int / 64], (id % 64) as u64)
    }

    /// The indices in the set.
    pub closed spec fn view(&self) -> Set<Index> {
        Set::new(|id: Index| self.marks(id))
    }

    /// The empty set.
    pub fn new() -> (s: BitSet)
        ensures
            s@ == Set::<Index>::empty(),
    {
        BitSet { words: Vec::new() }
    }

    /// Tells whether `id` is in the set.
    pub fn contains(&self, id: Index) -> (b: bool)
        ensures
            b == self@.contains(id),
    {
        let w: usize = (id / 64) as usize;
        let pos: u64 = (id % 64) as u64;
        if w < self.words.len() {
            proof {
                lemma_bit_tested(self.words@[w as int], pos);
            }
            self.words[w] & (1u64 << pos) != 0
        } else {
            false
        }
    }

    /// Puts `id` into the set. Returns whether it was new to the set.
    pub fn add(&mut self, id: Index) -> (b: bool)
        ensures
            final(self)@ == old(self)@.insert(id),
            b == !old(self)@.contains(id),
    {
        let w: usize = (id / 64) as usize;
        let pos: u64 = (id % 64) as u64;
        while self.words.len() <= w
            invariant
                self@ == old(self)@,
                old(self).words.len() <= self.words.len(),
            decreases w + 1 - self.words.len(),
        {
            let ghost before = *self;
            self.words.push(0);
            proof {
                assert forall|j: Index| #[trigger] self.marks(j) == before.marks(j) by {
                    lemma_bit_of_zero((j % 64) as u64);
                }
                assert(self@ =~= before@);
            }
        }
        let ghost before = *self;
        let word: u64 = self.words[w];
        proof {
            lemma_bit_tested(word, pos);
        }
        let fresh: bool = word & (1u64 << pos) == 0;
        self.words[w] = word | (1u64 << pos);
        proof {
            assert forall|j: Index| #[trigger] self.marks(j) == (j == id || before.marks(j)) by {
                if j / 64 == id / 64 {
                    lemma_bit_set(word, pos, (j % 64) as u64);
                }
            }
            assert(self@ =~= before@.insert(id));
        }
        fresh
    }

    /// Takes `id` out of the set. Returns whether it was in the set.
    pub fn remove(&mut self, id: Index) -> (b: bool)
        ensures
            final(self)@ == old(self)@.remove(id),
            b == old(self)@.contains(id),
    {
        let w: usize = (id / 64) as usize;
        let pos: u64 = (id % 64) as u64;
        if w < self.words.len() {
            let ghost before = *self;
            let word: u64 = self.words[w];
            proof {
                lemma_bit_tested(word, pos);
            }
            let present: bool = word & (1u64 << pos) != 0;
            self.words[w] = word & !(1u64 << pos);
            proof {
                assert forall|j: Index| #[trigger] self.marks(j) == (j != id && before.marks(j)) by {
                    if j / 64 == id / 64 {
                        lemma_bit_cleared(word, pos, (j % 64) as u64);
                    }
                }
                assert(self@ =~= before@.remove(id));
            }
            present
        } else {
            proof {
                assert(self@ =~= self@.remove(id));
            }
            false
        }
    }

    /// Lists the indices in the set, in rising order.
    pub fn indices(&self) -> (v: Vec<Index>)
        ensures
            forall|k: int| 0 <= k < v@.len() ==> self@.contains(#[trigger] v@[k]),
            forall|id: Index| self@.contains(id) ==> v@.contains(id),
            forall|a: int, b: int| 0 <= a < b < v@.len() ==> v@[a] < v@[b],
    {
        let mut v: Vec<Index> = Vec::new();
        let mut w: usize = 0;
        while w < self.words.len() && w < 0x400_0000
            invariant
                w <= self.words.len(),
                w <= 0x400_0000,
                forall|k: int| 0 <= k < v@.len() ==> self.marks(#[trigger] v@[k]) && v@[k] < w * 64,
                forall|id: Index| self.marks(id) && id < w * 64 ==> v@.contains(id),
                forall|a: int, b: int| 0 <= a < b < v@.len() ==> v@[a] < v@[b],
            decreases self.words.len() - w,
        {
            let word: u64 = self.words[w];
            let mut pos: u32 = 0;
            while pos < 64
                invariant
                    pos <= 64,
                    w < self.words.len(),
                    w < 0x400_0000,
                    word == self.words@[w as int],
                    forall|k: int|
                        0 <= k < v@.len() ==> self.marks(#[trigger] v@[k]) && v@[k] < w * 64 + pos,
                    forall|id: Index| self.marks(id) && id < w * 64 + pos ==> v@.contains(id),
                    forall|a: int, b: int| 0 <= a < b < v@.len() ==> v@[a] < v@[b],
                decreases 64 - pos,
            {
                let id: Index = (w * 64) as u32 + pos;
                proof {
                    lemma_bit_tested(word, pos as u64);
                }
                if word & (1u64 << (pos as u64)) != 0 {
                    let ghost before = v@;
                    v.push(id);
                    proof {
                        assert(self.marks(id));
                        assert forall|other: Index| self.marks(other) && other < w * 64 + pos
                            + 1 implies v@.contains(other) by {
                            if other == id {
                                assert(v@[before.len() as int] == id);
                            } else {
                                let k = choose|k: int| 0 <= k < before.len() && before[k] == other;
                                assert(v@[k] == other);
                            }
                        }
                    }
                }
                pos += 1;
            }
            w += 1;
        }
        proof {
            assert forall|id: Index| self@.contains(id) implies v@.contains(id) by {
                assert(self.marks(id));
                assert(id / 64 < self.words.len());
                assert(id < w * 64);
            }
        }
        v
    }

    /// Empties the set.
    pub fn clear(&mut self)
        ensures
            final(self)@ == Set::<Index>::empty(),
    {
        self.words.clear();
        proof {
            assert(self@ =~= Set::<Index>::empty());
        }
    }
}

} // verus!
