//! The instruction-start bitmask: bit `i` is set iff code position `i`
//! begins an instruction. Every bit at or past the code length is set.
use vstd::prelude::*;

use crate::bitwords::{
    lemma_full_and_empty, lemma_or_bit, lemma_or_high_bits, word_has, words_has, words_set,
    words_test,
};
use crate::consts::MAX_SKIP;

verus! {

/// Bit `k` (0..8) of byte `b`.
pub open spec fn byte_has(b: u8, k: int) -> bool {
    (b >> (k as u8)) & 1u8 == 1u8
}

/// Whether raw bitmask bytes mark position `i`.
pub open spec fn bytes_mark(bytes: Seq<u8>, i: int) -> bool {
    0 <= i < 8 * bytes.len() && byte_has(bytes[i / 8], i % 8)
}

#[derive(Debug)]
pub struct BitMask {
    pub bits: Vec<u64>,
    pub limit: usize,
}

impl BitMask {
    /// Whether position `i` starts an instruction: every position at or past
    /// the code length does, and below it the stored bit decides.
    pub open spec fn is_set_at(&self, i: int) -> bool {
        self.limit <= i || words_has(self.bits@, i)
    }

    /// Every bit from the code length up to the end of the words is set, and
    /// the words reach at least one full word past the code length.
    pub open spec fn wf(&self) -> bool {
        &&& self.bits@.len() >= self.limit / 64 + 2
        &&& 64 * self.bits@.len() <= usize::MAX
        &&& forall|i: int| self.limit <= i < 64 * self.bits@.len() ==> #[trigger] words_has(self.bits@, i)
    }

    /// Number of clear bits from position `i` on, looking at no more than `fuel` bits.
    pub open spec fn run_from(&self, i: int, fuel: nat) -> nat
        decreases fuel,
    {
        if fuel == 0 || self.is_set_at(i) {
            0
        } else {
            1 + self.run_from(i + 1, (fuel - 1) as nat)
        }
    }

    /// Argument bytes between the instruction at `pc` and the next start, capped at 24.
    pub open spec fn skip_spec(&self, pc: int) -> nat {
        self.run_from(pc + 1, MAX_SKIP as nat)
    }

    pub proof fn lemma_run_from(&self, i: int, fuel: nat, k: nat)
        requires
            k <= fuel,
            forall|j: int| 0 <= j < k ==> !#[trigger] self.is_set_at(i + j),
            k == fuel || self.is_set_at(i + k),
        ensures
            self.run_from(i, fuel) == k,
        decreases k,
    {
        if k > 0 {
            assert(!self.is_set_at(i + 0));
            assert forall|j: int| 0 <= j < k - 1 implies !#[trigger] self.is_set_at((i + 1) + j) by {
                assert(!self.is_set_at(i + (j + 1)));
            }
            assert((i + 1) + (k - 1) == i + k);
            self.lemma_run_from(i + 1, (fuel - 1) as nat, (k - 1) as nat);
        }
    }

    /// Packs raw bitmask bytes (least significant bit first) for code of
    /// length `program_length`, then pads.
    pub fn from_bytes(bytes: &[u8], program_length: usize) -> (r: Self)
        requires
            bytes@.len() + program_length <= usize::MAX / 128,
        ensures
            r.wf(),
            r.limit == program_length,
            forall|i: int|
                0 <= i < program_length ==> (#[trigger] r.is_set_at(i) <==> bytes_mark(bytes@, i)),
    {
        let n_words: usize = (bytes.len() + 7) / 8;
        let mut bits: Vec<u64> = Vec::new();
        while bits.len() < n_words
            invariant
                bits@.len() <= n_words,
                forall|k: int| 0 <= k < bits@.len() ==> bits@[k] == 0u64,
            decreases n_words - bits@.len(),
        {
            bits.push(0u64);
        }
        assert forall|j: int| 0 <= j implies !words_has(bits@, j) by {
            if j / 64 < bits@.len() {
                lemma_full_and_empty((j % 64) as u64);
            }
        }
        let mut i: usize = 0;
        while i < 8 * bytes.len()
            invariant
                n_words == (bytes@.len() + 7) / 8,
                bits@.len() == n_words,
                bytes@.len() + program_length <= usize::MAX / 128,
                forall|j: int| 0 <= j < i ==> (words_has(bits@, j) <==> bytes_mark(bytes@, j)),
                forall|j: int| i <= j ==> !words_has(bits@, j),
            decreases 8 * bytes@.len() - i,
        {
            let byte = bytes[i / 8];
            let k = (i % 8) as u8;
            if (byte >> k) & 1u8 == 1u8 {
                let ghost before = bits@;
                words_set(&mut bits, i);
                assert(bits@.len() == n_words);
            }
            i = i + 1;
        }
        let mut bitmask = Self { bits, limit: program_length };
        bitmask.pad();
        bitmask
    }

    /// Sets every bit at or past the code length in the word holding that
    /// position and in every later word, then appends one all-ones word.
    pub fn pad(&mut self)
        requires
            old(self).bits@.len() + old(self).limit / 64 + 4 <= usize::MAX / 64,
        ensures
            final(self).wf(),
            final(self).limit == old(self).limit,
            forall|i: int| 0 <= i < old(self).limit ==> #[trigger] final(self).is_set_at(i) == old(self).is_set_at(i),
    {
        let w = self.limit / 64;
        let ghost start = self.bits@;
        while self.bits.len() <= w
            invariant
                self.limit == old(self).limit,
                w == self.limit / 64,
                start == old(self).bits@,
                w < start.len() ==> self.bits@ == start,
                w >= start.len() ==> start.len() <= self.bits@.len() <= w + 1,
                forall|k: int| 0 <= k < start.len() ==> self.bits@[k] == start[k],
                forall|k: int| start.len() <= k < self.bits@.len() ==> self.bits@[k] == 0u64,
            decreases w + 1 - self.bits@.len(),
        {
            self.bits.push(0u64);
        }
        let ghost grown = self.bits@;
        assert forall|i: int| 0 <= i < self.limit implies words_has(grown, i) == words_has(start, i) by {
            if i / 64 >= start.len() && i / 64 < grown.len() {
                lemma_full_and_empty((i % 64) as u64);
            }
        }
        let b = (self.limit % 64) as u64;
        self.bits.set(w, self.bits[w] | (u64::MAX << b));
        let ghost masked = self.bits@;
        assert forall|i: int| 0 <= i < self.limit implies words_has(masked, i) == words_has(grown, i) by {
            if i / 64 == w {
                lemma_or_high_bits(grown[w as int], b, (i % 64) as u64);
            }
        }
        assert(64 * (masked.len() + 1) <= usize::MAX);
        let mut k: usize = w + 1;
        while k < self.bits.len()
            invariant
                self.limit == old(self).limit,
                w == self.limit / 64,
                b == self.limit % 64,
                w < self.bits@.len(),
                self.bits@.len() == masked.len(),
                w + 1 <= k <= self.bits@.len(),
                self.bits@[w as int] == masked[w as int],
                forall|j: int| 0 <= j <= w ==> self.bits@[j] == masked[j],
                forall|j: int| w < j < k ==> self.bits@[j] == u64::MAX,
                forall|j: int| k <= j < self.bits@.len() ==> self.bits@[j] == masked[j],
                masked[w as int] == grown[w as int] | (u64::MAX << b),
                w < grown.len(),
                64 * (masked.len() + 1) <= usize::MAX,
            decreases self.bits@.len() - k,
        {
            self.bits.set(k, u64::MAX);
            k = k + 1;
        }
        self.bits.push(u64::MAX);
        assert forall|i: int| 0 <= i < self.limit implies #[trigger] self.is_set_at(i) == words_has(masked, i) by {
            assert(i / 64 <= w);
        }
        assert forall|i: int| self.limit <= i < 64 * self.bits@.len() implies #[trigger] words_has(self.bits@, i) by {
            let c = (i % 64) as u64;
            lemma_full_and_empty(c);
            if i / 64 == w {
                lemma_or_high_bits(grown[w as int], b, c);
            }
        }
    }

    /// Number of words needed for the code's bits.
    pub fn size(&self) -> (r: usize)
        requires
            self.limit + 63 <= usize::MAX,
        ensures
            r == (self.limit + 63) / 64,
    {
        (self.limit + 63) / 64
    }

    pub fn program_limit(&self) -> (r: usize)
        ensures
            r == self.limit,
    {
        self.limit
    }

    /// The packed words.
    pub fn as_slice(&self) -> (r: &[u64])
        ensures
            r@ == self.bits@,
    {
        self.bits.as_slice()
    }

    /// Whether position `index` starts an instruction; true at and past the code length.
    pub fn is_set(&self, index: usize) -> (r: bool)
        ensures
            r == self.is_set_at(index as int),
    {
        index >= self.limit || words_test(&self.bits, index)
    }

    /// Marks position `index`, growing the words when needed.
    pub fn set_bit(&mut self, index: usize)
        ensures
            final(self).limit == old(self).limit,
            forall|j: int| #[trigger] final(self).is_set_at(j) == (j == index || old(self).is_set_at(j)),
    {
        words_set(&mut self.bits, index);
    }

    /// The distance, in argument bytes, from the instruction at `pc` to the
    /// next instruction start, capped at 24.
    pub fn skip(&self, pc: usize) -> (r: usize)
        requires
            pc + MAX_SKIP + 1 <= usize::MAX,
        ensures
            r == self.skip_spec(pc as int),
            r <= MAX_SKIP,
    {
        let mut k: usize = 0;
        while k < MAX_SKIP
            invariant
                k <= MAX_SKIP,
                pc + MAX_SKIP + 1 <= usize::MAX,
                forall|j: int| 0 <= j < k ==> !#[trigger] self.is_set_at(pc + 1 + j),
            decreases MAX_SKIP - k,
        {
            if self.is_set(pc + 1 + k) {
                proof {
                    self.lemma_run_from(pc + 1, MAX_SKIP as nat, k as nat);
                }
                return k;
            }
            k = k + 1;
        }
        proof {
            self.lemma_run_from(pc + 1, MAX_SKIP as nat, MAX_SKIP as nat);
        }
        MAX_SKIP
    }
}

} // verus!
