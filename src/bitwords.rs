//! Bit vectors packed into 64-bit words, bit `i` living in word `i / 64`.
use vstd::prelude::*;

verus! {

/// Bit `b` of word `w`.
pub open spec fn word_has(w: u64, b: u64) -> bool {
    (w >> b) & 1u64 == 1u64
}

/// Bit `i` of a packed bit vector; bits past the last word are clear.
pub open spec fn words_has(words: Seq<u64>, i: int) -> bool {
    &&& 0 <= i
    &&& i / 64 < words.len()
    &&& word_has(words[i / 64], (i % 64) as u64)
}

pub proof fn lemma_or_bit(w: u64, b: u64, c: u64)
    requires
        b < 64,
        c < 64,
    ensures
        word_has(w | (1u64 << b), c) == (c == b || word_has(w, c)),
{
    assert(word_has(w | (1u64 << b), c) == (c == b || word_has(w, c))) by (bit_vector)
        requires
            b < 64,
            c < 64,
    ;
}

pub proof fn lemma_or_high_bits(w: u64, b: u64, c: u64)
    requires
        b < 64,
        c < 64,
    ensures
        word_has(w | (u64::MAX << b), c) == (c >= b || word_has(w, c)),
{
    assert(word_has(w | (u64::MAX << b), c) == (c >= b || word_has(w, c))) by (bit_vector)
        requires
            b < 64,
            c < 64,
    ;
}

pub proof fn lemma_full_and_empty(c: u64)
    requires
        c < 64,
    ensures
        word_has(u64::MAX, c),
        !word_has(0u64, c),
{
    assert(word_has(u64::MAX, c)) by (bit_vector)
        requires
            c < 64,
    ;
    assert(!word_has(0u64, c)) by (bit_vector)
        requires
            c < 64,
    ;
}

pub proof fn lemma_test_bit(w: u64, b: u64)
    requires
        b < 64,
    ensures
        ((w & (1u64 << b)) != 0u64) == word_has(w, b),
{
    assert(((w & (1u64 << b)) != 0u64) == word_has(w, b)) by (bit_vector)
        requires
            b < 64,
    ;
}

/// Reads bit `i`; positions past the last word read as clear.
pub fn words_test(words: &Vec<u64>, i: usize) -> (r: bool)
    ensures
        r == words_has(words@, i as int),
{
    let w = i / 64;
    if w >= words.len() {
        return false;
    }
    let b = (i % 64) as u64;
    proof {
        lemma_test_bit(words@[w as int], b);
    }
    (words[w] & (1u64 << b)) != 0
}

/// Sets bit `i`, growing the vector with zero words when needed.
pub fn words_set(words: &mut Vec<u64>, i: usize)
    ensures
        final(words)@.len() == if i / 64 < old(words)@.len() { old(words)@.len() } else { (i / 64 + 1) as nat },
        forall|j: int| words_has(final(words)@, j) == (j == i || words_has(old(words)@, j)),
{
    let w = i / 64;
    while words.len() <= w
        invariant
            w < old(words)@.len() ==> words@ == old(words)@,
            w >= old(words)@.len() ==> old(words)@.len() <= words@.len() <= w + 1,
            forall|k: int| 0 <= k < old(words)@.len() ==> words@[k] == old(words)@[k],
            forall|k: int| old(words)@.len() <= k < words@.len() ==> words@[k] == 0u64,
        decreases w + 1 - words@.len(),
    {
        words.push(0u64);
    }
    let b = (i % 64) as u64;
    let ghost mid = words@;
    words.set(w, words[w] | (1u64 << b));
    assert forall|j: int| words_has(words@, j) == (j == i || words_has(old(words)@, j)) by {
        if 0 <= j && j / 64 < words@.len() {
            let c = (j % 64) as u64;
            lemma_or_bit(mid[w as int], b, c);
            if j / 64 >= old(words)@.len() {
                lemma_full_and_empty(c);
            }
        }
    }
}

} // verus!
