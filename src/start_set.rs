//! The set of positions that jumps and branches may land on.
use vstd::prelude::*;

use crate::bitmask::BitMask;
use crate::bitwords::{lemma_full_and_empty, words_has, words_set, words_test};
use crate::opcodes::{is_termination, is_termination_instruction};
use crate::program::Program;

verus! {

/// Position of the instruction that follows the one at `pos`.
pub open spec fn next_pos(bitmask: &BitMask, pos: int) -> int {
    pos + 1 + bitmask.skip_spec(pos)
}

/// The `k`-th instruction position met when walking the code from 0.
pub open spec fn walk(bitmask: &BitMask, k: nat) -> int
    decreases k,
{
    if k == 0 {
        0
    } else {
        next_pos(bitmask, walk(bitmask, (k - 1) as nat))
    }
}

/// Whether the walk's `k`-th instruction lies in the code and terminates a block.
pub open spec fn ends_block(program: &Program, bitmask: &BitMask, k: nat) -> bool {
    &&& walk(bitmask, k) < program.size
    &&& is_termination(program.byte(walk(bitmask, k)))
}

/// Valid jump targets: position 0, and the position right after each
/// terminating instruction met when walking the code.
pub open spec fn is_block_start(program: &Program, bitmask: &BitMask, i: int) -> bool {
    ||| i == 0
    ||| exists|k: nat| #[trigger] ends_block(program, bitmask, k) && next_pos(bitmask, walk(bitmask, k)) == i
}

pub proof fn lemma_walk_grows(bitmask: &BitMask, j: nat, k: nat)
    requires
        j < k,
    ensures
        walk(bitmask, j) < walk(bitmask, k),
    decreases k,
{
    if j < k - 1 {
        lemma_walk_grows(bitmask, j, (k - 1) as nat);
    }
}

#[derive(Debug)]
pub struct StartSet {
    pub set: Vec<u64>,
}

impl StartSet {
    pub open spec fn contains(&self, i: int) -> bool {
        words_has(self.set@, i)
    }

    /// An empty set with room for `size` words.
    pub fn new(size: usize) -> (r: Self)
        ensures
            r.set@.len() == size,
            forall|i: int| !#[trigger] r.contains(i),
    {
        let mut set: Vec<u64> = Vec::new();
        while set.len() < size
            invariant
                set@.len() <= size,
                forall|k: int| 0 <= k < set@.len() ==> set@[k] == 0u64,
            decreases size - set@.len(),
        {
            set.push(0u64);
        }
        let r = Self { set };
        assert forall|i: int| !#[trigger] r.contains(i) by {
            if 0 <= i && i / 64 < r.set@.len() {
                lemma_full_and_empty((i % 64) as u64);
            }
        }
        r
    }

    /// Walks the code from position 0, instruction by instruction, and marks
    /// 0 and the position after every terminating instruction.
    pub fn build(program: &Program, bitmask: &BitMask) -> (r: Self)
        requires
            program.wf(),
        ensures
            forall|i: int| #[trigger] r.contains(i) == is_block_start(program, bitmask, i),
    {
        let mut start_set = Self::new(program.len() / 64 + 1);
        start_set.add(0);
        let mut pos: usize = 0;
        let ghost mut k: nat = 0;
        while pos < program.len()
            invariant
                program.wf(),
                pos <= program.size + 25,
                pos == walk(bitmask, k),
                forall|i: int|
                    #[trigger] start_set.contains(i) == (i == 0 || exists|j: nat|
                        j < k && #[trigger] ends_block(program, bitmask, j) && next_pos(
                            bitmask,
                            walk(bitmask, j),
                        ) == i),
                forall|j: nat| j < k ==> walk(bitmask, j) < program.size,
            decreases program.size + 25 - pos,
        {
            let opcode = program.at(pos);
            let next = pos + 1 + bitmask.skip(pos);
            let ghost old_set = start_set;
            if is_termination_instruction(opcode) {
                start_set.add(next);
            }
            proof {
                assert(ends_block(program, bitmask, k) == is_termination(opcode));
                assert forall|i: int|
                    #[trigger] start_set.contains(i) == (i == 0 || exists|j: nat|
                        j < k + 1 && #[trigger] ends_block(program, bitmask, j) && next_pos(
                            bitmask,
                            walk(bitmask, j),
                        ) == i) by {
                    if start_set.contains(i) && i != 0 && !old_set.contains(i) {
                        assert(ends_block(program, bitmask, k) && next_pos(bitmask, walk(bitmask, k)) == i);
                    }
                    if old_set.contains(i) && i != 0 {
                        let j = choose|j: nat|
                            j < k && #[trigger] ends_block(program, bitmask, j) && next_pos(
                                bitmask,
                                walk(bitmask, j),
                            ) == i;
                        assert(j < k + 1);
                    }
                    if (exists|j: nat|
                        j < k + 1 && #[trigger] ends_block(program, bitmask, j) && next_pos(
                            bitmask,
                            walk(bitmask, j),
                        ) == i) {
                        let j = choose|j: nat|
                            j < k + 1 && #[trigger] ends_block(program, bitmask, j) && next_pos(
                                bitmask,
                                walk(bitmask, j),
                            ) == i;
                        if j < k {
                            assert(old_set.contains(i));
                        }
                    }
                }
                k = k + 1;
            }
            pos = next;
        }
        proof {
            assert forall|i: int| #[trigger] start_set.contains(i) == is_block_start(program, bitmask, i) by {
                if exists|j: nat| #[trigger] ends_block(program, bitmask, j) && next_pos(bitmask, walk(bitmask, j)) == i {
                    let j = choose|j: nat| #[trigger] ends_block(program, bitmask, j) && next_pos(bitmask, walk(bitmask, j)) == i;
                    if j >= k {
                        if j > k {
                            lemma_walk_grows(bitmask, k, j);
                        }
                    }
                    assert(j < k);
                }
            }
        }
        start_set
    }

    /// Whether `index` is a valid jump target.
    pub fn includes(&self, index: usize) -> (r: bool)
        ensures
            r == self.contains(index as int),
    {
        words_test(&self.set, index)
    }

    /// Marks `index` as a valid jump target.
    pub fn add(&mut self, index: usize)
        ensures
            forall|j: int| #[trigger] final(self).contains(j) == (j == index || old(self).contains(j)),
    {
        words_set(&mut self.set, index);
    }
}

} // verus!
