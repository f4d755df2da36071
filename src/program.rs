//! The code of a program, followed by zero padding.
use vstd::prelude::*;

use crate::consts::CODE_PADDING;

verus! {

#[derive(Debug)]
pub struct Program {
    pub program: Vec<u8>,
    pub size: usize,
}

impl Program {
    /// The buffer holds the code followed by `CODE_PADDING` zero bytes.
    pub open spec fn wf(&self) -> bool {
        &&& self.program@.len() == self.size + CODE_PADDING
        &&& self.size + CODE_PADDING <= usize::MAX
        &&& forall|i: int| self.size <= i < self.program@.len() ==> self.program@[i] == 0u8
    }

    /// The code itself, without padding.
    pub open spec fn code(&self) -> Seq<u8> {
        self.program@.subrange(0, self.size as int)
    }

    /// Byte `i` of the padded buffer.
    pub open spec fn byte(&self, i: int) -> u8 {
        self.program@[i]
    }

    pub fn new(data: &[u8]) -> (r: Self)
        requires
            data@.len() + CODE_PADDING <= usize::MAX,
        ensures
            r.wf(),
            r.code() == data@,
            r.size == data@.len(),
    {
        let mut program: Vec<u8> = Vec::new();
        let mut i: usize = 0;
        while i < data.len()
            invariant
                program@ == data@.subrange(0, i as int),
                i <= data@.len(),
            decreases data@.len() - i,
        {
            program.push(data[i]);
            i = i + 1;
            assert(program@ =~= data@.subrange(0, i as int));
        }
        Self::from_vec(program)
    }

    pub fn from_vec(data: Vec<u8>) -> (r: Self)
        requires
            data@.len() + CODE_PADDING <= usize::MAX,
        ensures
            r.wf(),
            r.code() == data@,
            r.size == data@.len(),
    {
        let size = data.len();
        let mut program = Self { program: data, size };
        program.pad();
        assert(program.code() =~= data@);
        program
    }

    /// Appends `CODE_PADDING` zero bytes to the buffer.
    pub fn pad(&mut self)
        requires
            old(self).program@.len() + CODE_PADDING <= usize::MAX,
        ensures
            final(self).size == old(self).size,
            final(self).program@ == old(self).program@ + Seq::new(CODE_PADDING as nat, |i: int| 0u8),
    {
        let ghost start = self.program@;
        let mut k: usize = 0;
        while k < CODE_PADDING
            invariant
                k <= CODE_PADDING,
                self.size == old(self).size,
                start == old(self).program@,
                self.program@ == start + Seq::new(k as nat, |i: int| 0u8),
                start.len() + CODE_PADDING <= usize::MAX,
            decreases CODE_PADDING - k,
        {
            self.program.push(0u8);
            k = k + 1;
            assert(self.program@ =~= start + Seq::new(k as nat, |i: int| 0u8));
        }
    }

    pub fn len(&self) -> (r: usize)
        ensures
            r == self.size,
    {
        self.size
    }

    pub fn as_slice(&self) -> (r: &[u8])
        requires
            self.wf(),
        ensures
            r@ == self.code(),
    {
        vstd::slice::slice_subrange(self.program.as_slice(), 0, self.size)
    }

    /// Byte `index` of the padded buffer.
    pub fn at(&self, index: usize) -> (r: u8)
        requires
            index < self.program@.len(),
        ensures
            r == self.byte(index as int),
    {
        self.program[index]
    }
}

} // verus!
