//! The register file: thirteen 64-bit registers.
use vstd::prelude::*;

verus! {

#[derive(Debug, Clone, Copy)]
pub struct Registers {
    pub data: [u64; 13],
}

impl View for Registers {
    type V = Seq<u64>;

    open spec fn view(&self) -> Seq<u64> {
        self.data@
    }
}

impl Registers {
    /// All registers zero.
    pub fn new() -> (r: Self)
        ensures
            r@ == Seq::new(13, |i: int| 0u64),
    {
        let r = Self { data: [0u64; 13] };
        assert(r@ =~= Seq::new(13, |i: int| 0u64));
        r
    }

    pub fn get(&self, index: usize) -> (r: u64)
        requires
            index < 13,
        ensures
            r == self@[index as int],
    {
        self.data[index]
    }

    pub fn set(&mut self, index: usize, value: u64)
        requires
            index < 13,
        ensures
            final(self)@ == old(self)@.update(index as int, value),
    {
        self.data[index] = value;
    }

    pub fn from_slice(slice: [u64; 13]) -> (r: Self)
        ensures
            r@ == slice@,
    {
        Self { data: slice }
    }

    /// The first (up to) thirteen values of `vec`; missing ones are zero.
    pub fn from_vec(vec: Vec<u64>) -> (r: Self)
        ensures
            r@ == Seq::new(13, |i: int| if i < vec@.len() { vec@[i] } else { 0u64 }),
    {
        let mut data = [0u64; 13];
        let len: usize = if vec.len() < 13 { vec.len() } else { 13 };
        let mut i: usize = 0;
        while i < 13
            invariant
                len == if vec@.len() < 13 { vec@.len() } else { 13 },
                data@.len() == 13,
                forall|j: int| 0 <= j < i ==> data@[j] == if j < vec@.len() { vec@[j] } else { 0u64 },
                forall|j: int| i <= j < 13 ==> data@[j] == 0u64,
            decreases 13 - i,
        {
            if i < len {
                data[i] = vec[i];
            }
            i = i + 1;
        }
        let r = Self { data };
        assert(r@ =~= Seq::new(13, |i: int| if i < vec@.len() { vec@[i] } else { 0u64 }));
        r
    }
}

} // verus!
