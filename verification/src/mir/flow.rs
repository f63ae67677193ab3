use vstd::prelude::*;

verus! {

/// A set of dataflow facts about a value, kept as a bit set.
#[derive(Debug, Clone, Copy, PartialEq, Eq)]
pub struct Facts {
    bits: u32,
}

impl View for Facts {
    type V = u32;

    closed spec fn view(&self) -> u32 {
        self.bits
    }
}

impl Facts {
    /// The value is known to be `>= 0`.
    pub const NON_NEG: u32 = 1;
    /// The value is known not to be `NA`.
    pub const NON_NA: u32 = 2;
    /// The value is an integer scalar.
    pub const INT_SCALAR: u32 = 4;
    /// The value is a logical scalar.
    pub const BOOL_SCALAR: u32 = 8;
    /// The value is a vector.
    pub const IS_VECTOR: u32 = 16;

    pub fn empty() -> (f: Facts)
        ensures
            f@ == 0,
    {
        Facts { bits: 0 }
    }

    pub fn from_bits(bits: u32) -> (f: Facts)
        ensures
            f@ == bits,
    {
        Facts { bits }
    }

    pub fn bits(&self) -> (b: u32)
        ensures
            b == self@,
    {
        self.bits
    }

    /// Adds every fact of `mask`.
    pub fn add(&mut self, mask: u32)
        ensures
            final(self)@ == old(self)@ | mask,
    {
        self.bits = self.bits | mask;
    }

    /// Whether every fact of `mask` holds.
    pub fn has(&self, mask: u32) -> (r: bool)
        ensures
            r == (self@ & mask == mask),
    {
        self.bits & mask == mask
    }
}

} // verus!
