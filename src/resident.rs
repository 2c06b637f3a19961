use vstd::prelude::*;

verus! {

/// What a value weighs in memory, in bytes.
pub trait ResidentSize {
    /// The size that `resident_size` reports.
    spec fn spec_resident_size(&self) -> nat;

    /// The resident size of the value. It stays the same while the value is
    /// not mutated.
    fn resident_size(&self) -> (r: usize)
        ensures
            r == self.spec_resident_size(),
    ;
}

impl ResidentSize for Vec<u8> {
    open spec fn spec_resident_size(&self) -> nat {
        self@.len()
    }

    fn resident_size(&self) -> (r: usize) {
        self.len()
    }
}

} // verus!
