use vstd::prelude::*;

verus! {

/// Values with a deterministic digest, written as a string.
pub trait Hashable {
    /// The digest of `self`, as a function of its state.
    spec fn spec_hash(&self) -> Seq<char>;

    fn hash(&self) -> (r: String)
        ensures
            r@ == self.spec_hash(),
    ;
}

/// Values that carry a validity flag.
pub trait Validatable {
    spec fn spec_valid(&self) -> bool;

    fn is_valid(&self) -> (r: bool)
        ensures
            r == self.spec_valid(),
    ;
}

} // verus!
