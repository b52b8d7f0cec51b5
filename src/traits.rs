//! The operations networks and addresses share.

use vstd::prelude::*;

verus! {

/// Masking one value with another of the same kind.
pub trait Mask: Sized {
    /// The result of masking.
    type Output;

    /// What masking `self` with `other` gives.
    spec fn spec_mask(&self, other: &Self) -> Self::Output;

    /// Masks `self` with `other`.
    fn mask(&self, other: &Self) -> (r: Self::Output)
        ensures
            r == self.spec_mask(other),
    ;
}

/// Containment of one value within another.
pub trait Contains<T> {
    /// Whether `self` contains `other`.
    spec fn spec_contains(&self, other: &T) -> bool;

    /// Tests whether `self` contains `other`.
    fn contains(&self, other: &T) -> (r: bool)
        ensures
            r == self.spec_contains(other),
    ;
}

/// Merging two networks into one that holds both.
pub trait Merge: Sized {
    /// The result of a merge.
    type Output;

    /// What merging `self` with `other` gives.
    spec fn spec_merge(&self, other: &Self) -> Self::Output;

    /// Merges `self` with `other`.
    fn merge(&self, other: &Self) -> (r: Self::Output)
        ensures
            r == self.spec_merge(other),
    ;
}

/// The broadcast address of a network.
pub trait Broadcast {
    /// The type of the broadcast address.
    type Output;

    /// The broadcast address of `self`.
    spec fn spec_broadcast(&self) -> Self::Output;

    /// Computes the broadcast address of `self`.
    fn broadcast(&self) -> (r: Self::Output)
        ensures
            r == self.spec_broadcast(),
    ;
}

} // verus!
