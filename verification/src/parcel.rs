use vstd::prelude::*;

verus! {

/// Dense index of a parcel within a `Map`.
#[derive(Clone, Copy, Debug, PartialEq, Eq, Structural, PartialOrd, Ord, Hash)]
pub struct ParcelID(pub usize);

/// A land parcel: an outline with no further semantics.
#[derive(Clone, Debug, PartialEq, Eq)]
pub struct Parcel {
    pub id: ParcelID,
    /// Outline vertices, in millimetres.
    pub points: Vec<(u64, u64)>,
}

} // verus!
