use vstd::prelude::*;

verus! {

/// Dense index of an extra shape within a `Map`.
#[derive(Clone, Copy, Debug, PartialEq, Eq, Structural, PartialOrd, Ord, Hash)]
pub struct ExtraShapeID(pub usize);

/// An auxiliary geometry (e.g. a parking blockface) kept only for display
/// and debugging, with its source attributes.
#[derive(Clone, Debug, PartialEq, Eq)]
pub struct ExtraShape {
    pub id: ExtraShapeID,
    /// Attribute key/value pairs, sorted by key so iteration order is
    /// reproducible.
    pub attributes: Vec<(String, String)>,
    /// Shape vertices, in millimetres.
    pub points: Vec<(u64, u64)>,
}

} // verus!
