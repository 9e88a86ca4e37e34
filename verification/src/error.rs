use vstd::prelude::*;

verus! {

/// Everything that can go wrong between raw input and a constructed map.
#[derive(Clone, Debug, PartialEq, Eq)]
pub enum MapError {
    /// A required input file is absent (reported by the I/O shell).
    InputMissing(String),
    /// A raw input fails local checks: ordering, ranges, shapes.
    InputMalformed(String),
    /// Inputs parse but contradict each other across files.
    Inconsistent(String),
    /// A binary map was written by a different format version.
    VersionMismatch(u64, u64),
}

impl MapError {
    /// A short machine-readable label for the error kind.
    pub fn kind_text(&self) -> (r: &'static str)
        ensures
            *self matches MapError::InputMissing(_) ==> r@ == "input missing"@,
            *self matches MapError::InputMalformed(_) ==> r@ == "input malformed"@,
            *self matches MapError::Inconsistent(_) ==> r@ == "inconsistent"@,
            *self matches MapError::VersionMismatch(_, _) ==> r@ == "version mismatch"@,
    {
        proof {
            reveal_strlit("input missing");
            reveal_strlit("input malformed");
            reveal_strlit("inconsistent");
            reveal_strlit("version mismatch");
        }
        match self {
            MapError::InputMissing(_) => "input missing",
            MapError::InputMalformed(_) => "input malformed",
            MapError::Inconsistent(_) => "inconsistent",
            MapError::VersionMismatch(_, _) => "version mismatch",
        }
    }
}

} // verus!
