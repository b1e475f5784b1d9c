use vstd::prelude::*;

verus! {

/// A span of source text, from a start position to an end position.
#[derive(Clone, Copy, Debug, PartialEq, Eq, Structural)]
pub struct Region {
    pub start_line: u32,
    pub start_col: u32,
    pub end_line: u32,
    pub end_col: u32,
}

/// A value together with the region of source text it came from.
#[derive(Clone, Debug, PartialEq, Eq)]
pub struct Located<T> {
    pub region: Region,
    pub value: T,
}

} // verus!
