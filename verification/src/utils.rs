use vstd::prelude::*;

verus! {

/// A source location in an RR file. A `start_line` of 0 marks a synthetic
/// node that has no location in the source.
#[derive(Debug, Clone, Copy, PartialEq, Eq)]
pub struct Span {
    pub start_line: u32,
    pub start_col: u32,
    pub end_line: u32,
    pub end_col: u32,
}

impl Default for Span {
    fn default() -> (s: Span)
        ensures
            s.start_line == 0,
            s.start_col == 0,
            s.end_line == 0,
            s.end_col == 0,
    {
        Span { start_line: 0, start_col: 0, end_line: 0, end_col: 0 }
    }
}

} // verus!
