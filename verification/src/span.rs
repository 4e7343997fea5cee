//! Source spans: where in the text a node of the tree was read.

use vstd::prelude::*;
use vstd::std_specs::cmp::PartialEqSpecImpl;

verus! {

/// A range of the source text, by the offsets of its first character and of
/// the character after its last, counted in characters.
#[derive(Clone, Copy, Debug)]
pub struct SourceSpan {
    pub start: usize,
    pub end: usize,
}

impl SourceSpan {
    /// The span from `start` to `end`.
    pub fn new(start: usize, end: usize) -> (r: Self)
        ensures
            r.start == start,
            r.end == end,
    {
        SourceSpan { start, end }
    }
}

impl Default for SourceSpan {
    /// The span of a node that was built and not read.
    fn default() -> (r: Self)
        ensures
            r.start == 0,
            r.end == 0,
    {
        SourceSpan { start: 0, end: 0 }
    }
}

impl PartialEqSpecImpl for SourceSpan {
    open spec fn obeys_eq_spec() -> bool {
        true
    }

    open spec fn eq_spec(&self, other: &SourceSpan) -> bool {
        true
    }
}

impl PartialEq for SourceSpan {
    /// Spans never tell two trees apart: trees are compared by what they
    /// hold, wherever they were read.
    fn eq(&self, other: &SourceSpan) -> (r: bool) {
        true
    }
}

impl Eq for SourceSpan {}

} // verus!
