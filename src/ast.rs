//! Nodes of the abstract syntax tree.
use vstd::prelude::*;
use crate::token::Span;

verus! {

/// A node of the syntax tree, with the span of source text it stands for.
pub struct ASTNode {
    pub span: Span,
}

impl ASTNode {
    /// A node over the bytes from `start` (inclusive) to `end` (exclusive).
    pub fn new(start: usize, end: usize) -> (r: Self)
        ensures
            r.span.start == start,
            r.span.end == end,
    {
        Self { span: Span { start, end } }
    }
}

} // verus!
