use vstd::prelude::*;

verus! {

/// The kind of a parse failure.
///
/// `Syntax` covers every position where no grammar alternative matched, or
/// where a production failed after its commit point.  `Overflow` marks a
/// numeric literal whose value does not fit the 64-bit signed target.
/// `Expr` marks a structural fault found by the expression-tree builder
/// (a leading infix operator, an operator with no defined arm, or tokens
/// left over after the tree was built).
#[derive(Debug, Clone, Copy, PartialEq, Eq)]
pub enum ErrorKind {
    Syntax,
    Overflow,
    Expr,
}

/// A parse failure, returned as a value: nothing in this crate panics on
/// malformed input.
///
/// `committed` tells an enclosing alternation whether it may try its next
/// branch: a committed failure happened past a production's point of no
/// return (for instance inside a collection whose opening delimiter was
/// already consumed) and must be surfaced as it is.  `pos` is the offset,
/// in characters, where progress stopped, and `context` is a stack of the
/// production names that were active, outermost last.
#[derive(Debug, PartialEq, Eq)]
pub struct ParseError {
    pub kind: ErrorKind,
    pub committed: bool,
    pub pos: usize,
    pub context: Vec<&'static str>,
}

impl ParseError {
    /// A backtrackable failure: no alternative matched at `pos`.
    pub fn soft(pos: usize) -> (e: ParseError)
        ensures
            e.kind == ErrorKind::Syntax,
            !e.committed,
            e.pos == pos,
    {
        ParseError { kind: ErrorKind::Syntax, committed: false, pos, context: Vec::new() }
    }

    /// A committed failure: a production failed past its point of no return.
    pub fn hard(pos: usize) -> (e: ParseError)
        ensures
            e.kind == ErrorKind::Syntax,
            e.committed,
            e.pos == pos,
    {
        ParseError { kind: ErrorKind::Syntax, committed: true, pos, context: Vec::new() }
    }

    /// A numeric literal out of range for its 64-bit signed target.
    pub fn overflow(pos: usize) -> (e: ParseError)
        ensures
            e.kind == ErrorKind::Overflow,
            e.committed,
            e.pos == pos,
    {
        ParseError { kind: ErrorKind::Overflow, committed: true, pos, context: Vec::new() }
    }

    /// A structural fault in an expression token sequence.
    pub fn expr(pos: usize) -> (e: ParseError)
        ensures
            e.kind == ErrorKind::Expr,
            e.committed,
            e.pos == pos,
    {
        ParseError { kind: ErrorKind::Expr, committed: true, pos, context: Vec::new() }
    }

    /// Marks the failure committed, as a production does when it fails past
    /// its commit point; kind and position are kept.
    pub fn commit(self) -> (e: ParseError)
        ensures
            e.kind == self.kind,
            e.committed,
            e.pos == self.pos,
    {
        ParseError { committed: true, ..self }
    }

    /// Records that the failure happened inside the named production; the
    /// stack grows outward, so the outermost production stands last.
    pub fn ctx(self, name: &'static str) -> (e: ParseError)
        ensures
            e.kind == self.kind,
            e.committed == self.committed,
            e.pos == self.pos,
            e.context@ == self.context@.push(name),
    {
        let mut e = self;
        e.context.push(name);
        e
    }
}

/// The outcome a grammar production is specified to have: a parsed value
/// together with the position just past the consumed text, or one of the
/// three failure modes of [`ParseError`].
pub enum Pr<T> {
    Parsed(T, int),
    Soft,
    Hard,
    Over,
}

/// How an executable result must relate to a specified failure outcome.
pub open spec fn err_matches(sr_soft: bool, sr_hard: bool, sr_over: bool, e: ParseError) -> bool {
    &&& sr_soft ==> !e.committed && e.kind == ErrorKind::Syntax
    &&& sr_hard ==> e.committed && e.kind == ErrorKind::Syntax
    &&& sr_over ==> e.committed && e.kind == ErrorKind::Overflow
}

} // verus!
