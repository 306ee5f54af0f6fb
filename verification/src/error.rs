//! Errors reported when a textual pattern does not match the grammar.

use vstd::prelude::*;

verus! {

/// A [`Reason`] gives more context about why parsing failed.
#[derive(Clone, Debug, PartialEq, Eq, Structural)]
pub enum Reason {
    /// Encountered an unexpected input in the stream.
    Unexpected,
    /// Encountered an unclosed set of delimiters.
    Unclosed,
    /// The given character is not a valid hexdigit.
    InvalidHexdigit(char),
}

/// A parse error before it is joined with the source text: the reason and
/// the `[start, end)` character span of the offending input.
#[derive(Clone, Debug)]
pub(crate) struct SimpleError {
    pub(crate) span_start: usize,
    pub(crate) span_end: usize,
    pub(crate) reason: Reason,
}

impl SimpleError {
    pub(crate) fn invalid_hexdigit(span_start: usize, span_end: usize, found: char) -> (r: Self)
        ensures
            r.span_start == span_start,
            r.span_end == span_end,
            r.reason == Reason::InvalidHexdigit(found),
    {
        Self { span_start, span_end, reason: Reason::InvalidHexdigit(found) }
    }
}

/// Describes errors encountered when parsing custom pattern syntax.
#[derive(Clone, Debug)]
pub struct Error<'a> {
    pub(crate) source: &'a str,
    pub(crate) inner: SimpleError,
}

impl<'a> Error<'a> {
    /// Joins a parse failure with the pattern text it was found in.
    pub(crate) fn join(source: &'a str, inner: SimpleError) -> (r: Self)
        ensures
            r.spec_source() == source,
            r.spec_span() == (inner.span_start as int, inner.span_end as int),
            r.spec_reason() == inner.reason,
    {
        Self { source, inner }
    }

    /// The `[start, end)` character span of the offending input.
    pub closed spec fn spec_span(&self) -> (int, int) {
        (self.inner.span_start as int, self.inner.span_end as int)
    }

    /// The reason the parse failed.
    pub closed spec fn spec_reason(&self) -> Reason {
        self.inner.reason
    }

    /// The pattern text the error was found in.
    pub closed spec fn spec_source(&self) -> &'a str {
        self.source
    }

    /// The span over which the error was encountered.
    pub fn span(&self) -> (r: core::ops::Range<usize>)
        ensures
            r.start == self.spec_span().0,
            r.end == self.spec_span().1,
    {
        self.inner.span_start..self.inner.span_end
    }

    /// The reason describing why the error occurred.
    pub fn reason(&self) -> (r: &Reason)
        ensures
            r == self.spec_reason(),
    {
        &self.inner.reason
    }

    /// The pattern text that failed to parse.
    pub fn source(&self) -> (r: &'a str)
        ensures
            r == self.spec_source(),
    {
        self.source
    }
}

} // verus!
