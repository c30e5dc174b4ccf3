use vstd::prelude::*;
use crate::sources::SourceKey;

verus! {

/// A half-open range `start..end` of byte offsets into one source text.
#[derive(Clone, Copy, PartialEq, Eq, Structural, Debug, Hash)]
pub struct Span {
    pub start: usize,
    pub end: usize,
}

pub open spec fn min_usize(a: usize, b: usize) -> usize {
    if a <= b { a } else { b }
}

pub open spec fn max_usize(a: usize, b: usize) -> usize {
    if a >= b { a } else { b }
}

/// The smallest span that covers both `a` and `b`.
pub open spec fn span_union(a: Span, b: Span) -> Span {
    Span { start: min_usize(a.start, b.start), end: max_usize(a.end, b.end) }
}

impl Span {
    pub open spec fn wf(self) -> bool {
        self.start <= self.end
    }

    pub fn new(start: usize, end: usize) -> (r: Span)
        ensures
            r.start == start,
            r.end == end,
    {
        Span { start, end }
    }

    /// Grows `self` so that it also covers `other`.
    pub fn extended(self, other: Span) -> (r: Span)
        ensures
            r == span_union(self, other),
            r.start == min_usize(self.start, other.start),
            r.end == max_usize(self.end, other.end),
    {
        let start = if self.start <= other.start { self.start } else { other.start };
        let end = if self.end >= other.end { self.end } else { other.end };
        Span { start, end }
    }
}

impl From<core::ops::Range<usize>> for Span {
    fn from(value: core::ops::Range<usize>) -> (r: Span) {
        Span { start: value.start, end: value.end }
    }
}

impl vstd::std_specs::convert::FromSpecImpl<core::ops::Range<usize>> for Span {
    open spec fn obeys_from_spec() -> bool {
        true
    }

    open spec fn from_spec(value: core::ops::Range<usize>) -> Span {
        Span { start: value.start, end: value.end }
    }
}

/// Extending is commutative.
pub proof fn lemma_extend_commutative(a: Span, b: Span)
    ensures
        span_union(a, b) == span_union(b, a),
{
}

/// Extending is associative.
pub proof fn lemma_extend_associative(a: Span, b: Span, c: Span)
    ensures
        span_union(span_union(a, b), c) == span_union(a, span_union(b, c)),
{
}

/// The union of two well-formed spans is well formed and contains both.
pub proof fn lemma_extend_covers(a: Span, b: Span)
    requires
        a.wf(),
        b.wf(),
    ensures
        span_union(a, b).wf(),
        span_union(a, b).start <= a.start,
        span_union(a, b).start <= b.start,
        span_union(a, b).end >= a.end,
        span_union(a, b).end >= b.end,
{
}

/// A value tagged with the span of text it came from.
#[derive(Clone, Copy, PartialEq, Eq, Debug, Hash)]
pub struct Spanned<T> {
    pub val: T,
    pub span: Span,
}

impl<T> Spanned<T> {
    /// Rewraps the transformed value under the same span.
    pub fn map<R, F: FnOnce(T) -> R>(self, f: F) -> (r: Spanned<R>)
        requires
            f.requires((self.val,)),
        ensures
            r.span == self.span,
            f.ensures((self.val,), r.val),
    {
        Spanned { val: f(self.val), span: self.span }
    }
}

/// Tags any value with a span.
pub trait Spannable: Sized {
    fn spanned(self, span: Span) -> (r: Spanned<Self>)
        ensures
            r.val == self,
            r.span == span,
    ;
}

impl<T> Spannable for T {
    fn spanned(self, span: Span) -> (r: Spanned<Self>) {
        Spanned { val: self, span }
    }
}

/// A span in one registered source.
#[derive(Clone, Copy, Debug)]
pub struct CodeArea {
    pub span: Span,
    pub src: SourceKey,
}

} // verus!
