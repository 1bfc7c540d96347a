//! Contains the `Span` type which represents a range of source code.

use crate::cache::StringKey;
use vstd::prelude::*;

verus! {

/// A range of bytes in one source file.
#[derive(Copy, Clone, Debug, Hash, PartialEq, Eq, Structural)]
pub struct Span {
    pub file: StringKey,
    pub pos: usize,
    pub len: usize,
}

impl Span {
    /// The first position after the span.
    pub open spec fn end(self) -> int {
        self.pos + self.len
    }

    /// Whether the span's end is a position that a `usize` can hold.
    pub open spec fn bounded(self) -> bool {
        self.end() <= usize::MAX
    }

    /// Whether position `i` lies inside the span.
    pub open spec fn covers(self, i: int) -> bool {
        self.pos <= i < self.end()
    }

    /// The smallest span that holds both `self` and `other`: it starts where
    /// the earlier of the two starts and ends where the later of the two ends.
    pub open spec fn cover(self, other: Span) -> Span
        recommends
            self.bounded(),
            other.bounded(),
    {
        let pos = if self.pos <= other.pos { self.pos } else { other.pos };
        let end = if self.end() >= other.end() { self.end() } else { other.end() };
        Span { file: self.file, pos, len: (end - pos) as usize }
    }

    /// Creates a span of no elements.
    pub fn new() -> (s: Span)
        ensures
            s == (Span { file: StringKey(0), pos: 0, len: 0 }),
    {
        Span { file: StringKey::empty(), pos: 0, len: 0 }
    }

    /// Extends this span to cover the range of the given span.
    pub fn expand(this: &mut Span, other: Span)
        requires
            old(this).file == other.file,
            old(this).bounded(),
            other.bounded(),
        ensures
            *final(this) == old(this).cover(other),
            final(this).bounded(),
    {
        let pos = if this.pos <= other.pos { this.pos } else { other.pos };
        let this_end = this.pos + this.len;
        let other_end = other.pos + other.len;
        let end = if this_end >= other_end { this_end } else { other_end };
        this.pos = pos;
        this.len = end - pos;
    }
}

impl Default for Span {
    fn default() -> (s: Span)
        ensures
            s == (Span { file: StringKey(0), pos: 0, len: 0 }),
    {
        Span::new()
    }
}

/// The cover of two bounded spans starts at the smaller start, ends at the
/// larger end, and is bounded again.
pub proof fn lemma_cover_bounds(a: Span, b: Span)
    requires
        a.bounded(),
        b.bounded(),
    ensures
        a.cover(b).bounded(),
        a.cover(b).file == a.file,
        a.cover(b).pos == if a.pos <= b.pos { a.pos } else { b.pos },
        a.cover(b).end() == if a.end() >= b.end() { a.end() } else { b.end() },
{
}

/// Expanding is commutative over spans of one file.
pub proof fn lemma_cover_commutative(a: Span, b: Span)
    requires
        a.file == b.file,
        a.bounded(),
        b.bounded(),
    ensures
        a.cover(b) == b.cover(a),
{
}

/// Expanding is associative over spans of one file.
pub proof fn lemma_cover_associative(a: Span, b: Span, c: Span)
    requires
        a.file == b.file,
        b.file == c.file,
        a.bounded(),
        b.bounded(),
        c.bounded(),
    ensures
        a.cover(b).cover(c) == a.cover(b.cover(c)),
{
}

/// The cover holds every position of either span, and is the smallest span
/// that does: it starts at the start of one of them and ends at the end of
/// one of them.
pub proof fn lemma_cover_is_hull(a: Span, b: Span)
    requires
        a.file == b.file,
        a.bounded(),
        b.bounded(),
    ensures
        forall|i: int| a.covers(i) || b.covers(i) ==> #[trigger] a.cover(b).covers(i),
        a.cover(b).pos == a.pos || a.cover(b).pos == b.pos,
        a.cover(b).end() == a.end() || a.cover(b).end() == b.end(),
{
}

/// Where two spans overlap or touch, the positions of their cover are exactly
/// the positions of the one together with those of the other.
pub proof fn lemma_cover_is_union(a: Span, b: Span)
    requires
        a.file == b.file,
        a.bounded(),
        b.bounded(),
        a.pos <= b.end(),
        b.pos <= a.end(),
    ensures
        forall|i: int| #[trigger] a.cover(b).covers(i) <==> a.covers(i) || b.covers(i),
{
}

/// A value associated with a span.
#[derive(Copy, Clone, Debug, Hash, PartialEq, Eq)]
pub struct Spanned<T> {
    pub span: Span,
    pub value: T,
}

impl<T> Spanned<T> {
    pub fn from_span_value(span: Span, value: T) -> (s: Spanned<T>)
        ensures
            s == (Spanned { span, value }),
    {
        Spanned { span, value }
    }

    pub fn into_span_value(self) -> (r: (Span, T))
        ensures
            r == (self.span, self.value),
    {
        (self.span, self.value)
    }

    pub fn span(this: &Spanned<T>) -> (s: Span)
        ensures
            s == this.span,
    {
        this.span
    }

    /// The value that the span is attached to.
    pub fn value(this: &Spanned<T>) -> (v: &T)
        ensures
            *v == this.value,
    {
        &this.value
    }
}

} // verus!
