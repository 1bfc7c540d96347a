//! Qualified identifiers.

use crate::ast::ident::Ident;
use crate::ast::ident::QualifiedIdent;
use crate::cache::key_of;
use crate::cache::lemma_with_name_ok;
use crate::cache::StringKey;
use crate::parse::atoms::group_atoms;
use crate::parse::atoms::parsed_ident;
use crate::parse::group_parse_state;
use crate::parse::ParseState;
use crate::parse::Parser;
use crate::span::Span;
use crate::span::Spanned;
use crate::parse::lemma_advance;
use crate::token::TokenKind;
use crate::tokenizer::rules::lemma_scan_scope;
use crate::tokenizer::text::lemma_no_space;
use crate::tokenizer::text::lemma_space_end;
use crate::tokenizer::text::lemma_text_concat;
use crate::tokenizer::text::space_end;
use crate::tokenizer::text::space_len_at;
use vstd::prelude::*;
use vstd::utf8::*;

verus! {

broadcast use {group_parse_state, group_atoms};

/// The segments of a qualified name behind its first ones: as long as `::`
/// follows, it is consumed with the identifier behind it, and the span grows
/// to cover that identifier.
#[verifier::opaque]
pub open spec fn more_segments(s: ParseState, span: Span, segments: Seq<Ident>) -> (
    Spanned<Seq<Ident>>,
    ParseState,
)
    decreases s.remaining(),
    when s.wf()
{
    let (scope, s1) = s.consume(TokenKind::Scope);
    if scope.value is Some {
        let (id, s2) = parsed_ident(s1);
        more_segments(s2, span.cover(id.span), segments.push(id.value))
    } else {
        (Spanned { span, value: segments }, s1)
    }
}

/// A qualified name: one identifier, then `::` and an identifier as often as
/// `::` follows.
#[verifier::opaque]
pub open spec fn parsed_qualified_ident(s: ParseState) -> (Spanned<Seq<Ident>>, ParseState) {
    let (id, s1) = parsed_ident(s);
    more_segments(s1, id.span, seq![id.value])
}

/// A qualified name consumes the next token, and its span lies in the
/// source, in the file of the parse.
pub broadcast proof fn lemma_parsed_qualified_ident(s: ParseState)
    requires
        s.wf(),
    ensures
        (#[trigger] parsed_qualified_ident(s)).1.follows(s.advance()),
{
    reveal(parsed_qualified_ident);
    let (id, s1) = parsed_ident(s);
    lemma_more_segments(s1, id.span, seq![id.value]);
}

/// Further segments leave a state that follows the one they began in.
pub proof fn lemma_more_segments(s: ParseState, span: Span, segments: Seq<Ident>)
    requires
        s.wf(),
    ensures
        more_segments(s, span, segments).1.follows(s),
    decreases s.remaining(),
{
    reveal(more_segments);
    let (scope, s1) = s.consume(TokenKind::Scope);
    if scope.value is Some {
        let (id, s2) = parsed_ident(s1);
        lemma_more_segments(s2, span.cover(id.span), segments.push(id.value));
    }
}

pub broadcast group group_paths {
    lemma_parsed_qualified_ident,
}

/// The text of a segment: the string that its key stands for.
pub open spec fn segment_text(names: Seq<Seq<char>>, segment: Ident) -> Seq<char> {
    match segment {
        Ident::Ident(key) => names[key.0 as int],
        Ident::Error => Seq::<char>::empty(),
    }
}

/// The text of a qualified name: the strings of its segments with `::`
/// between them.
pub open spec fn flatten(names: Seq<Seq<char>>, segments: Seq<Ident>) -> Seq<char>
    decreases segments.len(),
{
    if segments.len() == 0 {
        Seq::<char>::empty()
    } else if segments.len() == 1 {
        segment_text(names, segments[0])
    } else {
        flatten(names, segments.drop_last()) + TokenKind::Scope.text() + segment_text(
            names,
            segments.last(),
        )
    }
}

/// Whether each segment is a name with a key of `names`.
pub open spec fn all_named(names: Seq<Seq<char>>, segments: Seq<Ident>) -> bool {
    forall|i: int|
        0 <= i < segments.len() ==> match #[trigger] segments[i] {
            Ident::Ident(key) => key.0 < names.len(),
            Ident::Error => false,
        }
}

/// Whether no white space begins inside a span of the source.
pub open spec fn no_space_within(source: Seq<u8>, span: Span) -> bool {
    forall|i: int| span.pos <= i < span.end() ==> #[trigger] space_len_at(source, i) == 0
}

/// A qualified name keeps its text when further strings are interned.
proof fn lemma_flatten_stable(names: Seq<Seq<char>>, later: Seq<Seq<char>>, segments: Seq<Ident>)
    requires
        all_named(names, segments),
        names.len() <= later.len(),
        forall|i: int| 0 <= i < names.len() ==> later[i] == names[i],
    ensures
        flatten(later, segments) == flatten(names, segments),
        all_named(later, segments),
    decreases segments.len(),
{
    if segments.len() >= 1 {
        assert(segments[segments.len() - 1] is Ident);
        assert(segments[0] is Ident);
    }
    if segments.len() > 1 {
        let front = segments.drop_last();
        assert forall|i: int| 0 <= i < front.len() implies match #[trigger] front[i] {
            Ident::Ident(key) => key.0 < names.len(),
            Ident::Error => false,
        } by {
            assert(front[i] == segments[i]);
        }
        lemma_flatten_stable(names, later, front);
    }
}

/// What holds in the middle of a qualified name whose segments so far were
/// read without a gap: they are names, their text is the text under the
/// span, and the cursor stands behind the white space that follows the span.
pub open spec fn read_so_far(s: ParseState, span: Span, segments: Seq<Ident>) -> bool {
    &&& s.wf()
    &&& span.file == s.file
    &&& span.end() <= s.source.len()
    &&& is_char_boundary(s.source, span.pos as int)
    &&& is_char_boundary(s.source, span.end())
    &&& s.cursor == space_end(s.source, span.end())
    &&& segments.len() >= 1
    &&& all_named(s.names, segments)
    &&& flatten(s.names, segments) == s.text(span)
}

/// Further segments add to the reports and to the span, and take nothing
/// away from either.
proof fn lemma_more_segments_grow(s: ParseState, span: Span, segments: Seq<Ident>)
    requires
        s.wf(),
        span.file == s.file,
        span.end() <= s.cursor,
    ensures
        s.reports.len() <= more_segments(s, span, segments).1.reports.len(),
        s.names.len() <= more_segments(s, span, segments).1.names.len(),
        more_segments(s, span, segments).0.span.pos == span.pos,
        more_segments(s, span, segments).0.span.file == span.file,
        span.end() <= more_segments(s, span, segments).0.span.end() <= s.source.len(),
    decreases s.remaining(),
{
    reveal(more_segments);
    reveal(parsed_ident);
    reveal(ParseState::intern);
    reveal(ParseState::advance);
    let (scope, s1) = s.consume(TokenKind::Scope);
    if scope.value is Some {
        let (id, s2) = parsed_ident(s1);
        lemma_advance(s1);
        lemma_more_segments_grow(s2, span.cover(id.span), segments.push(id.value));
    }
}

/// The round trip of the segments that follow, given that of the segments
/// read so far.
proof fn lemma_more_segments_round_trip(s: ParseState, span: Span, segments: Seq<Ident>)
    requires
        read_so_far(s, span, segments),
        more_segments(s, span, segments).1.reports == s.reports,
        more_segments(s, span, segments).1.names.len() <= usize::MAX,
        no_space_within(s.source, more_segments(s, span, segments).0.span),
    ensures
        flatten(more_segments(s, span, segments).1.names, more_segments(s, span, segments).0.value)
            == s.text(more_segments(s, span, segments).0.span),
    decreases s.remaining(),
{
    reveal(more_segments);
    reveal(parsed_ident);
    reveal(ParseState::intern);
    reveal(ParseState::peek);
    reveal(ParseState::advance);
    reveal(ParseState::wf);
    lemma_space_end(s.source, span.end());
    let (scope, s1) = s.consume(TokenKind::Scope);
    if scope.value is Some {
        let (id, s2) = parsed_ident(s1);
        let wider = span.cover(id.span);
        let longer = segments.push(id.value);
        let source = s.source;
        let last = more_segments(s, span, segments).0.span;
        lemma_advance(s);
        lemma_advance(s1);
        lemma_more_segments_grow(s2, wider, longer);
        // the identifier is there: a missing one would have been reported
        assert(s1.peek().value == TokenKind::Ident);
        assert(id.span == s1.peek().span);
        // nothing stands between the span, the `::` and the identifier
        let end = span.end();
        assert(space_len_at(source, end) == 0);
        lemma_no_space(source, end);
        lemma_scan_scope(source.skip(s.cursor));
        assert(space_len_at(source, end + 2) == 0);
        lemma_no_space(source, end + 2);
        let start = end + 2;
        let stop = start + id.span.len;
        assert(wider.pos == span.pos && wider.end() == stop);
        // the text under the wider span
        lemma_text_concat(source, span.pos as int, end, stop);
        lemma_text_concat(source, end, start, stop);
        assert(source.subrange(end, start) =~= TokenKind::Scope.bytes()) by {
            assert(source.skip(end).subrange(0, 2) =~= source.subrange(end, start));
        }
        encode_utf8_decode_utf8(TokenKind::Scope.text());
        // the text of the longer name
        let text = s.text(id.span);
        lemma_with_name_ok(s1.names, text);
        lemma_flatten_stable(s1.names, s2.names, segments);
        assert(longer.drop_last() =~= segments);
        assert(all_named(s2.names, longer)) by {
            assert forall|i: int| 0 <= i < longer.len() implies match #[trigger] longer[i] {
                Ident::Ident(key) => key.0 < s2.names.len(),
                Ident::Error => false,
            } by {
                if i < segments.len() {
                    assert(longer[i] == segments[i]);
                }
            }
        }
        assert(id.value == Ident::Ident(StringKey(key_of(s1.names, text) as usize)));
        assert(segment_text(s2.names, longer.last()) == text);
        assert(flatten(s2.names, segments) == s.text(span));
        assert(s2.text(wider) == s.text(span) + TokenKind::Scope.text() + text);
        assert(flatten(s2.names, longer) == s2.text(wider));
        lemma_more_segments_round_trip(s2, wider, longer);
    }
}

/// Parsing a qualified name and flattening its segments gives back the text
/// that was parsed, where that text is a qualified name written without
/// white space: each segment is an identifier, so that nothing is reported,
/// and no white space stands inside the span of the name. The interned
/// strings are no more than a `usize` can count.
pub proof fn lemma_qualified_name_round_trip(s: ParseState)
    requires
        s.wf(),
        parsed_qualified_ident(s).1.reports == s.reports,
        parsed_qualified_ident(s).1.names.len() <= usize::MAX,
        no_space_within(s.source, parsed_qualified_ident(s).0.span),
    ensures
        flatten(parsed_qualified_ident(s).1.names, parsed_qualified_ident(s).0.value) == s.text(
            parsed_qualified_ident(s).0.span,
        ),
{
    reveal(parsed_qualified_ident);
    reveal(parsed_ident);
    reveal(ParseState::intern);
    reveal(ParseState::peek);
    reveal(ParseState::advance);
    reveal(ParseState::wf);
    let (id, s1) = parsed_ident(s);
    lemma_advance(s);
    lemma_more_segments_grow(s1, id.span, seq![id.value]);
    assert(s.peek().value == TokenKind::Ident);
    let text = s.text(id.span);
    lemma_with_name_ok(s.names, text);
    assert(flatten(s1.names, seq![id.value]) == text);
    lemma_more_segments_round_trip(s1, id.span, seq![id.value]);
}

impl<'a> Parser<'a> {
    /// Parses a qualified identifier from the next tokens.
    pub fn qualified_ident(&mut self) -> (r: Spanned<QualifiedIdent>)
        requires
            old(self).wf(),
        ensures
            final(self).wf(),
            (Spanned { span: r.span, value: r.value@ }, final(self)@) == parsed_qualified_ident(
                old(self)@,
            ),
            final(self)@.follows(old(self)@.advance()),
            r.value@.len() >= 1,
            r.span.file == old(self)@.file,
            r.span.end() <= old(self)@.source.len(),
    {
        proof {
            reveal(parsed_qualified_ident);
            reveal(more_segments);
            reveal(parsed_ident);
            self.lemma_wf();
        }
        let mut paths = Vec::new();
        let (span, id) = self.ident().into_span_value();
        let mut span = span;
        paths.push(id);
        loop
            invariant
                self.wf(),
                old(self)@.wf(),
                self@.follows(old(self)@.advance()),
                paths@.len() >= 1,
                span.file == self@.file,
                span.end() <= self@.cursor,
                more_segments(self@, span, paths@) == parsed_qualified_ident(old(self)@),
            decreases self@.remaining(),
        {
            proof {
                reveal(parsed_qualified_ident);
                reveal(more_segments);
                reveal(parsed_ident);
            }
            proof {
                self.lemma_wf();
            }
            if self.consume(TokenKind::Scope).value.is_none() {
                return Spanned::from_span_value(span, QualifiedIdent(paths));
            }
            proof {
                self.lemma_wf();
            }
            let (next_span, id) = self.ident().into_span_value();
            paths.push(id);
            Span::expand(&mut span, next_span);
        }
    }
}

} // verus!
