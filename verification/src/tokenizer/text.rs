//! White space and character boundaries in UTF-8 source text.

use crate::tokenizer::rules::first_char_len;
use vstd::prelude::*;
use vstd::utf8::*;

verus! {

/// The length in bytes of the white-space character that begins at index `i`
/// of `src`, or 0 where none begins there. White space is what Unicode gives
/// the property `White_Space`: U+0009 to U+000D, U+0020, U+0085, U+00A0,
/// U+1680, U+2000 to U+200A, U+2028, U+2029, U+202F, U+205F and U+3000.
pub open spec fn space_len_at(src: Seq<u8>, i: int) -> int {
    if !(0 <= i < src.len()) {
        0
    } else if src[i] == 0x20 || 0x09 <= src[i] <= 0x0d {
        1
    } else if i + 1 < src.len() && src[i] == 0xc2 && (src[i + 1] == 0x85 || src[i + 1] == 0xa0) {
        2
    } else if i + 2 < src.len() && src[i] == 0xe1 && src[i + 1] == 0x9a && src[i + 2] == 0x80 {
        3
    } else if i + 2 < src.len() && src[i] == 0xe2 && src[i + 1] == 0x80 && (0x80 <= src[i + 2] <= 0x8a
        || src[i + 2] == 0xa8 || src[i + 2] == 0xa9 || src[i + 2] == 0xaf) {
        3
    } else if i + 2 < src.len() && src[i] == 0xe2 && src[i + 1] == 0x81 && src[i + 2] == 0x9f {
        3
    } else if i + 2 < src.len() && src[i] == 0xe3 && src[i + 1] == 0x80 && src[i + 2] == 0x80 {
        3
    } else {
        0
    }
}

/// The index of the first byte of `src`, from `from` on, at which no
/// white-space character begins.
pub open spec fn space_end(src: Seq<u8>, from: int) -> int
    decreases src.len() - from,
{
    if space_len_at(src, from) > 0 {
        space_end(src, from + space_len_at(src, from))
    } else {
        from
    }
}

/// In valid UTF-8 the character after a boundary ends at a boundary, and its
/// length can be read off its first byte.
pub proof fn lemma_next_boundary(bytes: Seq<u8>, i: int)
    requires
        valid_utf8(bytes),
        0 <= i < bytes.len(),
        is_char_boundary(bytes, i),
    ensures
        1 <= first_char_len(bytes.skip(i)) <= 4,
        i + first_char_len(bytes.skip(i)) <= bytes.len(),
        is_char_boundary(bytes, i + first_char_len(bytes.skip(i))),
        first_char_len(bytes.skip(i)) >= 2 ==> is_continuation_byte(bytes[i + 1]),
        first_char_len(bytes.skip(i)) >= 3 ==> is_continuation_byte(bytes[i + 2]),
{
    let rest = bytes.subrange(i, bytes.len() as int);
    assert(rest =~= bytes.skip(i));
    valid_utf8_split(bytes, i);
    assert(valid_first_scalar(rest) && valid_utf8(pop_first_scalar(rest)));
    let n = length_of_first_scalar(rest);
    assert(n == first_char_len(rest));
    assert(is_char_boundary(pop_first_scalar(rest), 0));
    assert(is_char_boundary(rest, n));
    lemma_boundary_of_suffix(bytes, i, n);
}

/// A boundary of the text after a boundary is a boundary of the whole text.
pub proof fn lemma_boundary_of_suffix(bytes: Seq<u8>, i: int, j: int)
    requires
        valid_utf8(bytes),
        0 <= i <= bytes.len(),
        is_char_boundary(bytes, i),
        0 <= j <= bytes.len() - i,
        is_char_boundary(bytes.subrange(i, bytes.len() as int), j),
    ensures
        is_char_boundary(bytes, i + j),
{
    let rest = bytes.subrange(i, bytes.len() as int);
    valid_utf8_split(bytes, i);
    if i + j == bytes.len() {
        is_char_boundary_start_end_of_seq(bytes);
    } else {
        is_char_boundary_iff_not_is_continuation_byte(rest, j);
        is_char_boundary_iff_not_is_continuation_byte(bytes, i + j);
        assert(rest[j] == bytes[i + j]);
    }
}

/// A boundary of the whole text that lies behind a boundary is a boundary of
/// the text after that boundary.
pub proof fn lemma_boundary_in_suffix(bytes: Seq<u8>, i: int, j: int)
    requires
        valid_utf8(bytes),
        0 <= i <= bytes.len(),
        is_char_boundary(bytes, i),
        0 <= j <= bytes.len() - i,
        is_char_boundary(bytes, i + j),
    ensures
        is_char_boundary(bytes.subrange(i, bytes.len() as int), j),
{
    let rest = bytes.subrange(i, bytes.len() as int);
    valid_utf8_split(bytes, i);
    if j == rest.len() {
        is_char_boundary_start_end_of_seq(rest);
    } else {
        is_char_boundary_iff_not_is_continuation_byte(rest, j);
        is_char_boundary_iff_not_is_continuation_byte(bytes, i + j);
        assert(rest[j] == bytes[i + j]);
    }
}

/// Behind a boundary, a run of ASCII bytes ends at a boundary.
pub proof fn lemma_ascii_run_boundary(bytes: Seq<u8>, i: int, n: int)
    requires
        valid_utf8(bytes),
        0 <= i,
        0 <= n,
        i + n <= bytes.len(),
        is_char_boundary(bytes, i),
        forall|k: int| i <= k < i + n ==> bytes[k] < 0x80,
    ensures
        is_char_boundary(bytes, i + n),
    decreases n,
{
    if n > 0 {
        lemma_ascii_run_boundary(bytes, i, n - 1);
        lemma_next_boundary(bytes, i + n - 1);
        assert(bytes.skip(i + n - 1)[0] == bytes[i + n - 1]);
    }
}

/// White space behind a boundary ends at a boundary, within the text.
pub proof fn lemma_space_end(bytes: Seq<u8>, from: int)
    requires
        valid_utf8(bytes),
        0 <= from <= bytes.len(),
        is_char_boundary(bytes, from),
    ensures
        from <= space_end(bytes, from) <= bytes.len(),
        is_char_boundary(bytes, space_end(bytes, from)),
        space_len_at(bytes, space_end(bytes, from)) == 0,
    decreases bytes.len() - from,
{
    let n = space_len_at(bytes, from);
    if n > 0 {
        lemma_next_boundary(bytes, from);
        assert(bytes.skip(from)[0] == bytes[from]);
        assert(n == first_char_len(bytes.skip(from)));
        lemma_space_end(bytes, from + n);
    }
}

/// The part of valid UTF-8 text between two of its character boundaries is
/// valid UTF-8.
pub proof fn lemma_part_is_valid(bytes: Seq<u8>, from: int, to: int)
    requires
        valid_utf8(bytes),
        0 <= from <= to <= bytes.len(),
        is_char_boundary(bytes, from),
        is_char_boundary(bytes, to),
    ensures
        valid_utf8(bytes.subrange(from, to)),
{
    let rest = bytes.subrange(from, bytes.len() as int);
    valid_utf8_split(bytes, from);
    lemma_boundary_in_suffix(bytes, from, to - from);
    valid_utf8_split(rest, to - from);
    assert(rest.subrange(0, to - from) =~= bytes.subrange(from, to));
}

/// The text between two character boundaries is the text up to a boundary
/// between them, followed by the text from there on.
pub proof fn lemma_text_concat(bytes: Seq<u8>, from: int, mid: int, to: int)
    requires
        valid_utf8(bytes),
        0 <= from <= mid <= to <= bytes.len(),
        is_char_boundary(bytes, from),
        is_char_boundary(bytes, mid),
        is_char_boundary(bytes, to),
    ensures
        decode_utf8(bytes.subrange(from, to)) == decode_utf8(bytes.subrange(from, mid)) + decode_utf8(
            bytes.subrange(mid, to),
        ),
{
    let part = bytes.subrange(from, to);
    lemma_part_is_valid(bytes, from, to);
    if mid == to {
        is_char_boundary_start_end_of_seq(part);
    } else {
        is_char_boundary_iff_not_is_continuation_byte(bytes, mid);
        is_char_boundary_iff_not_is_continuation_byte(part, mid - from);
        assert(part[mid - from] == bytes[mid]);
    }
    decode_utf8_split(part, mid - from);
    assert(part.subrange(0, mid - from) =~= bytes.subrange(from, mid));
    assert(part.subrange(mid - from, part.len() as int) =~= bytes.subrange(mid, to));
}

/// Where no white space begins at an index, the white space from that index
/// on is empty.
pub proof fn lemma_no_space(bytes: Seq<u8>, from: int)
    requires
        space_len_at(bytes, from) == 0,
    ensures
        space_end(bytes, from) == from,
{
}

} // verus!
