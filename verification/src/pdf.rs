//! Text to PDF: the lines of a text, cut out and placed on pages.
//!
//! The line cutter addresses a text by byte offsets below `BYTE_LIMIT`, so
//! each line is cut off the front of what is left of the text, between the
//! byte offsets of its first and of its last character.

use vstd::prelude::*;
use vstd::std_specs::iter::IteratorSpec;
use vstd::utf8::{
    char_is_scalar, encode_scalar, encode_utf8, encode_utf8_decode_utf8, encode_utf8_first_scalar,
    encode_utf8_valid_utf8, is_char_boundary, length_of_first_scalar, pop_first_scalar,
};
use crate::paginate::{
    layout, line_count, line_text, pages, placed_line, Layout, Line, Page, Typeface,
    FONT_SIZE_PT, LEFT_MM, LINES_PER_PAGE, LINE_STEP_MM, LINE_WIDTH, PAGE_HEIGHT_MM,
    PAGE_WIDTH_MM, TOP_MM,
};

verus! {

/// The first byte offset that the line cutter cannot address.
pub const BYTE_LIMIT: usize = 0x8000_0000;

/// Number of bytes that a character takes in UTF-8.
pub open spec fn utf8_width(c: char) -> nat {
    let code = c as u32;
    if code < 0x80 {
        1
    } else if code < 0x800 {
        2
    } else if code < 0x1_0000 {
        3
    } else {
        4
    }
}

/// The byte offset at which character `i` of a text begins in UTF-8: the
/// widths of the characters before it.
pub open spec fn byte_offset(text: Seq<char>, i: int) -> nat
    decreases i,
{
    if i <= 0 {
        0
    } else {
        byte_offset(text, i - 1) + utf8_width(text[i - 1])
    }
}

/// Of the first `upto` characters of a text, those that begin at a byte
/// offset from `lo` up to `hi`, `hi` excluded.
pub open spec fn chars_in_bytes_upto(text: Seq<char>, lo: int, hi: int, upto: int) -> Seq<char>
    decreases upto,
{
    if upto <= 0 {
        Seq::<char>::empty()
    } else {
        let before = chars_in_bytes_upto(text, lo, hi, upto - 1);
        if lo <= byte_offset(text, upto - 1) < hi {
            before.push(text[upto - 1])
        } else {
            before
        }
    }
}

/// The characters of a text that begin at a byte offset from `lo` up to
/// `hi`, `hi` excluded.
pub open spec fn chars_in_bytes(text: Seq<char>, lo: int, hi: int) -> Seq<char> {
    chars_in_bytes_upto(text, lo, hi, text.len() as int)
}

/// Calls `slicestring::Slice::slice` with the range from `start` to `end`.
/// That function walks the characters with their byte offsets and keeps
/// those whose offset lies in the range. It reads a bound with the 32nd bit
/// set as a negative one, so both bounds stay below `BYTE_LIMIT`.
#[verifier::external_body]
fn slice_bytes(text: &str, start: usize, end: usize) -> (part: String)
    requires
        start < BYTE_LIMIT,
        end < BYTE_LIMIT,
    ensures
        part@ == chars_in_bytes(text@, start as int, end as int),
{
    slicestring::Slice::slice(text, start..end)
}

/// Byte offsets grow with the characters, by one at least for each.
pub proof fn lemma_offsets_grow(text: Seq<char>, i: int, j: int)
    requires
        0 <= i <= j,
    ensures
        byte_offset(text, i) + (j - i) <= byte_offset(text, j),
    decreases j - i,
{
    if i < j {
        lemma_offsets_grow(text, i, j - 1);
    }
}

/// The index `upto`, kept between `a` and `b`.
pub open spec fn clipped(upto: int, a: int, b: int) -> int {
    if upto < a {
        a
    } else if upto > b {
        b
    } else {
        upto
    }
}

/// Of the first `upto` characters, those between the byte offsets of two
/// character positions are the characters between the positions.
proof fn lemma_chars_between_upto(text: Seq<char>, a: int, b: int, upto: int)
    requires
        0 <= a <= b <= text.len(),
        0 <= upto <= text.len(),
    ensures
        chars_in_bytes_upto(text, byte_offset(text, a) as int, byte_offset(text, b) as int, upto)
            == text.subrange(a, clipped(upto, a, b)),
    decreases upto,
{
    let lo = byte_offset(text, a) as int;
    let hi = byte_offset(text, b) as int;
    if upto > 0 {
        lemma_chars_between_upto(text, a, b, upto - 1);
        let i = upto - 1;
        if i < a {
            lemma_offsets_grow(text, i, a);
        } else {
            lemma_offsets_grow(text, a, i);
        }
        if i < b {
            lemma_offsets_grow(text, i, b);
        } else {
            lemma_offsets_grow(text, b, i);
        }
        if a <= i < b {
            assert(text.subrange(a, i).push(text[i]) =~= text.subrange(a, i + 1));
        }
    } else {
        assert(text.subrange(a, a) =~= Seq::<char>::empty());
    }
}

/// The characters between the byte offsets of two character positions are
/// the characters between the positions.
pub proof fn lemma_chars_between(text: Seq<char>, a: int, b: int)
    requires
        0 <= a <= b <= text.len(),
    ensures
        chars_in_bytes(text, byte_offset(text, a) as int, byte_offset(text, b) as int)
            == text.subrange(a, b),
{
    lemma_chars_between_upto(text, a, b, text.len() as int);
}

/// A character takes as many bytes as its encoding has.
pub proof fn lemma_width_of_encoding(c: char)
    ensures
        encode_scalar(c as u32).len() == utf8_width(c),
{
    char_is_scalar(c);
}

/// The byte offset of a character position counts the first character and
/// then the offset in the rest of the text.
pub proof fn lemma_offset_after_first(text: Seq<char>, n: int)
    requires
        1 <= n <= text.len(),
    ensures
        byte_offset(text, n) == utf8_width(text[0]) + byte_offset(text.drop_first(), n - 1),
    decreases n,
{
    let rest = text.drop_first();
    if n > 1 {
        lemma_offset_after_first(text, n - 1);
        assert(rest[n - 2] == text[n - 1]);
        assert(byte_offset(rest, n - 1) == byte_offset(rest, n - 2) + utf8_width(rest[n - 2]));
    } else {
        assert(byte_offset(text, 0) == 0);
        assert(byte_offset(rest, 0) == 0);
        assert(byte_offset(text, 1) == byte_offset(text, 0) + utf8_width(text[0]));
    }
}

/// The byte offset of a character position is a character boundary of the
/// encoded text, and from there on the encoded text is the encoding of the
/// characters from the position on.
pub proof fn lemma_offset_is_boundary(text: Seq<char>, n: int)
    requires
        0 <= n <= text.len(),
    ensures
        byte_offset(text, n) <= encode_utf8(text).len(),
        is_char_boundary(encode_utf8(text), byte_offset(text, n) as int),
        encode_utf8(text).subrange(byte_offset(text, n) as int, encode_utf8(text).len() as int)
            == encode_utf8(text.skip(n)),
    decreases n,
{
    let bytes = encode_utf8(text);
    encode_utf8_valid_utf8(text);
    if n == 0 {
        assert(text.skip(0) =~= text);
        assert(bytes.subrange(0, bytes.len() as int) =~= bytes);
    } else {
        let rest = text.drop_first();
        lemma_offset_after_first(text, n);
        lemma_width_of_encoding(text[0]);
        encode_utf8_first_scalar(text);
        lemma_offset_is_boundary(rest, n - 1);
        assert(pop_first_scalar(bytes) =~= encode_utf8(rest));
        assert(rest.skip(n - 1) =~= text.skip(n));
        let first = length_of_first_scalar(bytes);
        let inner = byte_offset(rest, n - 1) as int;
        assert(bytes.subrange(first + inner, bytes.len() as int) =~= encode_utf8(rest).subrange(
            inner,
            encode_utf8(rest).len() as int,
        ));
        reveal_with_fuel(is_char_boundary, 2);
    }
}

/// Computes `utf8_width`.
fn char_width(c: char) -> (width: usize)
    ensures
        width == utf8_width(c),
        1 <= width <= 4,
{
    let code: u32 = c as u32;
    if code < 0x80 {
        1
    } else if code < 0x800 {
        2
    } else if code < 0x1_0000 {
        3
    } else {
        4
    }
}

/// The character position at which line `k` of a text of `chars` characters
/// begins, or the end of the text for a `k` beyond the last line.
pub open spec fn line_start(chars: nat, k: int) -> int {
    if LINE_WIDTH * k <= chars {
        LINE_WIDTH * k
    } else {
        chars as int
    }
}

/// The first line of a text: how many characters it has, and how many
/// bytes they take.
fn first_line(rest: &str) -> (found: (usize, usize))
    ensures
        found.0 == line_start(rest@.len(), 1),
        found.1 == byte_offset(rest@, found.0 as int),
        found.1 <= 4 * LINE_WIDTH,
{
    broadcast use vstd::string::group_string_axioms;

    let mut chars = rest.chars();
    let mut seen: usize = 0;
    let mut offset: usize = 0;
    loop
        invariant
            chars.remaining() == rest@.skip(seen as int),
            seen <= rest@.len(),
            seen <= LINE_WIDTH,
            offset == byte_offset(rest@, seen as int),
            offset <= 4 * seen,
        ensures
            seen == line_start(rest@.len(), 1),
            offset == byte_offset(rest@, seen as int),
            offset <= 4 * LINE_WIDTH,
        decreases LINE_WIDTH - seen,
    {
        if seen == LINE_WIDTH {
            break ;
        }
        match chars.next() {
            Some(c) => {
                assert(c == rest@[seen as int]);
                let width: usize = char_width(c);
                offset = offset + width;
                seen = seen + 1;
                assert(chars.remaining() =~= rest@.skip(seen as int));
            },
            None => {
                break ;
            },
        }
    }
    (seen, offset)
}

/// Lays a text out for printing: cuts it into lines of `LINE_WIDTH`
/// characters and places them on pages of `LINES_PER_PAGE` lines. Each line
/// is cut off the front of what is left of the text.
pub fn txt_to_pdf(text: &str) -> (document: Layout)
    ensures
        document@ == layout(text@),
{
    let mut rest: &str = text;
    let mut full: Vec<Page> = Vec::new();
    let mut current: Vec<Line> = Vec::new();
    let ghost mut k: int = 0;
    assert(text@.skip(0) =~= text@);
    loop
        invariant
            0 <= k <= line_count(text@.len()),
            rest@ == text@.skip(line_start(text@.len(), k)),
            full@.len() == k / (LINES_PER_PAGE as int),
            current@.len() == k % (LINES_PER_PAGE as int),
            forall|p: int| 0 <= p < full@.len() ==> (#[trigger] full@[p])@ == pages(text@)[p],
            forall|j: int|
                0 <= j < current@.len() ==> (#[trigger] current@[j])@ == placed_line(
                    text@,
                    k / (LINES_PER_PAGE as int),
                    j,
                ),
        ensures
            k == line_count(text@.len()),
            full@.len() == k / (LINES_PER_PAGE as int),
            current@.len() == k % (LINES_PER_PAGE as int),
            forall|p: int| 0 <= p < full@.len() ==> (#[trigger] full@[p])@ == pages(text@)[p],
            forall|j: int|
                0 <= j < current@.len() ==> (#[trigger] current@[j])@ == placed_line(
                    text@,
                    k / (LINES_PER_PAGE as int),
                    j,
                ),
        decreases rest@.len(),
    {
        let (chars, bytes) = first_line(rest);
        if chars == 0 {
            break ;
        }
        proof {
            lemma_chars_between(rest@, 0, chars as int);
            lemma_offset_is_boundary(rest@, chars as int);
        }
        let part = slice_bytes(rest, 0, bytes);
        let halves = rest.split_at(bytes);
        proof {
            encode_utf8_decode_utf8(halves.1@);
            encode_utf8_decode_utf8(rest@.skip(chars as int));
            assert(halves.1@ == rest@.skip(chars as int));
            assert(part@ =~= line_text(text@, k));
            assert(rest@.skip(chars as int) =~= text@.skip(line_start(text@.len(), k + 1)));
        }
        let slot: usize = current.len();
        let y_mm: u16 = TOP_MM - LINE_STEP_MM * (slot as u16);
        current.push(Line { x_mm: LEFT_MM, y_mm, text: part });
        proof {
            k = k + 1;
        }
        if current.len() == LINES_PER_PAGE {
            let filled = Page { lines: current };
            assert(filled@ =~= pages(text@)[k / (LINES_PER_PAGE as int) - 1]);
            full.push(filled);
            current = Vec::new();
        }
        rest = halves.1;
    }
    let last = Page { lines: current };
    assert(last@ =~= pages(text@)[k / (LINES_PER_PAGE as int)]);
    full.push(last);
    let document = Layout {
        page_width_mm: PAGE_WIDTH_MM,
        page_height_mm: PAGE_HEIGHT_MM,
        typeface: Typeface::TimesRoman,
        font_size_pt: FONT_SIZE_PT,
        pages: full,
    };
    assert(document@.pages =~= pages(text@));
    assert(document@ == layout(text@));
    document
}

} // verus!
