//! The source text that a node spans, cut out of the document's rope by the
//! node's absolute byte offsets.
use ropey::Rope;
use vstd::prelude::*;

verus! {

#[verifier::external_type_specification]
#[verifier::external_body]
pub struct ExRope(ropey::Rope);

/// The characters a rope holds, in order.
pub uninterp spec fn rope_text(rope: Rope) -> Seq<char>;

/// Number of bytes of the UTF-8 encoding of `c`.
pub open spec fn utf8_width(c: char) -> nat {
    if (c as int) < 0x80 {
        1
    } else if (c as int) < 0x800 {
        2
    } else if (c as int) < 0x10000 {
        3
    } else {
        4
    }
}

/// Number of bytes of the UTF-8 encoding of `s`.
pub open spec fn utf8_len(s: Seq<char>) -> nat
    decreases s.len(),
{
    if s.len() == 0 {
        0
    } else {
        utf8_width(s[0]) + utf8_len(s.drop_first())
    }
}

/// Number of leading characters of `s` whose encoding ends at or before byte
/// offset `b`: the index of the character that holds byte `b`, or the number
/// of characters when `b` is the end of the text.
pub open spec fn chars_within(s: Seq<char>, b: int) -> nat
    decreases s.len(),
{
    if s.len() == 0 {
        0
    } else if utf8_width(s[0]) <= b {
        1 + chars_within(s.drop_first(), b - utf8_width(s[0]))
    } else {
        0
    }
}

/// `ropey::Rope::len_bytes`: the length of the rope's UTF-8 encoding.
#[verifier::external_body]
fn rope_len_bytes(rope: &Rope) -> (n: usize)
    ensures
        n == utf8_len(rope_text(*rope)),
{
    rope.len_bytes()
}

/// `ropey::Rope::len_chars`: the number of characters in the rope.
#[verifier::external_body]
fn rope_len_chars(rope: &Rope) -> (n: usize)
    ensures
        n == rope_text(*rope).len(),
{
    rope.len_chars()
}

/// `ropey::Rope::byte_to_char`: the index of the character holding byte
/// `byte` (one past the last character for the end offset). It panics past
/// the end, which `requires` leaves out.
#[verifier::external_body]
fn rope_byte_to_char(rope: &Rope, byte: usize) -> (i: usize)
    requires
        byte <= utf8_len(rope_text(*rope)),
    ensures
        i == chars_within(rope_text(*rope), byte as int),
{
    rope.byte_to_char(byte)
}

/// `ropey::Rope::slice` over the characters `start..end`, turned into a
/// `String` by `From<RopeSlice>`: those characters. The slice panics when
/// the range is reversed or runs past the end, which `requires` leaves out.
#[verifier::external_body]
fn rope_slice_string(rope: &Rope, start: usize, end: usize) -> (s: String)
    requires
        start <= end <= rope_text(*rope).len(),
    ensures
        s@ == rope_text(*rope).subrange(start as int, end as int),
{
    String::from(rope.slice(start..end))
}

/// Whether cutting `start..end` out of `text` stays inside it. A range that
/// runs past the end of the text is clamped to the text's byte length and
/// then read as character indices; where that end exceeds the number of
/// characters (text with multi-byte characters), the cut cannot be made.
pub open spec fn text_slice_defined(text: Seq<char>, start: int, end: int) -> bool {
    let n = utf8_len(text) as int;
    let s = if start < n { start } else { n };
    let e = if end < n { end } else { n };
    start <= end && (start > n || end > n) && s != e ==> e <= text.len()
}

/// The text between byte offsets `start` and `end` of `text`: empty for a
/// reversed range; for a range inside the text, the characters from the one
/// holding byte `start` up to the one holding byte `end`; for a range that
/// runs past the end, the offsets clamped to the byte length and read as
/// character indices.
pub open spec fn text_slice_of(text: Seq<char>, start: int, end: int) -> Seq<char> {
    let n = utf8_len(text) as int;
    if start > end {
        Seq::empty()
    } else if start > n || end > n {
        let s = if start < n { start } else { n };
        let e = if end < n { end } else { n };
        if s == e {
            Seq::empty()
        } else {
            text.subrange(s, e)
        }
    } else {
        let sc = chars_within(text, start) as int;
        let ec = chars_within(text, end) as int;
        if sc >= ec {
            Seq::empty()
        } else {
            text.subrange(sc, ec)
        }
    }
}

proof fn lemma_chars_within_len(s: Seq<char>, b: int)
    ensures
        chars_within(s, b) <= s.len(),
    decreases s.len(),
{
    if s.len() > 0 && utf8_width(s[0]) <= b {
        lemma_chars_within_len(s.drop_first(), b - utf8_width(s[0]));
    }
}

/// The source text between the byte offsets `start` and `end` of a node, as
/// a node's text is read from the document's rope.
pub fn text_slice(rope: &Rope, start: usize, end: usize) -> (r: String)
    requires
        text_slice_defined(rope_text(*rope), start as int, end as int),
    ensures
        r@ == text_slice_of(rope_text(*rope), start as int, end as int),
{
    let n = rope_len_bytes(rope);
    if start > end {
        return String::new();
    }
    if start > n || end > n {
        let s = if start < n { start } else { n };
        let e = if end < n { end } else { n };
        if s == e {
            return String::new();
        }
        return rope_slice_string(rope, s, e);
    }
    let sc = rope_byte_to_char(rope, start);
    let ec = rope_byte_to_char(rope, end);
    if sc >= ec {
        return String::new();
    }
    proof {
        lemma_chars_within_len(rope_text(*rope), end as int);
    }
    rope_slice_string(rope, sc, ec)
}

/// The source text between the byte offsets `start` and `end`, or `None`
/// where the cut cannot be made (see `text_slice_defined`).
pub fn try_text_slice(rope: &Rope, start: usize, end: usize) -> (r: Option<String>)
    ensures
        match r {
            Some(s) => text_slice_defined(rope_text(*rope), start as int, end as int)
                && s@ == text_slice_of(rope_text(*rope), start as int, end as int),
            None => !text_slice_defined(rope_text(*rope), start as int, end as int),
        },
{
    let n = rope_len_bytes(rope);
    let s = if start < n { start } else { n };
    let e = if end < n { end } else { n };
    if start <= end && (start > n || end > n) && s != e && e > rope_len_chars(rope) {
        None
    } else {
        Some(text_slice(rope, start, end))
    }
}

} // verus!
