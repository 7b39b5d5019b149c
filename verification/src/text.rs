//! Cutting and comparing text by byte offsets.

use crate::model::{code_points, replacement_text, span_on_boundaries, sub_text};
use vstd::prelude::*;
use vstd::string::*;
use vstd::utf8::*;

verus! {

/// A text is empty exactly when its encoding has no bytes.
pub proof fn lemma_empty_text_has_no_bytes(text: Seq<char>)
    ensures
        text.len() == 0 <==> encode_utf8(text).len() == 0,
{
    if text.len() > 0 {
        assert(encode_scalar(text[0] as u32).len() >= 1);
    }
}

/// The replacement text is one byte long.
pub proof fn lemma_replacement_is_one_byte()
    ensures
        encode_utf8(replacement_text()).len() == 1,
{
    assert(is_ascii_chars(replacement_text()));
    is_ascii_chars_encode_utf8(replacement_text());
}

/// A piece of a text that is cut between characters encodes to the bytes
/// that were cut out.
pub proof fn lemma_piece_bytes(text: Seq<char>, start: int, end: int)
    requires
        span_on_boundaries(text, start, end),
    ensures
        0 <= start <= end <= encode_utf8(text).len(),
        encode_utf8(sub_text(text, start, end)) == encode_utf8(text).subrange(start, end),
{
    let bytes = encode_utf8(text);
    encode_utf8_valid_utf8(text);
    assert(0 <= start && end <= bytes.len());
    let head = bytes.subrange(0, end);
    valid_utf8_split(bytes, end);
    assert(is_char_boundary(head, start)) by {
        if start < end {
            is_char_boundary_iff_not_is_continuation_byte(bytes, start);
            is_char_boundary_iff_not_is_continuation_byte(head, start);
        } else {
            is_char_boundary_start_end_of_seq(head);
        }
    }
    valid_utf8_split(head, start);
    assert(head.subrange(start, head.len() as int) =~= bytes.subrange(start, end));
    decode_utf8_encode_utf8(bytes.subrange(start, end));
}

/// The whole of a text is a piece of it, cut between characters.
pub proof fn lemma_whole_text_is_a_piece(text: Seq<char>)
    ensures
        span_on_boundaries(text, 0, encode_utf8(text).len() as int),
        sub_text(text, 0, encode_utf8(text).len() as int) == text,
{
    let bytes = encode_utf8(text);
    encode_utf8_valid_utf8(text);
    is_char_boundary_start_end_of_seq(bytes);
    assert(bytes.subrange(0, bytes.len() as int) =~= bytes);
    encode_utf8_decode_utf8(text);
}

/// Inside a piece of a text, an offset lies between characters exactly
/// when it does so in the text.
pub proof fn lemma_boundary_in_piece(text: Seq<char>, start: int, end: int, at: int)
    requires
        span_on_boundaries(text, start, end),
        0 <= at <= end - start,
    ensures
        is_char_boundary(encode_utf8(sub_text(text, start, end)), at) <==> is_char_boundary(
            encode_utf8(text),
            start + at,
        ),
{
    let bytes = encode_utf8(text);
    let piece = encode_utf8(sub_text(text, start, end));
    lemma_piece_bytes(text, start, end);
    encode_utf8_valid_utf8(text);
    encode_utf8_valid_utf8(sub_text(text, start, end));
    if at < end - start {
        is_char_boundary_iff_not_is_continuation_byte(bytes, start + at);
        is_char_boundary_iff_not_is_continuation_byte(piece, at);
    } else {
        is_char_boundary_start_end_of_seq(piece);
    }
}

/// A piece of a piece is a piece of the whole.
pub proof fn lemma_piece_of_piece(text: Seq<char>, start: int, end: int, from: int, to: int)
    requires
        span_on_boundaries(text, start, end),
        0 <= from <= to <= end - start,
    ensures
        sub_text(sub_text(text, start, end), from, to) == sub_text(text, start + from, start + to),
{
    lemma_piece_bytes(text, start, end);
    assert(encode_utf8(text).subrange(start, end).subrange(from, to) =~= encode_utf8(
        text,
    ).subrange(start + from, start + to));
}

/// Two pieces that meet between characters join to one piece.
pub proof fn lemma_pieces_join(text: Seq<char>, start: int, mid: int, end: int)
    requires
        span_on_boundaries(text, start, mid),
        span_on_boundaries(text, mid, end),
    ensures
        sub_text(text, start, mid) + sub_text(text, mid, end) == sub_text(text, start, end),
{
    let bytes = encode_utf8(text);
    let whole = bytes.subrange(start, end);
    lemma_piece_bytes(text, start, end);
    lemma_boundary_in_piece(text, start, end, mid - start);
    encode_utf8_valid_utf8(sub_text(text, start, end));
    decode_utf8_split(whole, mid - start);
    assert(whole.subrange(0, mid - start) =~= bytes.subrange(start, mid));
    assert(whole.subrange(mid - start, whole.len() as int) =~= bytes.subrange(mid, end));
}

/// The piece of `s` from byte `start` up to `end`, where both lie between
/// characters and are in order; `None` where they do not.
pub fn cut<'a>(s: &'a str, start: usize, end: usize) -> (piece: Option<&'a str>)
    ensures
        piece is Some <==> span_on_boundaries(s@, start as int, end as int),
        piece matches Some(p) ==> p@ == sub_text(s@, start as int, end as int),
        piece matches Some(p) ==> p.spec_bytes() == s.spec_bytes().subrange(
            start as int,
            end as int,
        ),
        piece is Some ==> end <= s.spec_bytes().len(),
{
    broadcast use {encode_utf8_valid_utf8, encode_utf8_decode_utf8};

    if start <= end && s.is_char_boundary(start) && s.is_char_boundary(end) {
        let ghost bytes = s.spec_bytes();
        assert(end <= bytes.len());
        let (head, _) = s.split_at(end);
        assert(head.spec_bytes() == bytes.subrange(0, end as int));
        assert(is_char_boundary(head.spec_bytes(), start as int)) by {
            if start < end {
                is_char_boundary_iff_not_is_continuation_byte(bytes, start as int);
                is_char_boundary_iff_not_is_continuation_byte(head.spec_bytes(), start as int);
            } else {
                is_char_boundary_start_end_of_seq(head.spec_bytes());
            }
        }
        let (_, tail) = head.split_at(start);
        assert(tail.spec_bytes() == bytes.subrange(start as int, end as int));
        assert(tail@ == decode_utf8(encode_utf8(tail@)));
        Some(tail)
    } else {
        None
    }
}

/// The code points of `s`, in order.
pub fn code_points_of(s: &str) -> (points: Vec<u32>)
    ensures
        points@ == code_points(s@),
{
    let mut points: Vec<u32> = Vec::new();
    for c in it: s.chars()
        invariant
            it.seq() == s@,
            points@.len() == it.index(),
            forall|i: int| 0 <= i < points@.len() ==> points@[i] == s@[i] as u32,
    {
        points.push(c as u32);
    }
    assert(points@ =~= code_points(s@));
    points
}

/// The digit for a value below 16, letters in lower case.
pub open spec fn digit_text(value: int) -> Seq<char> {
    if value == 0 {
        "0"@
    } else if value == 1 {
        "1"@
    } else if value == 2 {
        "2"@
    } else if value == 3 {
        "3"@
    } else if value == 4 {
        "4"@
    } else if value == 5 {
        "5"@
    } else if value == 6 {
        "6"@
    } else if value == 7 {
        "7"@
    } else if value == 8 {
        "8"@
    } else if value == 9 {
        "9"@
    } else if value == 10 {
        "a"@
    } else if value == 11 {
        "b"@
    } else if value == 12 {
        "c"@
    } else if value == 13 {
        "d"@
    } else if value == 14 {
        "e"@
    } else {
        "f"@
    }
}

/// A number written in a base from 2 to 16, without leading zeros.
pub open spec fn numeral_text(n: int, base: int) -> Seq<char>
    decreases n,
    via numeral_text_decreases
{
    if n < base || base < 2 {
        digit_text(n)
    } else {
        numeral_text(n / base, base) + digit_text(n % base)
    }
}

#[via_fn]
proof fn numeral_text_decreases(n: int, base: int) {
    if !(n < base || base < 2) {
        assert(0 <= n / base < n) by (nonlinear_arith)
            requires
                n >= base,
                base >= 2,
        ;
    }
}

/// The texts one after the other, with a comma and a space between each
/// two.
pub open spec fn comma_separated(items: Seq<Seq<char>>) -> Seq<char>
    decreases items.len(),
{
    if items.len() == 0 {
        Seq::empty()
    } else if items.len() == 1 {
        items[0]
    } else {
        comma_separated(items.drop_last()) + ", "@ + items.last()
    }
}

/// The code points written in base 16, between square brackets.
pub open spec fn hex_list(points: Seq<u32>) -> Seq<char> {
    "["@ + comma_separated(points.map_values(|p: u32| numeral_text(p as int, 16))) + "]"@
}

fn digit(value: u64) -> (text: &'static str)
    requires
        value < 16,
    ensures
        text@ == digit_text(value as int),
{
    if value == 0 {
        "0"
    } else if value == 1 {
        "1"
    } else if value == 2 {
        "2"
    } else if value == 3 {
        "3"
    } else if value == 4 {
        "4"
    } else if value == 5 {
        "5"
    } else if value == 6 {
        "6"
    } else if value == 7 {
        "7"
    } else if value == 8 {
        "8"
    } else if value == 9 {
        "9"
    } else if value == 10 {
        "a"
    } else if value == 11 {
        "b"
    } else if value == 12 {
        "c"
    } else if value == 13 {
        "d"
    } else if value == 14 {
        "e"
    } else {
        "f"
    }
}

/// Writes a number in a base from 2 to 16.
pub fn numeral(n: u64, base: u64) -> (text: String)
    requires
        2 <= base <= 16,
    ensures
        text@ == numeral_text(n as int, base as int),
    decreases n,
{
    if n < base {
        digit(n).to_owned()
    } else {
        assert(n / base < n) by (nonlinear_arith)
            requires
                n >= base,
                base >= 2,
        ;
        let mut text: String = numeral(n / base, base);
        text.append(digit(n % base));
        text
    }
}

/// Writes code points in base 16, between square brackets.
pub fn hex_list_of(points: &Vec<u32>) -> (text: String)
    ensures
        text@ == hex_list(points@),
{
    let ghost items = points@.map_values(|p: u32| numeral_text(p as int, 16));
    let mut text: String = "[".to_owned();
    let n: usize = points.len();
    let mut i: usize = 0;
    assert(items.take(0).len() == 0);
    assert("["@ + comma_separated(items.take(0)) =~= "["@);
    while i < n
        invariant
            i <= n,
            n == points@.len(),
            items == points@.map_values(|p: u32| numeral_text(p as int, 16)),
            text@ == "["@ + comma_separated(items.take(i as int)),
        decreases n - i,
    {
        if i > 0 {
            text.append(", ");
        }
        let item: String = numeral(points[i] as u64, 16);
        text.append(item.as_str());
        proof {
            let upto = items.take(i + 1);
            assert(upto.drop_last() =~= items.take(i as int));
            assert(upto.last() == item@);
            if i > 0 {
                assert(text@ =~= "["@ + (comma_separated(items.take(i as int)) + ", "@
                    + upto.last()));
            } else {
                assert(upto[0] == upto.last());
                assert(text@ =~= "["@ + upto.last());
            }
        }
        i += 1;
    }
    assert(items.take(n as int) =~= items);
    text.append("]");
    text
}

/// Whether two texts are the same.
pub fn same_text(a: &str, b: &str) -> (same: bool)
    ensures
        same == (a@ == b@),
{
    let left: String = a.to_owned();
    let right: String = b.to_owned();
    left == right
}

/// Whether `s` is the replacement text.
pub fn is_replacement(s: &str) -> (yes: bool)
    ensures
        yes == (s@ == replacement_text()),
{
    proof {
        reveal_strlit("?");
        assert("?"@ =~= replacement_text());
    }
    same_text(s, "?")
}

} // verus!
