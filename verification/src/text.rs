//! Offsets in text: UTF-8 bytes on the host side, UTF-16 code units on the
//! retained-view side.
use std::ops::Range;
use vstd::prelude::*;
use vstd::utf8::*;

verus! {

/// Number of UTF-16 code units that encode one character.
pub open spec fn utf16_width(c: char) -> nat {
    if c as u32 >= 0x1_0000 {
        2
    } else {
        1
    }
}

/// Number of UTF-16 code units that encode a run of characters.
pub open spec fn utf16_len(chars: Seq<char>) -> nat
    decreases chars.len(),
{
    if chars.len() == 0 {
        0
    } else {
        utf16_len(chars.drop_last()) + utf16_width(chars.last())
    }
}

/// Whether a byte offset falls between two characters of the text.
pub open spec fn on_char_boundary(text: Seq<char>, offset: int) -> bool {
    is_char_boundary(encode_utf8(text), offset)
}

/// The characters that the first `offset` bytes of the text encode.
pub open spec fn chars_before(text: Seq<char>, offset: int) -> Seq<char> {
    decode_utf8(encode_utf8(text).subrange(0, offset))
}

/// The UTF-16 range of a UTF-8 byte range, if both ends fall between characters.
pub open spec fn utf16_range(text: Seq<char>, start: int, end: int) -> Option<(nat, nat)> {
    if start > end || !on_char_boundary(text, start) || !on_char_boundary(text, end) {
        None
    } else {
        Some((utf16_len(chars_before(text, start)), utf16_len(chars_before(text, end))))
    }
}

/// A character takes no more UTF-16 units than UTF-8 bytes.
proof fn lemma_utf16_within_utf8(chars: Seq<char>)
    ensures
        utf16_len(chars) <= encode_utf8(chars).len(),
    decreases chars.len(),
{
    if chars.len() > 0 {
        let init = chars.drop_last();
        lemma_utf16_within_utf8(init);
        lemma_encode_concat(init, seq![chars.last()]);
        assert(init + seq![chars.last()] =~= chars);
        assert(seq![chars.last()].drop_first() =~= Seq::<char>::empty());
        reveal_with_fuel(encode_utf8, 2);
    }
}

/// Encoding distributes over concatenation.
proof fn lemma_encode_concat(a: Seq<char>, b: Seq<char>)
    ensures
        encode_utf8(a + b) == encode_utf8(a) + encode_utf8(b),
    decreases a.len(),
{
    if a.len() == 0 {
        assert(a + b =~= b);
        assert(encode_utf8(a) + encode_utf8(b) =~= encode_utf8(b));
    } else {
        assert((a + b).drop_first() =~= a.drop_first() + b);
        lemma_encode_concat(a.drop_first(), b);
        assert(encode_utf8(a + b) =~= encode_utf8(a) + encode_utf8(b));
    }
}

/// The end of a prefix of the characters is a boundary of the whole text.
proof fn lemma_prefix_boundary(a: Seq<char>, b: Seq<char>)
    ensures
        is_char_boundary(encode_utf8(a + b), encode_utf8(a).len() as int),
    decreases a.len(),
{
    encode_utf8_valid_utf8(a + b);
    if a.len() > 0 {
        let whole = encode_utf8(a + b);
        assert((a + b).drop_first() =~= a.drop_first() + b);
        encode_utf8_first_scalar(a + b);
        assert((a + b)[0] == a[0]);
        lemma_encode_concat(a, b);
        assert(pop_first_scalar(whole) =~= encode_utf8(a.drop_first() + b));
        lemma_prefix_boundary(a.drop_first(), b);
    }
}

/// Counts the UTF-16 code units of a text.
fn utf16_count(text: &str) -> (r: usize)
    ensures
        r == utf16_len(text@),
{
    let bytes: usize = text.as_bytes().len();
    let ghost chars = text@;
    let mut count: usize = 0;
    proof {
        assert(chars.take(0) =~= Seq::<char>::empty());
    }
    for c in it: text.chars()
        invariant
            it.seq() == chars,
            count == utf16_len(chars.take(it.index())),
            encode_utf8(chars).len() == bytes,
    {
        proof {
            let done = chars.take(it.index());
            let next = chars.take(it.index() + 1);
            assert(next.drop_last() =~= done);
            assert(next.last() == c);
            lemma_utf16_within_utf8(next);
            lemma_encode_concat(next, chars.skip(it.index() + 1));
            assert(next + chars.skip(it.index() + 1) =~= chars);
        }
        if c as u32 >= 0x1_0000 {
            count = count + 2;
        } else {
            count = count + 1;
        }
    }
    proof {
        assert(chars.take(chars.len() as int) =~= chars);
    }
    count
}

/// Converts a UTF-8 byte range of `text` to a UTF-16 range.
///
/// Returns `None` when the range is reversed or an end falls inside a character
/// or beyond the text.
pub fn byte_range_to_utf16(text: &str, start: usize, end: usize) -> (r: Option<Range<usize>>)
    ensures
        match utf16_range(text@, start as int, end as int) {
            None => r is None,
            Some((first, last)) => r matches Some(range) && range.start == first && range.end
                == last,
        },
{
    if start > end || !text.is_char_boundary(start) || !text.is_char_boundary(end) {
        return None;
    }
    let (before_start, _) = text.split_at(start);
    let (before_end, _) = text.split_at(end);
    proof {
        encode_utf8_decode_utf8(before_start@);
        encode_utf8_decode_utf8(before_end@);
    }
    let first: usize = utf16_count(before_start);
    let last: usize = utf16_count(before_end);
    Some(first..last)
}

/// A byte range that ends between characters converts to the UTF-16 lengths of
/// the characters before each end.
pub proof fn law_character_ranges_convert(text: Seq<char>, first: int, last: int)
    requires
        0 <= first <= last <= text.len(),
    ensures
        utf16_range(
            text,
            encode_utf8(text.take(first)).len() as int,
            encode_utf8(text.take(last)).len() as int,
        ) == Some((utf16_len(text.take(first)), utf16_len(text.take(last)))),
{
    lemma_cut(text, first);
    lemma_cut(text, last);
    let middle = text.subrange(first, last);
    assert(text.take(first) + middle =~= text.take(last));
    lemma_encode_concat(text.take(first), middle);
}

/// Cutting the bytes where `count` characters end gives those characters back.
proof fn lemma_cut(text: Seq<char>, count: int)
    requires
        0 <= count <= text.len(),
    ensures
        on_char_boundary(text, encode_utf8(text.take(count)).len() as int),
        chars_before(text, encode_utf8(text.take(count)).len() as int) == text.take(count),
{
    let (a, b) = (text.take(count), text.skip(count));
    assert(a + b =~= text);
    lemma_prefix_boundary(a, b);
    lemma_encode_concat(a, b);
    assert(encode_utf8(text).subrange(0, encode_utf8(a).len() as int) =~= encode_utf8(a));
    encode_utf8_decode_utf8(a);
}

/// A converted range is ordered and never longer than the byte range.
pub proof fn law_converted_range_is_ordered(text: Seq<char>, start: int, end: int)
    requires
        utf16_range(text, start, end) is Some,
    ensures
        utf16_range(text, start, end) matches Some((first, last)) && first <= last <= end,
{
    let bytes = encode_utf8(text);
    encode_utf8_valid_utf8(text);
    valid_utf8_split(bytes, start);
    valid_utf8_split(bytes, end);
    lemma_boundary_in_range(bytes, start);
    lemma_boundary_in_range(bytes, end);
    let (a, b) = (bytes.subrange(0, start), bytes.subrange(0, end));
    decode_utf8_encode_utf8(a);
    decode_utf8_encode_utf8(b);
    lemma_utf16_within_utf8(decode_utf8(b));
    lemma_decode_prefix(bytes, start, end);
    lemma_utf16_prefix(decode_utf8(a), decode_utf8(b));
}

proof fn lemma_boundary_in_range(bytes: Seq<u8>, index: int)
    requires
        valid_utf8(bytes),
        is_char_boundary(bytes, index),
    ensures
        0 <= index <= bytes.len(),
{
}

/// The characters before an earlier boundary start those before a later one.
proof fn lemma_decode_prefix(bytes: Seq<u8>, start: int, end: int)
    requires
        valid_utf8(bytes),
        is_char_boundary(bytes, start),
        is_char_boundary(bytes, end),
        start <= end,
    ensures
        decode_utf8(bytes.subrange(0, start)).is_prefix_of(decode_utf8(bytes.subrange(0, end))),
{
    decode_utf8_split(bytes, start);
    decode_utf8_split(bytes, end);
    valid_utf8_split(bytes, start);
    valid_utf8_split(bytes, end);
    let whole = decode_utf8(bytes);
    let (a, b) = (decode_utf8(bytes.subrange(0, start)), decode_utf8(bytes.subrange(0, end)));
    let (rest_a, rest_b) = (
        decode_utf8(bytes.subrange(start, bytes.len() as int)),
        decode_utf8(bytes.subrange(end, bytes.len() as int)),
    );
    assert(whole =~= a + rest_a);
    assert(whole =~= b + rest_b);
    assert(forall|i: int| 0 <= i < a.len() ==> a[i] == whole[i]);
    assert(forall|i: int| 0 <= i < b.len() ==> b[i] == whole[i]);
    if a.len() > b.len() {
        // Then the earlier cut would hold more bytes than the later one.
        assert(b + a.subrange(b.len() as int, a.len() as int) =~= a);
        lemma_encode_concat(b, a.subrange(b.len() as int, a.len() as int));
        decode_utf8_encode_utf8(bytes.subrange(0, start));
        decode_utf8_encode_utf8(bytes.subrange(0, end));
        let extra = a.subrange(b.len() as int, a.len() as int);
        lemma_utf16_within_utf8(extra);
        assert(utf16_len(extra) > 0);
    }
}

proof fn lemma_utf16_prefix(a: Seq<char>, b: Seq<char>)
    requires
        a.is_prefix_of(b),
    ensures
        utf16_len(a) <= utf16_len(b),
    decreases b.len(),
{
    if a.len() == b.len() {
        assert(a =~= b);
    } else {
        lemma_utf16_prefix(a, b.drop_last());
    }
}

/// The code units that encode one character in UTF-16: itself where it fits one unit,
/// and otherwise a pair of surrogates with ten bits each of what lies beyond.
pub open spec fn utf16_units(c: char) -> Seq<u16> {
    let code = c as u32;
    if code <= 0xffff {
        seq![code as u16]
    } else {
        let beyond = code - 0x1_0000;
        seq![(0xd800 + beyond / 0x400) as u16, (0xdc00 + beyond % 0x400) as u16]
    }
}

/// The code units that encode a text in UTF-16.
pub open spec fn encode_utf16(chars: Seq<char>) -> Seq<u16>
    decreases chars.len(),
{
    if chars.len() == 0 {
        Seq::empty()
    } else {
        encode_utf16(chars.drop_last()) + utf16_units(chars.last())
    }
}

/// The units of a character give it back: a single unit is the character and no
/// surrogate, and a pair of surrogates carries the upper and the lower ten bits of
/// what lies beyond `0xffff`.
pub proof fn law_units_give_character_back(c: char)
    ensures
        ({
            let units = utf16_units(c);
            ||| units.len() == 1 && units[0] as u32 == c as u32 && !(0xd800 <= units[0] <= 0xdfff)
            ||| units.len() == 2 && 0xd800 <= units[0] <= 0xdbff && 0xdc00 <= units[1] <= 0xdfff
                && c as u32 == 0x1_0000 + (units[0] - 0xd800) * 0x400 + (units[1] - 0xdc00)
        }),
{
    let code = c as u32;
    assert(code <= 0x10_ffff);
    if code > 0xffff {
        let beyond = code - 0x1_0000;
        assert(beyond < 0x10_0000);
        assert(beyond / 0x400 < 0x400);
        assert(beyond == (beyond / 0x400) * 0x400 + beyond % 0x400);
    }
}

/// A character counts for as many units as its encoding has: one below U+10000 and
/// two from there on.
pub proof fn law_character_counts_its_units(c: char)
    ensures
        utf16_width(c) == utf16_units(c).len(),
        (c as u32) < 0x1_0000 ==> utf16_width(c) == 1,
        (c as u32) >= 0x1_0000 ==> utf16_width(c) == 2,
{
}

/// A text counts for as many units as its encoding has, which is the sum over its
/// parts.
pub proof fn law_text_counts_its_units(a: Seq<char>, b: Seq<char>)
    ensures
        utf16_len(a) == encode_utf16(a).len(),
        encode_utf16(a + b) == encode_utf16(a) + encode_utf16(b),
        utf16_len(a + b) == utf16_len(a) + utf16_len(b),
    decreases a.len() + b.len(),
{
    if b.len() > 0 {
        let init = b.drop_last();
        law_text_counts_its_units(a, init);
        assert((a + b).drop_last() =~= a + init);
        assert((a + b).last() == b.last());
        assert(encode_utf16(a + b) =~= encode_utf16(a) + encode_utf16(b));
    } else {
        assert(a + b =~= a);
        assert(encode_utf16(a) + encode_utf16(b) =~= encode_utf16(a));
        if a.len() > 0 {
            law_text_counts_its_units(a.drop_last(), b);
            law_character_counts_its_units(a.last());
        }
    }
}

/// A text whose characters are all below U+10000 has one unit for each character.
pub proof fn law_small_characters_count_once(chars: Seq<char>)
    requires
        forall|i: int| 0 <= i < chars.len() ==> (#[trigger] chars[i]) as u32 <= 0xffff,
    ensures
        utf16_len(chars) == chars.len(),
    decreases chars.len(),
{
    if chars.len() > 0 {
        let init = chars.drop_last();
        assert forall|i: int| 0 <= i < init.len() implies (#[trigger] init[i]) as u32 <= 0xffff by {
            assert(init[i] == chars[i]);
        }
        law_small_characters_count_once(init);
        assert(chars.last() == chars[chars.len() - 1]);
    }
}

/// A byte range converts exactly where both ends fall between characters and are in
/// order, and then to the numbers of UTF-16 units before each end.
pub proof fn law_range_converts_between_characters(
    text: Seq<char>,
    start: int,
    end: int,
    range: (nat, nat),
)
    ensures
        utf16_range(text, start, end) == Some(range) <==> exists|first: int, last: int|
            #![trigger text.take(first), text.take(last)]
            0 <= first <= last <= text.len() && start == encode_utf8(text.take(first)).len() && end
                == encode_utf8(text.take(last)).len() && range.0 == encode_utf16(
                text.take(first),
            ).len() && range.1 == encode_utf16(text.take(last)).len(),
{
    if utf16_range(text, start, end) == Some(range) {
        let first = lemma_boundary_after_characters(text, start);
        let last = lemma_boundary_after_characters(text, end);
        if first > last {
            let middle = text.subrange(last, first);
            assert(text.take(last) + middle =~= text.take(first));
            lemma_encode_concat(text.take(last), middle);
            lemma_utf16_within_utf8(middle);
            law_text_counts_its_units(middle, Seq::empty());
            assert(utf16_width(middle.last()) >= 1);
            assert(utf16_len(middle) >= 1);
        }
        law_text_counts_its_units(text.take(first), Seq::empty());
        law_text_counts_its_units(text.take(last), Seq::empty());
        assert(0 <= first <= last <= text.len());
    }
    if exists|first: int, last: int|
        #![trigger text.take(first), text.take(last)]
        0 <= first <= last <= text.len() && start == encode_utf8(text.take(first)).len() && end
            == encode_utf8(text.take(last)).len() && range.0 == encode_utf16(text.take(first)).len()
            && range.1 == encode_utf16(text.take(last)).len() {
        let (first, last) = choose|first: int, last: int|
            #![trigger text.take(first), text.take(last)]
            0 <= first <= last <= text.len() && start == encode_utf8(text.take(first)).len() && end
                == encode_utf8(text.take(last)).len() && range.0 == encode_utf16(
                text.take(first),
            ).len() && range.1 == encode_utf16(text.take(last)).len();
        law_character_ranges_convert(text, first, last);
        law_text_counts_its_units(text.take(first), Seq::empty());
        law_text_counts_its_units(text.take(last), Seq::empty());
    }
}

/// A boundary is the end of some number of characters.
proof fn lemma_boundary_after_characters(text: Seq<char>, offset: int) -> (count: int)
    requires
        on_char_boundary(text, offset),
    ensures
        0 <= count <= text.len(),
        offset == encode_utf8(text.take(count)).len(),
        chars_before(text, offset) == text.take(count),
{
    let bytes = encode_utf8(text);
    encode_utf8_valid_utf8(text);
    lemma_boundary_in_range(bytes, offset);
    valid_utf8_split(bytes, offset);
    decode_utf8_split(bytes, offset);
    encode_utf8_decode_utf8(text);
    let before = decode_utf8(bytes.subrange(0, offset));
    let rest = decode_utf8(bytes.subrange(offset, bytes.len() as int));
    assert(text =~= before + rest);
    assert(text.take(before.len() as int) =~= before);
    decode_utf8_encode_utf8(bytes.subrange(0, offset));
    before.len() as int
}

/// A converted range lies within the UTF-16 encoding of the text, and where all
/// characters are below U+10000 its ends are the numbers of characters before the
/// ends of the byte range.
pub proof fn law_converted_range_lies_in_text(text: Seq<char>, start: int, end: int)
    requires
        utf16_range(text, start, end) is Some,
    ensures
        utf16_range(text, start, end) matches Some((first, last)) && first <= last
            <= encode_utf16(text).len() && ((forall|i: int|
            0 <= i < text.len() ==> (#[trigger] text[i]) as u32 <= 0xffff) ==> first
            == chars_before(text, start).len() && last == chars_before(text, end).len() && last
            <= text.len()),
{
    let a = lemma_boundary_after_characters(text, start);
    let b = lemma_boundary_after_characters(text, end);
    law_converted_range_is_ordered(text, start, end);
    law_text_counts_its_units(text.take(b), text.skip(b));
    assert(text.take(b) + text.skip(b) =~= text);
    if forall|i: int| 0 <= i < text.len() ==> (#[trigger] text[i]) as u32 <= 0xffff {
        assert forall|i: int| 0 <= i < a implies (#[trigger] text.take(a)[i]) as u32 <= 0xffff by {
            assert(text.take(a)[i] == text[i]);
        }
        assert forall|i: int| 0 <= i < b implies (#[trigger] text.take(b)[i]) as u32 <= 0xffff by {
            assert(text.take(b)[i] == text[i]);
        }
        law_small_characters_count_once(text.take(a));
        law_small_characters_count_once(text.take(b));
    }
}

/// A byte range that converts gives the numbers of UTF-16 units before its ends, and it
/// converts where some characters of the text end at both of them.
pub proof fn law_byte_ranges_count_units(
    text: Seq<char>,
    given: &str,
    first: int,
    last: int,
    start: usize,
    end: usize,
    r: Option<Range<usize>>,
)
    requires
        given@ == text,
        0 <= first <= last <= text.len(),
        start == encode_utf8(text.take(first)).len(),
        end == encode_utf8(text.take(last)).len(),
        call_ensures(byte_range_to_utf16, (given, start, end), r),
    ensures
        r matches Some(range) && range.start == encode_utf16(text.take(first)).len() && range.end
            == encode_utf16(text.take(last)).len(),
{
    law_character_ranges_convert(text, first, last);
    law_text_counts_its_units(text.take(first), Seq::empty());
    law_text_counts_its_units(text.take(last), Seq::empty());
}

} // verus!
