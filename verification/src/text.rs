//! Comparing and trimming text.

use vstd::prelude::*;
use vstd::utf8::{encode_utf8, encode_utf8_decode_utf8};

verus! {

/// Whether a character is white space: the characters that Unicode gives
/// the property `White_Space`.
pub open spec fn is_white_space(c: char) -> bool {
    let code = c as u32;
    ||| 0x09 <= code <= 0x0d
    ||| code == 0x20
    ||| code == 0x85
    ||| code == 0xa0
    ||| code == 0x1680
    ||| 0x2000 <= code <= 0x200a
    ||| code == 0x2028
    ||| code == 0x2029
    ||| code == 0x202f
    ||| code == 0x205f
    ||| code == 0x3000
}

/// How many characters of white space a text begins with.
pub open spec fn leading_white_space(text: Seq<char>) -> nat
    decreases text.len(),
{
    if text.len() > 0 && is_white_space(text.first()) {
        1 + leading_white_space(text.drop_first())
    } else {
        0
    }
}

/// How many characters of white space a text ends with.
pub open spec fn trailing_white_space(text: Seq<char>) -> nat
    decreases text.len(),
{
    if text.len() > 0 && is_white_space(text.last()) {
        1 + trailing_white_space(text.drop_last())
    } else {
        0
    }
}

/// A text without the white space it begins and ends with.
pub open spec fn trimmed(text: Seq<char>) -> Seq<char> {
    let rest = text.skip(leading_white_space(text) as int);
    rest.take(rest.len() - trailing_white_space(rest))
}

proof fn lemma_leading_white_space(text: Seq<char>, count: nat)
    requires
        count <= text.len(),
        forall|index: int| 0 <= index < count ==> is_white_space(text[index]),
        count < text.len() ==> !is_white_space(text[count as int]),
    ensures
        leading_white_space(text) == count,
    decreases count,
{
    if count > 0 {
        let rest = text.drop_first();
        assert forall|index: int| 0 <= index < count - 1 implies is_white_space(rest[index]) by {
            assert(rest[index] == text[index + 1]);
        }
        lemma_leading_white_space(rest, (count - 1) as nat);
    }
}

proof fn lemma_trailing_white_space(text: Seq<char>, count: nat)
    requires
        count <= text.len(),
        forall|index: int| text.len() - count <= index < text.len() ==> is_white_space(text[index]),
        count < text.len() ==> !is_white_space(text[text.len() - count - 1]),
    ensures
        trailing_white_space(text) == count,
    decreases count,
{
    if count > 0 {
        let rest = text.drop_last();
        assert forall|index: int| rest.len() - (count - 1) <= index < rest.len() implies is_white_space(
            rest[index],
        ) by {
            assert(rest[index] == text[index]);
        }
        lemma_trailing_white_space(rest, (count - 1) as nat);
    }
}

/// Tells whether a character is white space.
pub fn white_space(c: char) -> (white: bool)
    ensures
        white == is_white_space(c),
{
    let code: u32 = c as u32;
    (0x09 <= code && code <= 0x0d) || code == 0x20 || code == 0x85 || code == 0xa0 || code
        == 0x1680 || (0x2000 <= code && code <= 0x200a) || code == 0x2028 || code == 0x2029 || code
        == 0x202f || code == 0x205f || code == 0x3000
}

/// The part of a text between the white space it begins with and the white
/// space it ends with.
pub fn trim(text: &str) -> (inner: &str)
    ensures
        inner@ == trimmed(text@),
{
    let len: usize = text.unicode_len();
    let mut start: usize = 0;
    while start < len
        invariant_except_break
            start <= len,
            len == text@.len(),
            forall|index: int| 0 <= index < start ==> is_white_space(text@[index]),
        ensures
            start <= len,
            forall|index: int| 0 <= index < start ==> is_white_space(text@[index]),
            start < len ==> !is_white_space(text@[start as int]),
        decreases len - start,
    {
        if !white_space(text.get_char(start)) {
            break ;
        }
        start += 1;
    }
    let mut end: usize = len;
    while end > start
        invariant_except_break
            start <= end <= len,
            len == text@.len(),
            forall|index: int| end <= index < len ==> is_white_space(text@[index]),
        ensures
            start <= end <= len,
            forall|index: int| end <= index < len ==> is_white_space(text@[index]),
            end > start ==> !is_white_space(text@[end - 1]),
        decreases end,
    {
        if !white_space(text.get_char(end - 1)) {
            break ;
        }
        end -= 1;
    }
    proof {
        lemma_leading_white_space(text@, start as nat);
        let rest = text@.skip(start as int);
        assert forall|index: int| rest.len() - (len - end) <= index < rest.len() implies is_white_space(
            rest[index],
        ) by {
            assert(rest[index] == text@[index + start]);
        }
        lemma_trailing_white_space(rest, (len - end) as nat);
        assert(text@.subrange(start as int, end as int) =~= rest.take(end - start));
    }
    text.substring_char(start, end)
}

/// Tells whether two texts are the same, character for character.
pub fn same_text(one: &str, other: &str) -> (same: bool)
    ensures
        same == (one@ == other@),
{
    let left: &[u8] = one.as_bytes();
    let right: &[u8] = other.as_bytes();
    proof {
        // the characters can be read back from the bytes, so equal bytes
        // mean equal characters
        encode_utf8_decode_utf8(one@);
        encode_utf8_decode_utf8(other@);
    }
    if left.len() != right.len() {
        return false;
    }
    let mut index: usize = 0;
    while index < left.len()
        invariant
            index <= left.len(),
            left.len() == right.len(),
            left@ == encode_utf8(one@),
            right@ == encode_utf8(other@),
            vstd::utf8::decode_utf8(encode_utf8(one@)) == one@,
            vstd::utf8::decode_utf8(encode_utf8(other@)) == other@,
            forall|earlier: int| 0 <= earlier < index ==> left@[earlier] == right@[earlier],
        decreases left.len() - index,
    {
        if left[index] != right[index] {
            return false;
        }
        index += 1;
    }
    assert(left@ =~= right@);
    true
}

} // verus!
