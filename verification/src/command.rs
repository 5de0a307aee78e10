//! The text commands that set the indicator light.
//!
//! A command is one line: the name of a colour, or three numbers from 0 to
//! 255 separated by commas for red, green and blue. White space around the
//! command does not count.

use crate::color::Color;
use crate::text::{same_text, trim, trimmed};
use vstd::prelude::*;
use vstd::utf8::encode_utf8;

verus! {

/// The byte that separates the components of a colour.
pub const COMMA: u8 = 0x2c;

/// The sign a component may begin with.
pub const PLUS: u8 = 0x2b;

/// The digit zero; the other nine digits follow it.
pub const ZERO: u8 = 0x30;

/// Why a text is not a colour given by its components.
#[derive(Debug, Clone, Copy, PartialEq, Eq, Structural)]
pub enum ColorParseError {
    /// One of the fields between the commas is not a number from 0 to 255.
    InvalidComponent,
    /// Every field is a number, but there are fewer than three.
    MissingComponent,
}

/// The colour a name stands for, if it is the name of one.
pub open spec fn named_color(name: Seq<char>) -> Option<Color> {
    if name == "red"@ {
        Some(Color::Red)
    } else if name == "orange"@ {
        Some(Color::Orange)
    } else if name == "yellow"@ {
        Some(Color::Yellow)
    } else if name == "green"@ {
        Some(Color::Green)
    } else if name == "cyan"@ {
        Some(Color::Cyan)
    } else if name == "blue"@ {
        Some(Color::Blue)
    } else if name == "magenta"@ {
        Some(Color::Magenta)
    } else if name == "purple"@ {
        Some(Color::Purple)
    } else if name == "pink"@ {
        Some(Color::Pink)
    } else if name == "white"@ {
        Some(Color::White)
    } else if name == "off"@ {
        Some(Color::Off)
    } else {
        None
    }
}

/// Looks a colour up by its name. Names are lower case and have to match
/// exactly.
pub fn color_from_name(name: &str) -> (color: Option<Color>)
    ensures
        color == named_color(name@),
{
    if same_text(name, "red") {
        Some(Color::Red)
    } else if same_text(name, "orange") {
        Some(Color::Orange)
    } else if same_text(name, "yellow") {
        Some(Color::Yellow)
    } else if same_text(name, "green") {
        Some(Color::Green)
    } else if same_text(name, "cyan") {
        Some(Color::Cyan)
    } else if same_text(name, "blue") {
        Some(Color::Blue)
    } else if same_text(name, "magenta") {
        Some(Color::Magenta)
    } else if same_text(name, "purple") {
        Some(Color::Purple)
    } else if same_text(name, "pink") {
        Some(Color::Pink)
    } else if same_text(name, "white") {
        Some(Color::White)
    } else if same_text(name, "off") {
        Some(Color::Off)
    } else {
        None
    }
}

/// Length of the first field of a text: the number of bytes before its
/// first comma, or all of them if it has none.
pub open spec fn field_end(bytes: Seq<u8>) -> nat
    decreases bytes.len(),
{
    if bytes.len() == 0 || bytes.first() == COMMA {
        0
    } else {
        1 + field_end(bytes.drop_first())
    }
}

/// The fields of a text: what stands before, between and after its commas.
/// A text with n commas has n + 1 fields, some of which may be empty.
pub open spec fn split_fields(bytes: Seq<u8>) -> Seq<Seq<u8>>
    decreases bytes.len(),
{
    let end = field_end(bytes) as int;
    if end >= bytes.len() {
        seq![bytes]
    } else {
        seq![bytes.take(end)] + split_fields(bytes.skip(end + 1))
    }
}

/// Whether every byte is a decimal digit.
pub open spec fn all_digits(digits: Seq<u8>) -> bool {
    forall|index: int| 0 <= index < digits.len() ==> ZERO <= #[trigger] digits[index] <= ZERO + 9
}

/// The number that a run of decimal digits writes.
pub open spec fn decimal_value(digits: Seq<u8>) -> int
    decreases digits.len(),
{
    if digits.len() == 0 {
        0
    } else {
        10 * decimal_value(digits.drop_last()) + (digits.last() - ZERO)
    }
}

/// The digits of a field: the field itself, without the plus sign it may
/// begin with.
pub open spec fn field_digits(field: Seq<u8>) -> Seq<u8> {
    if field.len() > 0 && field.first() == PLUS {
        field.drop_first()
    } else {
        field
    }
}

/// The component a field states: at least one decimal digit, after an
/// optional plus sign, writing a number of at most 255. Leading zeros are
/// allowed; anything else in the field, white space included, is not.
pub open spec fn component(field: Seq<u8>) -> Option<u8> {
    let digits = field_digits(field);
    if digits.len() > 0 && all_digits(digits) && decimal_value(digits) <= 255 {
        Some(decimal_value(digits) as u8)
    } else {
        None
    }
}

/// Whether each of the fields states a component.
pub open spec fn all_components(fields: Seq<Seq<u8>>) -> bool {
    forall|index: int| 0 <= index < fields.len() ==> component(#[trigger] fields[index]) is Some
}

/// The colour that a text gives by its components. Every field has to be a
/// component, also those after the third, which are otherwise not used.
pub open spec fn parsed_rgb(bytes: Seq<u8>) -> Result<Color, ColorParseError> {
    let fields = split_fields(bytes);
    if !all_components(fields) {
        Err(ColorParseError::InvalidComponent)
    } else if fields.len() < 3 {
        Err(ColorParseError::MissingComponent)
    } else {
        Ok(
            Color::Custom(
                component(fields[0])->0,
                component(fields[1])->0,
                component(fields[2])->0,
            ),
        )
    }
}

/// The colour a command line asks for, if it asks for one: the name of a
/// colour, or else its components.
pub open spec fn command_color(line: Seq<char>) -> Option<Color> {
    let command = trimmed(line);
    match named_color(command) {
        Some(color) => Some(color),
        None => match parsed_rgb(encode_utf8(command)) {
            Ok(color) => Some(color),
            Err(_) => None,
        },
    }
}

proof fn lemma_field_end(bytes: Seq<u8>, end: nat)
    requires
        end <= bytes.len(),
        forall|index: int| 0 <= index < end ==> bytes[index] != COMMA,
        end < bytes.len() ==> bytes[end as int] == COMMA,
    ensures
        field_end(bytes) == end,
    decreases end,
{
    if end > 0 {
        let rest = bytes.drop_first();
        assert forall|index: int| 0 <= index < end - 1 implies rest[index] != COMMA by {
            assert(rest[index] == bytes[index + 1]);
        }
        lemma_field_end(rest, (end - 1) as nat);
    }
}

proof fn lemma_decimal_value_grows(digits: Seq<u8>, count: int)
    requires
        all_digits(digits),
        0 <= count <= digits.len(),
    ensures
        0 <= decimal_value(digits.take(count)) <= decimal_value(digits),
    decreases digits.len() - count,
{
    if count == digits.len() {
        assert(digits.take(count) =~= digits);
        lemma_decimal_value_nonnegative(digits);
    } else {
        let shorter = digits.drop_last();
        assert(shorter.take(count) =~= digits.take(count));
        assert(all_digits(shorter)) by {
            assert forall|index: int| 0 <= index < shorter.len() implies ZERO
                <= #[trigger] shorter[index] <= ZERO + 9 by {
                assert(shorter[index] == digits[index]);
            }
        }
        lemma_decimal_value_grows(shorter, count);
        assert(ZERO <= digits[digits.len() - 1] <= ZERO + 9);
    }
}

proof fn lemma_decimal_value_nonnegative(digits: Seq<u8>)
    requires
        all_digits(digits),
    ensures
        0 <= decimal_value(digits),
    decreases digits.len(),
{
    if digits.len() > 0 {
        let shorter = digits.drop_last();
        assert forall|index: int| 0 <= index < shorter.len() implies ZERO
            <= #[trigger] shorter[index] <= ZERO + 9 by {
            assert(shorter[index] == digits[index]);
        }
        lemma_decimal_value_nonnegative(shorter);
        assert(ZERO <= digits[digits.len() - 1] <= ZERO + 9);
    }
}

/// Finds where the field that starts at `start` ends.
fn find_field_end(bytes: &[u8], start: usize) -> (end: usize)
    requires
        start <= bytes.len(),
    ensures
        start <= end <= bytes.len(),
        end - start == field_end(bytes@.skip(start as int)),
{
    let mut end: usize = start;
    while end < bytes.len() && bytes[end] != COMMA
        invariant
            start <= end <= bytes.len(),
            forall|index: int| start <= index < end ==> bytes@[index] != COMMA,
        decreases bytes.len() - end,
    {
        end += 1;
    }
    proof {
        lemma_field_end(bytes@.skip(start as int), (end - start) as nat);
    }
    end
}

/// Reads the field that fills `bytes` from `start` up to `end`.
fn parse_component(bytes: &[u8], start: usize, end: usize) -> (value: Option<u8>)
    requires
        start <= end <= bytes.len(),
    ensures
        value == component(bytes@.subrange(start as int, end as int)),
{
    let ghost field = bytes@.subrange(start as int, end as int);
    let mut index: usize = start;
    if index < end && bytes[index] == PLUS {
        index += 1;
    }
    let first: usize = index;
    let ghost digits = field_digits(field);
    assert(digits =~= bytes@.subrange(first as int, end as int));
    if first == end {
        return None;
    }
    let mut value: u32 = 0;
    while index < end
        invariant
            start <= first <= index <= end <= bytes.len(),
            field == bytes@.subrange(start as int, end as int),
            digits == field_digits(field),
            digits == bytes@.subrange(first as int, end as int),
            all_digits(digits.take(index - first)),
            value == decimal_value(digits.take(index - first)),
            value <= 255,
        decreases end - index,
    {
        let byte: u8 = bytes[index];
        let ghost longer = digits.take(index - first + 1);
        assert(longer.drop_last() =~= digits.take(index - first));
        assert(longer.last() == byte);
        if byte < ZERO || byte > ZERO + 9 {
            assert(digits[index - first] == byte);
            return None;
        }
        value = value * 10 + (byte - ZERO) as u32;
        assert(all_digits(longer)) by {
            assert forall|at: int| 0 <= at < longer.len() implies ZERO <= #[trigger] longer[at]
                <= ZERO + 9 by {
                if at < index - first {
                    assert(longer[at] == digits.take(index - first)[at]);
                }
            }
        }
        if value > 255 {
            proof {
                if all_digits(digits) {
                    lemma_decimal_value_grows(digits, index - first + 1);
                }
            }
            return None;
        }
        index += 1;
    }
    assert(digits.take(index - first) =~= digits);
    Some(value as u8)
}

/// Reads a colour given as `red,green,blue`, each a decimal number from 0
/// to 255.
///
/// Every field between the commas has to be such a number, or the text is
/// refused for an invalid component; fields after the third are checked and
/// then left aside. A text of fewer than three numbers is refused for a
/// missing component.
pub fn parse_rgb(buf: &str) -> (color: Result<Color, ColorParseError>)
    ensures
        color == parsed_rgb(encode_utf8(buf@)),
{
    let bytes: &[u8] = buf.as_bytes();
    let ghost fields = split_fields(bytes@);
    let mut val: Vec<u8> = Vec::new();
    let mut start: usize = 0;
    let mut finished: bool = false;
    proof {
        assert(bytes@.skip(0) =~= bytes@);
        assert(fields.take(0) + fields =~= fields);
    }
    while !finished
        invariant
            start <= bytes.len(),
            bytes@ == encode_utf8(buf@),
            fields == split_fields(bytes@),
            val.len() <= fields.len(),
            !finished ==> fields =~= fields.take(val.len() as int) + split_fields(
                bytes@.skip(start as int),
            ),
            finished ==> fields.len() == val.len(),
            forall|index: int|
                0 <= index < val.len() ==> component(#[trigger] fields[index]) == Some(val@[index]),
        decreases
                if finished {
                    0
                } else {
                    bytes.len() - start + 1
                },
    {
        let end: usize = find_field_end(bytes, start);
        let ghost rest = bytes@.skip(start as int);
        let ghost field = bytes@.subrange(start as int, end as int);
        proof {
            assert(rest.take(end - start) =~= field);
            if end < bytes.len() {
                assert(rest.skip(end - start + 1) =~= bytes@.skip(end + 1));
            } else {
                assert(rest =~= field);
            }
            assert(split_fields(rest).len() >= 1 && split_fields(rest)[0] == field);
            assert(val.len() < fields.len());
            assert(fields[val.len() as int] == field);
        }
        match parse_component(bytes, start, end) {
            None => {
                assert(component(fields[val.len() as int]) is None);
                return Err(ColorParseError::InvalidComponent);
            },
            Some(value) => {
                val.push(value);
            },
        }
        if end == bytes.len() {
            finished = true;
        } else {
            start = end + 1;
            proof {
                assert(fields =~= fields.take(val.len() as int) + split_fields(
                    bytes@.skip(start as int),
                ));
            }
        }
    }
    if val.len() < 3 {
        return Err(ColorParseError::MissingComponent);
    }
    Ok(Color::Custom(val[0], val[1], val[2]))
}

/// Reads a command line: the name of a colour or its components, with any
/// white space around it. Gives nothing if the line is neither.
pub fn parse_command(line: &str) -> (color: Option<Color>)
    ensures
        color == command_color(line@),
{
    let command: &str = trim(line);
    match color_from_name(command) {
        Some(color) => Some(color),
        None => match parse_rgb(command) {
            Ok(color) => Some(color),
            Err(_) => None,
        },
    }
}

} // verus!
