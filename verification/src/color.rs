//! Colours for a WS2812 indicator light, and the bits that put one on the
//! wire.
//!
//! The light takes 24 bits per pixel: green, red, blue, each byte most
//! significant bit first. A bit is a high period followed by a low period;
//! a long high period is a 1, a short one a 0.

use core::time::Duration;
use rgb::RGB8;
use vstd::prelude::*;
use vstd::std_specs::convert::FromSpecImpl;

verus! {

/// The colours the light can be asked for by name, and any other by its
/// components.
#[derive(Debug, Clone, Copy)]
pub enum Color {
    Red,
    Green,
    Blue,
    Yellow,
    Cyan,
    Magenta,
    White,
    Off,
    Orange,
    Purple,
    Pink,
    /// Red, green and blue, as given.
    Custom(u8, u8, u8),
}

/// A colour as its red, green and blue components.
#[derive(Debug, Clone, Copy, PartialEq, Eq, Structural)]
pub struct Pixel {
    pub r: u8,
    pub g: u8,
    pub b: u8,
}

/// The components of a colour.
pub open spec fn components(color: Color) -> Pixel {
    match color {
        Color::Red => Pixel { r: 0xff, g: 0x00, b: 0x00 },
        Color::Green => Pixel { r: 0x00, g: 0xff, b: 0x00 },
        Color::Blue => Pixel { r: 0x00, g: 0x00, b: 0xff },
        Color::Yellow => Pixel { r: 0xff, g: 0xff, b: 0x00 },
        Color::Cyan => Pixel { r: 0x00, g: 0xff, b: 0xff },
        Color::Magenta => Pixel { r: 0xff, g: 0x00, b: 0xff },
        Color::White => Pixel { r: 0xff, g: 0xff, b: 0xff },
        Color::Off => Pixel { r: 0x00, g: 0x00, b: 0x00 },
        Color::Orange => Pixel { r: 0xff, g: 0x32, b: 0x00 },
        Color::Purple => Pixel { r: 0xc8, g: 0x00, b: 0xff },
        Color::Pink => Pixel { r: 0xc7, g: 0x15, b: 0x85 },
        Color::Custom(r, g, b) => Pixel { r, g, b },
    }
}

impl From<Color> for Pixel {
    fn from(color: Color) -> (pixel: Pixel) {
        match color {
            Color::Red => Pixel { r: 0xff, g: 0x0, b: 0x0 },
            Color::Green => Pixel { r: 0x0, g: 0xff, b: 0x0 },
            Color::Blue => Pixel { r: 0x0, g: 0x0, b: 0xff },
            Color::Yellow => Pixel { r: 0xff, g: 0xff, b: 0x0 },
            Color::Cyan => Pixel { r: 0x0, g: 0xff, b: 0xff },
            Color::Magenta => Pixel { r: 0xff, g: 0x0, b: 0xff },
            Color::White => Pixel { r: 0xff, g: 0xff, b: 0xff },
            Color::Off => Pixel { r: 0x0, g: 0x0, b: 0x0 },
            Color::Orange => Pixel { r: 0xff, g: 0x32, b: 0x0 },
            Color::Purple => Pixel { r: 0xc8, g: 0x0, b: 0xff },
            Color::Pink => Pixel { r: 0xc7, g: 0x15, b: 0x85 },
            Color::Custom(r, g, b) => Pixel { r, g, b },
        }
    }
}

impl FromSpecImpl<Color> for Pixel {
    open spec fn obeys_from_spec() -> bool {
        true
    }

    open spec fn from_spec(color: Color) -> Pixel {
        components(color)
    }
}

#[verifier::external_type_specification]
#[verifier::external_body]
#[verifier::reject_recursive_types(T)]
pub struct ExRgb<T>(rgb::Rgb<T>);

/// The pixel that `RGB8::new` makes of a red, a green and a blue component.
pub uninterp spec fn rgb8_new(r: u8, g: u8, b: u8) -> RGB8;

/// Makes a pixel of the `rgb` crate with `RGB8::new`, which is taken to be a
/// function of the three components it is given. Nothing else is assumed
/// of it.
#[verifier::external_body]
fn new_rgb8(r: u8, g: u8, b: u8) -> (rgb8: RGB8)
    ensures
        rgb8 == rgb8_new(r, g, b),
{
    RGB8::new(r, g, b)
}

impl From<Color> for RGB8 {
    /// The colour as a pixel of the `rgb` crate.
    fn from(color: Color) -> (rgb8: RGB8) {
        let pixel = Pixel::from(color);
        new_rgb8(pixel.r, pixel.g, pixel.b)
    }
}

impl FromSpecImpl<Color> for RGB8 {
    open spec fn obeys_from_spec() -> bool {
        true
    }

    open spec fn from_spec(color: Color) -> RGB8 {
        rgb8_new(components(color).r, components(color).g, components(color).b)
    }
}

/// Number of bits the light takes per pixel.
pub const PIXEL_BITS: usize = 24;

/// What the bit at `position` of a byte weighs: 1 at position 0, twice as
/// much at each position above, 128 at position 7.
pub open spec fn bit_weight(position: u8) -> u8 {
    if position == 0 {
        1
    } else if position == 1 {
        2
    } else if position == 2 {
        4
    } else if position == 3 {
        8
    } else if position == 4 {
        16
    } else if position == 5 {
        32
    } else if position == 6 {
        64
    } else {
        128
    }
}

/// Whether the bit at `position` of a byte is set.
pub open spec fn byte_bit(value: u8, position: u8) -> bool {
    (value / bit_weight(position)) % 2 == 1
}

/// The byte that is on the wire while bit `slot` of a pixel is sent: green
/// for the first eight slots, then red, then blue.
pub open spec fn wire_byte(pixel: Pixel, slot: int) -> u8 {
    if slot < 8 {
        pixel.g
    } else if slot < 16 {
        pixel.r
    } else {
        pixel.b
    }
}

/// Bit `slot` of a pixel in the order it is sent: of each byte the most
/// significant bit goes first.
pub open spec fn wire_bit(pixel: Pixel, slot: int) -> bool {
    byte_bit(wire_byte(pixel, slot), (7 - slot % 8) as u8)
}

/// The 24 bits of a pixel in the order they are sent.
pub open spec fn pixel_bits(pixel: Pixel) -> Seq<bool> {
    Seq::new(PIXEL_BITS as nat, |slot: int| wire_bit(pixel, slot))
}

/// The pixel as one number, in the order of the wire: green above red above
/// blue.
pub open spec fn wire_word(pixel: Pixel) -> int {
    pixel.g * 0x1_0000 + pixel.r * 0x100 + pixel.b
}

/// Lays the three components out in the order of the wire.
pub fn grb_word(pixel: Pixel) -> (word: u32)
    ensures
        word == wire_word(pixel),
{
    let r: u8 = pixel.r;
    let g: u8 = pixel.g;
    let b: u8 = pixel.b;
    let word: u32 = ((g as u32) << 16) | ((r as u32) << 8) | (b as u32);
    assert(word == g * 0x1_0000 + r * 0x100 + b) by (bit_vector)
        requires
            word == ((g as u32) << 16) | ((r as u32) << 8) | (b as u32),
    ;
    word
}

/// The 24 bits of a pixel in the order they are sent.
pub fn frame_bits(pixel: Pixel) -> (bits: [bool; 24])
    ensures
        bits@ == pixel_bits(pixel),
{
    let word: u32 = grb_word(pixel);
    let r: u8 = pixel.r;
    let g: u8 = pixel.g;
    let b: u8 = pixel.b;
    let mut bits: [bool; 24] = [false;24];
    let mut left: u32 = 24;
    while left > 0
        invariant
            left <= 24,
            word == wire_word(pixel),
            r == pixel.r,
            g == pixel.g,
            b == pixel.b,
            forall|slot: int| 0 <= slot < 24 - left ==> bits@[slot] == wire_bit(pixel, slot),
        decreases left,
    {
        let i: u32 = left - 1;
        let bit_on: bool = ((1u32 << i) & word) != 0;
        assert(bit_on == (if i >= 16 {
            byte_bit(g, (i - 16) as u8)
        } else if i >= 8 {
            byte_bit(r, (i - 8) as u8)
        } else {
            byte_bit(b, i as u8)
        })) by (bit_vector)
            requires
                i < 24,
                bit_on == (((1u32 << i) & word) != 0),
                word == g * 0x1_0000 + r * 0x100 + b,
        ;
        let slot: usize = (23 - i) as usize;
        bits[slot] = bit_on;
        assert(bit_on == wire_bit(pixel, slot as int));
        left = i;
    }
    assert(bits@ =~= pixel_bits(pixel));
    bits
}

/// High period of a 0 bit, in nanoseconds.
pub const T0H_NS: u64 = 350;

/// Low period of a 0 bit, in nanoseconds.
pub const T0L_NS: u64 = 800;

/// High period of a 1 bit, in nanoseconds.
pub const T1H_NS: u64 = 700;

/// Low period of a 1 bit, in nanoseconds.
pub const T1L_NS: u64 = 600;

/// How long the line is high, then low, for a bit, in nanoseconds.
pub open spec fn bit_nanos(bit: bool) -> (u64, u64) {
    if bit {
        (T1H_NS, T1L_NS)
    } else {
        (T0H_NS, T0L_NS)
    }
}

/// How long the line is high, then low, for a bit, in nanoseconds.
pub fn bit_timing(bit: bool) -> (nanos: (u64, u64))
    ensures
        nanos == bit_nanos(bit),
{
    if bit {
        (T1H_NS, T1L_NS)
    } else {
        (T0H_NS, T0L_NS)
    }
}

/// The `Duration` that `Duration::from_nanos` makes of a number of
/// nanoseconds.
pub uninterp spec fn duration_from_nanos(nanos: u64) -> Duration;

/// `Duration::from_nanos` is taken to be a function of its argument: the
/// same number of nanoseconds always gives the same duration. Nothing else
/// is assumed of it.
pub assume_specification[ Duration::from_nanos ](nanos: u64) -> (duration: Duration)
    ensures
        duration == duration_from_nanos(nanos),
;

/// A duration of so many nanoseconds.
pub fn ns(nanos: u64) -> (duration: Duration)
    ensures
        duration == duration_from_nanos(nanos),
{
    Duration::from_nanos(nanos)
}

} // verus!
