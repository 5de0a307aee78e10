//! The two sensor families and what their payload bytes mean.
//!
//! Both families send the same five bytes. They differ only in how the four
//! payload bytes encode humidity and temperature.

use crate::error::DhtError;
use crate::frame::{checksum, checksum_holds, frame_bytes, pack_bytes, verify_checksum, Pulse};
use crate::reading::{Reading, MAX_HUMIDITY_TENTHS};
use vstd::prelude::*;

verus! {

/// Which family of sensor is on the wire. It is chosen when the driver is
/// built and never changes afterwards.
#[derive(Debug, Clone, Copy, PartialEq, Eq, Structural)]
pub enum Variant {
    /// Whole percent and whole degrees: byte 0 is the humidity, byte 2 the
    /// temperature, and the fraction bytes 1 and 3 are not used.
    Dht11,
    /// Tenths, sixteen bits each: bytes 0 and 1 are the humidity, bytes 2 and
    /// 3 the temperature as sign and magnitude, the sign in the top bit of
    /// byte 2.
    Dht22,
}

/// Humidity of a DHT11 transmission, in tenths of a percent.
pub open spec fn dht11_humidity_tenths(bytes: Seq<u8>) -> int {
    bytes[0] * 10
}

/// Temperature of a DHT11 transmission, in tenths of a degree Celsius.
pub open spec fn dht11_temperature_tenths(bytes: Seq<u8>) -> int {
    bytes[2] * 10
}

/// Humidity of a DHT22 transmission, in tenths of a percent: bytes 0 and 1
/// as one big-endian number.
pub open spec fn dht22_humidity_tenths(bytes: Seq<u8>) -> int {
    bytes[0] * 256 + bytes[1]
}

/// Temperature of a DHT22 transmission, in tenths of a degree Celsius: the
/// low seven bits of byte 2 and all of byte 3 are the magnitude, and the top
/// bit of byte 2 makes it negative.
pub open spec fn dht22_temperature_tenths(bytes: Seq<u8>) -> int {
    let magnitude = (bytes[2] % 128) * 256 + bytes[3];
    if bytes[2] >= 128 {
        -magnitude
    } else {
        magnitude
    }
}

/// Humidity that a transmission states, in tenths of a percent.
pub open spec fn humidity_tenths(variant: Variant, bytes: Seq<u8>) -> int {
    match variant {
        Variant::Dht11 => dht11_humidity_tenths(bytes),
        Variant::Dht22 => dht22_humidity_tenths(bytes),
    }
}

/// Temperature that a transmission states, in tenths of a degree Celsius.
pub open spec fn temperature_tenths(variant: Variant, bytes: Seq<u8>) -> int {
    match variant {
        Variant::Dht11 => dht11_temperature_tenths(bytes),
        Variant::Dht22 => dht22_temperature_tenths(bytes),
    }
}

/// What a read that received `bytes` returns: the checksum is judged first,
/// then the humidity, and only a transmission that passes both becomes a
/// reading. The temperature is taken as sent.
pub open spec fn interpretation<HE>(variant: Variant, bytes: Seq<u8>) -> Result<
    Reading,
    DhtError<HE>,
> {
    if !checksum_holds(bytes) {
        Err(DhtError::ChecksumMismatch(bytes[4], checksum(bytes)))
    } else if humidity_tenths(variant, bytes) > MAX_HUMIDITY_TENTHS {
        Err(DhtError::InvalidData)
    } else {
        Ok(
            Reading::from_tenths(
                humidity_tenths(variant, bytes) as u16,
                temperature_tenths(variant, bytes) as i16,
            ),
        )
    }
}

/// What a read that measured the given forty pulse pairs returns: the
/// interpretation of the five bytes they spell out.
///
/// The definition is kept from the solver until it is asked for with
/// `reveal(decoded)`, so that reasoning about the course of a read does not
/// have to carry the forty bits along.
#[verifier::opaque]
pub open spec fn decoded<HE>(variant: Variant, pulses: Seq<Pulse>) -> Result<
    Reading,
    DhtError<HE>,
> {
    interpretation(variant, frame_bytes(pulses))
}

/// Reads the payload of a DHT11 transmission as (humidity, temperature),
/// both in tenths.
pub fn dht11_parse_data(buf: &[u8; 5]) -> (values: (u16, i16))
    ensures
        values.0 == dht11_humidity_tenths(buf@),
        values.1 == dht11_temperature_tenths(buf@),
{
    (buf[0] as u16 * 10, buf[2] as i16 * 10)
}

/// Reads the payload of a DHT22 transmission as (humidity, temperature),
/// both in tenths.
pub fn dht22_parse_data(buf: &[u8; 5]) -> (values: (u16, i16))
    ensures
        values.0 == dht22_humidity_tenths(buf@),
        values.1 == dht22_temperature_tenths(buf@),
{
    let humidity_high: u8 = buf[0];
    let humidity_low: u8 = buf[1];
    let humidity: u16 = ((humidity_high as u16) << 8) | (humidity_low as u16);
    assert(humidity == humidity_high * 256 + humidity_low) by (bit_vector)
        requires
            humidity == ((humidity_high as u16) << 8) | (humidity_low as u16),
    ;
    let signed_high: u8 = buf[2];
    let low: u8 = buf[3];
    // sign and magnitude, not two's complement: the sign bit is masked off
    // before the two bytes are joined
    let magnitude: u16 = (((signed_high & 0x7f) as u16) << 8) | (low as u16);
    assert(magnitude == (signed_high % 128) * 256 + low && magnitude <= 0x7fff) by (bit_vector)
        requires
            magnitude == (((signed_high & 0x7f) as u16) << 8) | (low as u16),
    ;
    let negative: bool = signed_high & 0x80 != 0;
    assert(negative == (signed_high >= 128)) by (bit_vector)
        requires
            negative == (signed_high & 0x80 != 0),
    ;
    let mut temperature: i16 = magnitude as i16;
    if negative {
        temperature = -temperature;
    }
    (humidity, temperature)
}

impl Variant {
    /// Reads the payload of a transmission the way this family encodes it,
    /// as (humidity, temperature), both in tenths.
    pub fn parse_data(&self, buf: &[u8; 5]) -> (values: (u16, i16))
        ensures
            values.0 == humidity_tenths(*self, buf@),
            values.1 == temperature_tenths(*self, buf@),
    {
        match self {
            Variant::Dht11 => dht11_parse_data(buf),
            Variant::Dht22 => dht22_parse_data(buf),
        }
    }
}

/// Turns five received bytes into a reading, or says why they are none.
///
/// A transmission whose checksum byte is wrong is rejected with both
/// checksums, whatever else it holds. One that adds up but states a humidity
/// above 100 % is rejected as invalid data. Every other transmission gives
/// the reading it states.
pub fn interpret<HE>(variant: Variant, bytes: &[u8; 5]) -> (outcome: Result<Reading, DhtError<HE>>)
    ensures
        outcome == interpretation::<HE>(variant, bytes@),
        !checksum_holds(bytes@) ==> outcome == Err::<Reading, DhtError<HE>>(
            DhtError::ChecksumMismatch(bytes@[4], checksum(bytes@)),
        ),
        checksum_holds(bytes@) && humidity_tenths(variant, bytes@) > MAX_HUMIDITY_TENTHS
            ==> outcome == Err::<Reading, DhtError<HE>>(DhtError::InvalidData),
        outcome matches Ok(reading) ==> {
            &&& checksum_holds(bytes@)
            &&& reading.humidity_tenths() == humidity_tenths(variant, bytes@)
            &&& reading.temperature_tenths() == temperature_tenths(variant, bytes@)
        },
        outcome is Ok <==> checksum_holds(bytes@) && humidity_tenths(variant, bytes@)
            <= MAX_HUMIDITY_TENTHS,
{
    broadcast use Reading::lemma_from_tenths;

    match verify_checksum::<HE>(bytes) {
        Err(mismatch) => { return Err(mismatch); },
        Ok(()) => {},
    }
    let (humidity, temperature) = variant.parse_data(bytes);
    if humidity <= MAX_HUMIDITY_TENTHS {
        Ok(Reading::new(humidity, temperature))
    } else {
        Err(DhtError::InvalidData)
    }
}

/// Decodes one complete transmission: reconstructs the bytes from the forty
/// pulse pairs and interprets them.
pub fn decode<HE>(variant: Variant, pulses: &[Pulse; 40]) -> (outcome: Result<
    Reading,
    DhtError<HE>,
>)
    ensures
        outcome == interpretation::<HE>(variant, frame_bytes(pulses@)),
        outcome == decoded::<HE>(variant, pulses@),
{
    reveal(decoded);
    let bytes: [u8; 5] = pack_bytes(pulses);
    interpret(variant, &bytes)
}

} // verus!
