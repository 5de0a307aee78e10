//! The value a successful sensor read produces.

use vstd::prelude::*;

verus! {

/// Largest humidity a reading can carry, in tenths of a percent (100.0 %).
pub const MAX_HUMIDITY_TENTHS: u16 = 1000;

/// A sensor reading.
///
/// Both quantities are kept in fixed point, as whole tenths of their unit,
/// which is the resolution of the finer of the two sensor families. A reading
/// always carries a humidity between 0.0 % and 100.0 %.
#[derive(Debug, Clone, Copy)]
pub struct Reading {
    humidity_tenths: u16,
    temperature_tenths: i16,
}

impl Reading {
    #[verifier::type_invariant]
    spec fn in_range(self) -> bool {
        self.humidity_tenths <= MAX_HUMIDITY_TENTHS
    }

    /// The reading with the given humidity and temperature, both in tenths.
    pub closed spec fn from_tenths(humidity_tenths: u16, temperature_tenths: i16) -> Reading {
        Reading { humidity_tenths, temperature_tenths }
    }

    pub closed spec fn spec_humidity_tenths(&self) -> u16 {
        self.humidity_tenths
    }

    pub closed spec fn spec_temperature_tenths(&self) -> i16 {
        self.temperature_tenths
    }

    /// Degrees Fahrenheit, in hundredths: `F = C * 1.8 + 32`, which with `C` in
    /// tenths is `tenths * 18 + 3200` hundredths, with nothing rounded.
    pub open spec fn spec_fahrenheit_hundredths(&self) -> i32 {
        (self.spec_temperature_tenths() * 18 + 3200) as i32
    }

    /// A reading is determined by its two quantities.
    pub broadcast proof fn lemma_from_tenths(humidity_tenths: u16, temperature_tenths: i16)
        ensures
            (#[trigger] Reading::from_tenths(
                humidity_tenths,
                temperature_tenths,
            )).spec_humidity_tenths() == humidity_tenths,
            Reading::from_tenths(humidity_tenths, temperature_tenths).spec_temperature_tenths()
                == temperature_tenths,
    {
    }

    /// Two readings with the same humidity and temperature are the same reading.
    pub proof fn lemma_extensional(a: Reading, b: Reading)
        requires
            a.spec_humidity_tenths() == b.spec_humidity_tenths(),
            a.spec_temperature_tenths() == b.spec_temperature_tenths(),
        ensures
            a == b,
    {
    }

    /// Builds a reading from quantities that have already been validated.
    pub(crate) fn new(humidity_tenths: u16, temperature_tenths: i16) -> (reading: Reading)
        requires
            humidity_tenths <= MAX_HUMIDITY_TENTHS,
        ensures
            reading == Reading::from_tenths(humidity_tenths, temperature_tenths),
    {
        Reading { humidity_tenths, temperature_tenths }
    }

    /// Relative humidity in tenths of a percent, from 0 (0.0 %) to 1000 (100.0 %).
    #[verifier::when_used_as_spec(spec_humidity_tenths)]
    pub fn humidity_tenths(&self) -> (tenths: u16)
        ensures
            tenths == self.spec_humidity_tenths(),
            tenths <= MAX_HUMIDITY_TENTHS,
    {
        proof {
            use_type_invariant(self);
        }
        self.humidity_tenths
    }

    /// Temperature in tenths of a degree Celsius.
    #[verifier::when_used_as_spec(spec_temperature_tenths)]
    pub fn temperature_tenths(&self) -> (tenths: i16)
        ensures
            tenths == self.spec_temperature_tenths(),
    {
        self.temperature_tenths
    }

    /// Temperature in hundredths of a degree Fahrenheit.
    #[verifier::when_used_as_spec(spec_fahrenheit_hundredths)]
    pub fn fahrenheit_hundredths(&self) -> (hundredths: i32)
        ensures
            hundredths == self.spec_fahrenheit_hundredths(),
            hundredths == self.spec_temperature_tenths() * 18 + 3200,
    {
        let tenths: i32 = self.temperature_tenths as i32;
        tenths * 18 + 3200
    }
}

} // verus!
