use esp32_projects::error::{decimal, DhtError};
use esp32_projects::frame::{calculate_checksum, pack_bytes, verify_checksum, Pulse};
use esp32_projects::reading::Reading;
use esp32_projects::variant::{
    decode, dht11_parse_data, dht22_parse_data, interpret, Variant,
};

fn pulses_for(bytes: [u8; 5]) -> [Pulse; 40] {
    let mut pulses = [Pulse { lo: 50, hi: 26 }; 40];
    for (index, pulse) in pulses.iter_mut().enumerate() {
        let byte = bytes[index / 8];
        if byte & (0x80 >> (index % 8)) != 0 {
            pulse.hi = 70;
        }
    }
    pulses
}

fn read_bytes(variant: Variant, bytes: [u8; 5]) -> Reading {
    match interpret::<()>(variant, &bytes) {
        Ok(reading) => reading,
        Err(error) => panic!("no reading: {:?}", error),
    }
}

#[test]
fn checksum_is_the_low_byte_of_the_payload_sum() {
    assert_eq!(calculate_checksum(&[60, 0, 25, 0, 0]), 85);
    assert_eq!(calculate_checksum(&[0x02, 0x8C, 0x01, 0x05, 0xff]), 0x94);
    assert_eq!(calculate_checksum(&[255, 255, 255, 255, 0]), 252);
    assert_eq!(calculate_checksum(&[200, 100, 0, 0, 0]), 44);
    assert_eq!(calculate_checksum(&[0, 0, 0, 0, 7]), 0);
}

#[test]
fn matching_checksum_is_accepted() {
    let payloads: [[u8; 4]; 6] = [
        [0, 0, 0, 0],
        [60, 0, 25, 0],
        [0x02, 0x8C, 0x01, 0x05],
        [255, 255, 255, 255],
        [128, 128, 0, 0],
        [1, 2, 3, 250],
    ];
    for payload in payloads {
        let sum = payload.iter().fold(0u32, |sum, byte| sum + u32::from(*byte)) % 256;
        let bytes = [payload[0], payload[1], payload[2], payload[3], sum as u8];
        assert!(matches!(verify_checksum::<()>(&bytes), Ok(())));
    }
}

#[test]
fn wrong_checksum_is_rejected_with_both_values() {
    for sent in 0..=255u8 {
        let bytes = [60, 0, 25, 0, sent];
        match verify_checksum::<()>(&bytes) {
            Ok(()) => assert_eq!(sent, 85),
            Err(DhtError::ChecksumMismatch(expected, calculated)) => {
                assert_ne!(sent, 85);
                assert_eq!(expected, sent);
                assert_eq!(calculated, 85);
            }
            Err(other) => panic!("unexpected error {:?}", other),
        }
    }
}

#[test]
fn checksum_mismatch_wins_over_everything_else() {
    // a humidity of 150 % would be invalid data, but the checksum is judged first
    let outcome = interpret::<()>(Variant::Dht11, &[150, 0, 25, 0, 0]);
    assert!(matches!(outcome, Err(DhtError::ChecksumMismatch(0, 175))));
}

#[test]
fn dht11_decodes_whole_units() {
    let reading = read_bytes(Variant::Dht11, [60, 0, 25, 0, 85]);
    assert_eq!(reading.humidity_tenths(), 600);
    assert_eq!(reading.temperature_tenths(), 250);
}

#[test]
fn dht11_ignores_the_fraction_bytes() {
    let reading = read_bytes(Variant::Dht11, [60, 7, 25, 9, 101]);
    assert_eq!(reading.humidity_tenths(), 600);
    assert_eq!(reading.temperature_tenths(), 250);
    assert_eq!(dht11_parse_data(&[60, 7, 25, 9, 101]), (600, 250));
}

#[test]
fn dht22_decodes_tenths() {
    let reading = read_bytes(Variant::Dht22, [0x02, 0x8C, 0x01, 0x05, 0x94]);
    assert_eq!(reading.humidity_tenths(), 652);
    assert_eq!(reading.temperature_tenths(), 261);
}

#[test]
fn dht22_sign_bit_negates_the_magnitude() {
    assert_eq!(dht22_parse_data(&[0x02, 0x8C, 0x85, 0x0A, 0x1D]), (652, -1290));
    let reading = read_bytes(Variant::Dht22, [0x02, 0x8C, 0x85, 0x0A, 0x1D]);
    assert_eq!(reading.humidity_tenths(), 652);
    assert_eq!(reading.temperature_tenths(), -1290);
}

#[test]
fn dht22_temperature_is_sign_and_magnitude() {
    // 0xFF 0xFF in two's complement would be -1; here it is -(0x7FFF)
    assert_eq!(dht22_parse_data(&[0, 0, 0xFF, 0xFF, 0]).1, -32767);
    assert_eq!(dht22_parse_data(&[0, 0, 0x7F, 0xFF, 0]).1, 32767);
    assert_eq!(dht22_parse_data(&[0, 0, 0x80, 0x00, 0]).1, 0);
    assert_eq!(dht22_parse_data(&[0, 0, 0x80, 0x01, 0]).1, -1);
    assert_eq!(dht22_parse_data(&[0xFF, 0xFF, 0, 0, 0]).0, 65535);
}

#[test]
fn variant_selects_the_encoding() {
    let bytes = [0x02, 0x8C, 0x01, 0x05, 0x94];
    assert_eq!(Variant::Dht11.parse_data(&bytes), (20, 10));
    assert_eq!(Variant::Dht22.parse_data(&bytes), (652, 261));
}

#[test]
fn humidity_above_one_hundred_percent_is_invalid_data() {
    // 0x05DC = 1500 tenths = 150.0 %, with a checksum that holds
    let outcome = interpret::<()>(Variant::Dht22, &[0x05, 0xDC, 0x00, 0xC8, 0xA9]);
    assert!(matches!(outcome, Err(DhtError::InvalidData)));
    let outcome = interpret::<()>(Variant::Dht11, &[150, 0, 25, 0, 175]);
    assert!(matches!(outcome, Err(DhtError::InvalidData)));
    let outcome = interpret::<()>(Variant::Dht11, &[101, 0, 25, 0, 126]);
    assert!(matches!(outcome, Err(DhtError::InvalidData)));
    let outcome = interpret::<()>(Variant::Dht22, &[0x03, 0xE9, 0x00, 0x00, 0xEC]);
    assert!(matches!(outcome, Err(DhtError::InvalidData)));
}

#[test]
fn humidity_of_exactly_one_hundred_percent_is_accepted() {
    assert_eq!(read_bytes(Variant::Dht11, [100, 0, 25, 0, 125]).humidity_tenths(), 1000);
    assert_eq!(read_bytes(Variant::Dht22, [0x03, 0xE8, 0x00, 0x00, 0xEB]).humidity_tenths(), 1000);
    assert_eq!(read_bytes(Variant::Dht22, [0, 0, 0, 0, 0]).humidity_tenths(), 0);
}

#[test]
fn temperature_is_not_range_checked() {
    let reading = read_bytes(Variant::Dht22, [0x00, 0x00, 0xFF, 0xFF, 0xFE]);
    assert_eq!(reading.temperature_tenths(), -32767);
    let reading = read_bytes(Variant::Dht11, [0, 0, 255, 0, 255]);
    assert_eq!(reading.temperature_tenths(), 2550);
}

#[test]
fn fahrenheit_is_derived_from_celsius() {
    let warm = read_bytes(Variant::Dht11, [60, 0, 25, 0, 85]);
    assert_eq!(warm.fahrenheit_hundredths(), 7700);
    let mild = read_bytes(Variant::Dht22, [0x02, 0x8C, 0x01, 0x05, 0x94]);
    assert_eq!(mild.fahrenheit_hundredths(), 7898);
    let cold = read_bytes(Variant::Dht22, [0x02, 0x8C, 0x85, 0x0A, 0x1D]);
    assert_eq!(cold.fahrenheit_hundredths(), -20020);
    let freezing = read_bytes(Variant::Dht11, [0, 0, 0, 0, 0]);
    assert_eq!(freezing.fahrenheit_hundredths(), 3200);
    let minus_forty = read_bytes(Variant::Dht22, [0x00, 0x00, 0x81, 0x90, 0x11]);
    assert_eq!(minus_forty.temperature_tenths(), -400);
    assert_eq!(minus_forty.fahrenheit_hundredths(), -4000);
}

#[test]
fn a_longer_high_period_is_a_one() {
    assert!(Pulse { lo: 50, hi: 70 }.bit());
    assert!(Pulse { lo: 0, hi: 1 }.bit());
    assert!(!Pulse { lo: 50, hi: 26 }.bit());
    assert!(!Pulse { lo: 50, hi: 50 }.bit());
    assert!(!Pulse { lo: 0, hi: 0 }.bit());
    assert!(!Pulse { lo: 255, hi: 255 }.bit());
}

#[test]
fn bits_are_packed_most_significant_first() {
    let mut pulses = [Pulse { lo: 50, hi: 26 }; 40];
    pulses[0].hi = 70;
    assert_eq!(pack_bytes(&pulses), [0x80, 0, 0, 0, 0]);
    pulses[7].hi = 70;
    assert_eq!(pack_bytes(&pulses), [0x81, 0, 0, 0, 0]);
    pulses[8].hi = 70;
    pulses[39].hi = 70;
    assert_eq!(pack_bytes(&pulses), [0x81, 0x80, 0, 0, 0x01]);
    assert_eq!(pack_bytes(&[Pulse { lo: 1, hi: 2 }; 40]), [0xff; 5]);
    assert_eq!(pack_bytes(&[Pulse { lo: 2, hi: 2 }; 40]), [0; 5]);
}

#[test]
fn bytes_survive_the_wire() {
    let frames: [[u8; 5]; 4] = [
        [60, 0, 25, 0, 85],
        [0x02, 0x8C, 0x01, 0x05, 0x94],
        [0xA5, 0x5A, 0xFF, 0x00, 0x13],
        [1, 2, 4, 8, 16],
    ];
    for frame in frames {
        assert_eq!(pack_bytes(&pulses_for(frame)), frame);
    }
}

#[test]
fn pulses_decode_to_a_reading() {
    let outcome = decode::<()>(Variant::Dht22, &pulses_for([0x02, 0x8C, 0x01, 0x05, 0x94]));
    let reading = outcome.expect("a reading");
    assert_eq!(reading.humidity_tenths(), 652);
    assert_eq!(reading.temperature_tenths(), 261);
    let outcome = decode::<()>(Variant::Dht11, &pulses_for([60, 0, 25, 0, 86]));
    assert!(matches!(outcome, Err(DhtError::ChecksumMismatch(86, 85))));
}

#[test]
fn pin_errors_convert_into_the_error_type() {
    let error: DhtError<&str> = DhtError::from("line stuck");
    assert!(matches!(error, DhtError::PinError("line stuck")));
    let error: DhtError<u8> = 7u8.into();
    assert!(matches!(error, DhtError::PinError(7)));
}

#[test]
fn errors_describe_themselves() {
    assert_eq!(DhtError::<u8>::NotPresent.message(), "DHT device not found");
    assert_eq!(
        DhtError::<u8>::ChecksumMismatch(84, 85).message(),
        "Data read was corrupt (expected checksum 84, calculated 85)"
    );
    assert_eq!(
        DhtError::<u8>::ChecksumMismatch(0, 255).message(),
        "Data read was corrupt (expected checksum 0, calculated 255)"
    );
    assert_eq!(DhtError::<u8>::InvalidData.message(), "Received data is out of range");
    assert_eq!(DhtError::<u8>::Timeout.message(), "Timed out waiting for a read");
    assert_eq!(DhtError::PinError("stuck").message(), "HAL pin error: \"stuck\"");
    assert_eq!(DhtError::PinError(7u8).message(), "HAL pin error: 7");
}

#[test]
fn decimal_writes_every_byte() {
    for value in 0..=255u8 {
        assert_eq!(decimal(value), value.to_string());
    }
}
