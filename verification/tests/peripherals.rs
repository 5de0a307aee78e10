use esp32_projects::color::{
    bit_timing, frame_bits, grb_word, ns, Color, Pixel, T0H_NS, T0L_NS, T1H_NS, T1L_NS,
};
use esp32_projects::command::{color_from_name, parse_command, parse_rgb, ColorParseError};
use esp32_projects::config::Config;
use esp32_projects::level::Level;
use esp32_projects::stepper::{
    get_next_state, get_pin_states, get_prev_state, plan_run, Direction, Sequencer, State,
    StepError,
};
use esp32_projects::text::{same_text, trim, white_space};
use esp32_projects::wifi::{choose_auth, find_access_point, AuthMethod, MissingName};
use rgb::RGB8;
use std::time::Duration;

const LOW: Level = Level::Low;
const HIGH: Level = Level::High;

#[test]
fn each_position_energises_one_wire() {
    assert_eq!(get_pin_states(State::State0), [LOW, LOW, LOW, LOW]);
    assert_eq!(get_pin_states(State::State1), [LOW, LOW, LOW, HIGH]);
    assert_eq!(get_pin_states(State::State2), [LOW, LOW, HIGH, LOW]);
    assert_eq!(get_pin_states(State::State3), [LOW, HIGH, LOW, LOW]);
    assert_eq!(get_pin_states(State::State4), [HIGH, LOW, LOW, LOW]);
}

#[test]
fn positions_follow_each_other_in_a_ring() {
    assert_eq!(get_next_state(State::State0), State::State1);
    assert_eq!(get_next_state(State::State1), State::State2);
    assert_eq!(get_next_state(State::State2), State::State3);
    assert_eq!(get_next_state(State::State3), State::State4);
    assert_eq!(get_next_state(State::State4), State::State1);
    assert_eq!(get_prev_state(State::State0), State::State4);
    assert_eq!(get_prev_state(State::State1), State::State4);
    assert_eq!(get_prev_state(State::State2), State::State1);
    assert_eq!(get_prev_state(State::State3), State::State2);
    assert_eq!(get_prev_state(State::State4), State::State3);
}

#[test]
fn a_step_back_undoes_a_step_forward() {
    for state in [State::State1, State::State2, State::State3, State::State4] {
        assert_eq!(get_prev_state(get_next_state(state)), state);
        assert_eq!(get_next_state(get_prev_state(state)), state);
    }
}

#[test]
fn the_sequencer_walks_the_ring() {
    let mut motor = Sequencer::new();
    assert_eq!(motor.state(), State::State0);
    assert_eq!(motor.direction(), Direction::Normal);
    assert_eq!(motor.step(), [LOW, LOW, LOW, HIGH]);
    assert_eq!(motor.step(), [LOW, LOW, HIGH, LOW]);
    assert_eq!(motor.step(), [LOW, HIGH, LOW, LOW]);
    assert_eq!(motor.step(), [HIGH, LOW, LOW, LOW]);
    assert_eq!(motor.step(), [LOW, LOW, LOW, HIGH]);
    assert_eq!(motor.state(), State::State1);
    motor.set_direction(Direction::Reverse);
    assert_eq!(motor.state(), State::State1);
    assert_eq!(motor.step(), [HIGH, LOW, LOW, LOW]);
    assert_eq!(motor.step(), [LOW, HIGH, LOW, LOW]);
    assert_eq!(motor.state(), State::State3);
    assert_eq!(motor.stop(), [LOW, LOW, LOW, LOW]);
    assert_eq!(motor.state(), State::State0);
    assert_eq!(motor.direction(), Direction::Reverse);
    assert_eq!(motor.step(), [HIGH, LOW, LOW, LOW]);
}

#[test]
fn a_paced_run_needs_a_timer() {
    assert!(matches!(plan_run(false, 10), Err(StepError)));
    assert!(matches!(plan_run(false, 0), Err(StepError)));
    assert!(matches!(plan_run(true, 10), Ok(10)));
    assert!(matches!(plan_run(true, 0), Ok(0)));
    assert!(matches!(plan_run(true, -5), Ok(0)));
    assert!(matches!(plan_run(true, i32::MAX), Ok(2147483647)));
    assert!(matches!(plan_run(true, i32::MIN), Ok(0)));
}

#[test]
fn named_colours_have_their_components() {
    let table = [
        (Color::Red, (0xff, 0x00, 0x00)),
        (Color::Green, (0x00, 0xff, 0x00)),
        (Color::Blue, (0x00, 0x00, 0xff)),
        (Color::Yellow, (0xff, 0xff, 0x00)),
        (Color::Cyan, (0x00, 0xff, 0xff)),
        (Color::Magenta, (0xff, 0x00, 0xff)),
        (Color::White, (0xff, 0xff, 0xff)),
        (Color::Off, (0x00, 0x00, 0x00)),
        (Color::Orange, (0xff, 0x32, 0x00)),
        (Color::Purple, (0xc8, 0x00, 0xff)),
        (Color::Pink, (0xc7, 0x15, 0x85)),
        (Color::Custom(1, 2, 3), (1, 2, 3)),
    ];
    for (color, (r, g, b)) in table {
        assert_eq!(Pixel::from(color), Pixel { r, g, b });
        assert_eq!(RGB8::from(color), RGB8::new(r, g, b));
    }
}

#[test]
fn a_colour_converts_into_a_pixel_of_the_rgb_crate() {
    let pink = RGB8::from(Color::Pink);
    assert_eq!((pink.r, pink.g, pink.b), (0xc7, 0x15, 0x85));
    let custom = RGB8::from(Color::Custom(1, 2, 3));
    assert_eq!((custom.r, custom.g, custom.b), (1, 2, 3));
}

#[test]
fn the_wire_order_is_green_red_blue() {
    assert_eq!(grb_word(Pixel { r: 0x12, g: 0x34, b: 0x56 }), 0x0034_1256);
    assert_eq!(grb_word(Pixel { r: 0xff, g: 0, b: 0 }), 0x0000_ff00);
    assert_eq!(grb_word(Pixel { r: 0, g: 0xff, b: 0 }), 0x00ff_0000);
    assert_eq!(grb_word(Pixel { r: 0, g: 0, b: 0xff }), 0x0000_00ff);
    assert_eq!(grb_word(Pixel::from(Color::Pink)), 0x0015_c785);
}

#[test]
fn a_pixel_is_sent_most_significant_bit_first() {
    let bits = frame_bits(Pixel { r: 0x01, g: 0x80, b: 0xA5 });
    let mut expected = [false; 24];
    expected[0] = true; // green, bit 7
    expected[15] = true; // red, bit 0
    for slot in [16, 18, 21, 23] {
        expected[slot] = true; // blue, 1010 0101
    }
    assert_eq!(bits, expected);
    assert_eq!(frame_bits(Pixel::from(Color::White)), [true; 24]);
    assert_eq!(frame_bits(Pixel::from(Color::Off)), [false; 24]);
    let red = frame_bits(Pixel::from(Color::Red));
    for (slot, bit) in red.iter().enumerate() {
        assert_eq!(*bit, (8..16).contains(&slot));
    }
}

#[test]
fn a_one_is_a_long_high_period() {
    assert_eq!(bit_timing(false), (350, 800));
    assert_eq!(bit_timing(true), (700, 600));
    assert_eq!((T0H_NS, T0L_NS, T1H_NS, T1L_NS), (350, 800, 700, 600));
}

#[test]
fn ns_counts_nanoseconds() {
    assert_eq!(ns(350), Duration::from_nanos(350));
    assert_eq!(ns(350).as_nanos(), 350);
    assert_eq!(ns(0), Duration::ZERO);
    assert_eq!(ns(1_000_000_000), Duration::from_secs(1));
    assert_eq!(ns(u64::MAX).as_nanos(), u128::from(u64::MAX));
}

#[test]
fn colours_are_known_by_name() {
    assert!(matches!(color_from_name("red"), Some(Color::Red)));
    assert!(matches!(color_from_name("orange"), Some(Color::Orange)));
    assert!(matches!(color_from_name("yellow"), Some(Color::Yellow)));
    assert!(matches!(color_from_name("green"), Some(Color::Green)));
    assert!(matches!(color_from_name("cyan"), Some(Color::Cyan)));
    assert!(matches!(color_from_name("blue"), Some(Color::Blue)));
    assert!(matches!(color_from_name("magenta"), Some(Color::Magenta)));
    assert!(matches!(color_from_name("purple"), Some(Color::Purple)));
    assert!(matches!(color_from_name("pink"), Some(Color::Pink)));
    assert!(matches!(color_from_name("white"), Some(Color::White)));
    assert!(matches!(color_from_name("off"), Some(Color::Off)));
    assert!(color_from_name("Red").is_none());
    assert!(color_from_name("red ").is_none());
    assert!(color_from_name("re").is_none());
    assert!(color_from_name("").is_none());
    assert!(color_from_name("violet").is_none());
}

#[test]
fn three_numbers_are_a_colour() {
    assert!(matches!(parse_rgb("1,2,3"), Ok(Color::Custom(1, 2, 3))));
    assert!(matches!(parse_rgb("0,0,0"), Ok(Color::Custom(0, 0, 0))));
    assert!(matches!(parse_rgb("255,255,255"), Ok(Color::Custom(255, 255, 255))));
    assert!(matches!(parse_rgb("+1,02,0000000000255"), Ok(Color::Custom(1, 2, 255))));
    // what follows the third number is checked and not used
    assert!(matches!(parse_rgb("1,2,3,4"), Ok(Color::Custom(1, 2, 3))));
}

#[test]
fn anything_but_a_number_is_an_invalid_component() {
    let invalid = [
        "256,0,0", "0,0,1000", "1,2,x", "x", "", ",", "1,,3", "1,2,3,", ",1,2,3", "1, 2,3",
        " 1,2,3", "-1,2,3", "+,2,3", "++1,2,3", "1+,2,3", "1.0,2,3", "0x10,2,3", "1,2,3,4000",
        "1,2,\u{663}", "1;2;3",
    ];
    for text in invalid {
        assert!(
            matches!(parse_rgb(text), Err(ColorParseError::InvalidComponent)),
            "{:?}",
            text
        );
    }
}

#[test]
fn fewer_than_three_numbers_are_a_missing_component() {
    for text in ["1", "1,2", "+0", "255,255"] {
        assert!(
            matches!(parse_rgb(text), Err(ColorParseError::MissingComponent)),
            "{:?}",
            text
        );
    }
}

#[test]
fn parse_rgb_agrees_with_the_standard_integer_parser() {
    let fields = [
        "0", "7", "42", "255", "256", "300", "999", "+5", "+255", "+256", "-5", "", "+", "a",
        "1a", "a1", " 1", "1 ", "00", "007", "0255", "00000256", "1_0", "٣",
    ];
    for red in fields {
        for green in ["9", "x"] {
            let text = format!("{},{},3", red, green);
            let expected = match (red.parse::<u8>(), green.parse::<u8>()) {
                (Ok(red), Ok(green)) => Some((red, green)),
                _ => None,
            };
            match (parse_rgb(&text), expected) {
                (Ok(Color::Custom(r, g, 3)), Some((red, green))) => {
                    assert_eq!((r, g), (red, green))
                }
                (Err(ColorParseError::InvalidComponent), None) => {}
                (got, _) => panic!("{:?} gave {:?}", text, got),
            }
        }
    }
}

#[test]
fn a_command_is_a_name_or_three_numbers() {
    assert!(matches!(parse_command("red\n"), Some(Color::Red)));
    assert!(matches!(parse_command("  off \r\n"), Some(Color::Off)));
    assert!(matches!(parse_command("\tpink"), Some(Color::Pink)));
    assert!(matches!(parse_command("10,20,30\n"), Some(Color::Custom(10, 20, 30))));
    assert!(matches!(parse_command("\u{3000}1,2,3\u{a0}"), Some(Color::Custom(1, 2, 3))));
    assert!(parse_command("\n").is_none());
    assert!(parse_command("").is_none());
    assert!(parse_command("reddish\n").is_none());
    assert!(parse_command("r e d\n").is_none());
    assert!(parse_command("10,20\n").is_none());
    assert!(parse_command("10, 20, 30\n").is_none());
    assert!(parse_command("RED\n").is_none());
}

#[test]
fn white_space_is_what_unicode_says() {
    for code in 0..=0x10ffffu32 {
        if let Some(c) = char::from_u32(code) {
            assert_eq!(white_space(c), c.is_whitespace(), "U+{:04X}", code);
        }
    }
}

#[test]
fn trim_agrees_with_the_standard_trim() {
    let texts = [
        "", " ", "   ", "a", " a", "a ", " a ", "\t a b \n", "\r\n", "red\r\n", "  1,2,3  ",
        "\u{a0}x\u{3000}", "\u{2003}\u{2029}é ü\u{205f}", "a\u{85}", "\u{1680}\u{200a}",
        "\u{200b}a\u{200b}", "é", " 日本語 ", "\u{feff} a",
    ];
    for text in texts {
        assert_eq!(trim(text), text.trim(), "{:?}", text);
    }
}

#[test]
fn same_text_compares_character_by_character() {
    assert!(same_text("", ""));
    assert!(same_text("red", "red"));
    assert!(same_text("日本語", "日本語"));
    assert!(!same_text("red", "reD"));
    assert!(!same_text("red", "re"));
    assert!(!same_text("re", "red"));
    assert!(!same_text("", " "));
    assert!(!same_text("é", "e\u{301}"));
}

#[test]
fn the_default_network_is_the_open_guest_network() {
    let config = Config::default();
    assert_eq!(config.wifi_ssid, "Wokwi-GUEST");
    assert_eq!(config.wifi_psk, "");
}

#[test]
fn a_network_needs_a_name() {
    assert_eq!(choose_auth("", ""), Err(MissingName));
    assert_eq!(choose_auth("", "secret"), Err(MissingName));
    assert_eq!(choose_auth("home", ""), Ok(AuthMethod::Open));
    assert_eq!(choose_auth("home", "secret"), Ok(AuthMethod::WPA2Personal));
    assert_eq!(choose_auth("Wokwi-GUEST", ""), Ok(AuthMethod::Open));
}

#[test]
fn the_first_access_point_of_that_name_is_chosen() {
    let scanned = ["cafe", "home", "office", "home"];
    assert_eq!(find_access_point(&scanned, "home"), Some(1));
    assert_eq!(find_access_point(&scanned, "cafe"), Some(0));
    assert_eq!(find_access_point(&scanned, "office"), Some(2));
    assert_eq!(find_access_point(&scanned, "Home"), None);
    assert_eq!(find_access_point(&scanned, ""), None);
    assert_eq!(find_access_point(&[], "home"), None);
}
