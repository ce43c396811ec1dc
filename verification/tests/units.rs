//! Component-level checks: framing, parsing, number text, pulse
//! recognition, angle scaling, error text and the feeder state machine.

use pnpfeeder::error::Error;
use pnpfeeder::feeder::Feeder;
use pnpfeeder::framer::CharAssembler;
use pnpfeeder::framer::LineReader;
use pnpfeeder::gcode::parse_line;
use pnpfeeder::gcode::ParseError;
use pnpfeeder::gcode::Word;
use pnpfeeder::input::SimInput;
use pnpfeeder::pulse::FeedbackInputRecognizer;
use pnpfeeder::servo::PwmLimits;
use pnpfeeder::servo::SimServo;
use pnpfeeder::store::ConfigStore;
use pnpfeeder::store::MemConfigStore;
use pnpfeeder::text::fmt_value;
use pnpfeeder::value::Value;

fn limits() -> PwmLimits {
    PwmLimits {
        zero: Value::from_raw(32125747),
        one_eighty: Value::from_raw(64251494),
    }
}

#[test]
fn char_assembler_passes_ascii_through() {
    let mut a = CharAssembler::new();
    assert_eq!(a.handle_byte(b'M'), Some('M'));
    assert_eq!(a.handle_byte(b'6'), Some('6'));
}

#[test]
fn char_assembler_buffers_multi_byte_sequences() {
    let mut a = CharAssembler::new();
    // A two-byte lead buffers until its sequence is complete; the
    // completed bytes decode as UTF-8.
    assert_eq!(a.handle_byte(0xC3), None);
    assert_eq!(a.handle_byte(0xA9), Some('\u{E9}'));
    // A three-byte sequence likewise.
    assert_eq!(a.handle_byte(0xE2), None);
    assert_eq!(a.handle_byte(0x82), None);
    assert_eq!(a.handle_byte(0xAC), Some('\u{20AC}'));
}

#[test]
fn char_assembler_drops_invalid_lead_bytes() {
    let mut a = CharAssembler::new();
    assert_eq!(a.handle_byte(0xFF), None);
    assert_eq!(a.handle_byte(0x80), None);
    // The assembler recovers at once.
    assert_eq!(a.handle_byte(b'A'), Some('A'));
}

#[test]
fn line_reader_frames_lines() {
    let mut r = LineReader::<64>::new();
    for b in b"M600 N1" {
        assert_eq!(r.handle_byte(*b).unwrap(), None);
    }
    assert_eq!(r.handle_byte(b'\n').unwrap().unwrap(), "M600 N1");
    for b in b"M2" {
        r.handle_byte(*b).unwrap();
    }
    assert_eq!(r.handle_byte(b'\r').unwrap().unwrap(), "M2");
}

#[test]
fn line_reader_reports_overflow_once_per_episode() {
    let mut r = LineReader::<8>::new();
    for b in b"12345678" {
        assert_eq!(r.handle_byte(*b).unwrap(), None);
    }
    // The ninth character does not fit: the line is poisoned.
    assert_eq!(r.handle_byte(b'9').unwrap(), None);
    assert_eq!(r.handle_byte(b'x').unwrap(), None);
    assert_eq!(r.handle_byte(b'\n'), Err(Error::InputBufferOverflow));
    // Framing resumes cleanly.
    assert_eq!(r.handle_byte(b'a').unwrap(), None);
    assert_eq!(r.handle_byte(b'\n').unwrap().unwrap(), "a");
}

#[test]
fn parse_line_reads_words() {
    let line = parse_line("M620 N1 A122 C22").unwrap();
    assert_eq!(line.command.unwrap(), Word { letter: 'M', value: Value::from_int(620) });
    assert_eq!(line.arguments.len(), 3);
    assert_eq!(line.arguments[0], Word { letter: 'N', value: Value::from_int(1) });
    assert_eq!(line.arguments[1], Word { letter: 'A', value: Value::from_int(122) });
    assert_eq!(line.arguments[2], Word { letter: 'C', value: Value::from_int(22) });
}

#[test]
fn parse_line_reads_fractions_and_signs() {
    let line = parse_line("M603 A120.5 B-1.5").unwrap();
    assert_eq!(line.arguments[0].value, Value::from_raw(120 * 65536 + 32768));
    assert_eq!(line.arguments[1].value, Value::from_raw(-(65536 + 32768)));
}

#[test]
fn parse_line_rounds_half_up_on_the_magnitude() {
    // 490.2 * 65536 = 32125747.2, so the nearest representable raw
    // value is 32125747.
    let line = parse_line("M620 V490.2").unwrap();
    assert_eq!(line.arguments[0].value, Value::from_raw(32125747));
}

#[test]
fn parse_line_accepts_blank_lines_as_no_command() {
    assert!(parse_line("").unwrap().command.is_none());
    assert!(parse_line("   ").unwrap().command.is_none());
}

#[test]
fn parse_line_rejects_malformed_words() {
    assert_eq!(parse_line("M").unwrap_err(), ParseError::Syntax);
    assert_eq!(parse_line("600").unwrap_err(), ParseError::Syntax);
    assert_eq!(parse_line("m600").unwrap_err(), ParseError::Syntax);
    assert_eq!(parse_line("M6.").unwrap_err(), ParseError::Syntax);
    assert_eq!(parse_line("M40000").unwrap_err(), ParseError::Overflow);
}

#[test]
fn value_text_is_shortest_and_reads_back() {
    assert_eq!(fmt_value(Value::from_int(0)).as_str(), "0");
    assert_eq!(fmt_value(Value::from_int(135)).as_str(), "135");
    assert_eq!(fmt_value(Value::from_raw(7045120)).as_str(), "107.5");
    assert_eq!(fmt_value(Value::from_raw(32125747)).as_str(), "490.2");
    assert_eq!(fmt_value(Value::from_raw(64251494)).as_str(), "980.4");
    assert_eq!(fmt_value(Value::from_raw(-98304)).as_str(), "-1.5");
    // Reading the text back gives exactly the raw value formatted.
    let text = fmt_value(Value::from_raw(32125747));
    let line = parse_line(&format!("V{}", text)).unwrap();
    assert_eq!(line.command.unwrap().value, Value::from_raw(32125747));
}

#[test]
fn pulse_recognizer_window() {
    let mut r = FeedbackInputRecognizer::new();
    // A release 250 ms after the press qualifies.
    assert!(!r.update(false, 1_000_000));
    assert!(r.update(true, 1_250_000));
    // A release 600 ms after the press does not.
    assert!(!r.update(false, 2_000_000));
    assert!(!r.update(true, 2_600_000));
    // Nor does one only 10 ms after the press.
    assert!(!r.update(false, 3_000_000));
    assert!(!r.update(true, 3_010_000));
    // Nor a transition that follows a release.
    assert!(!r.update(false, 4_000_000));
    // And nothing fires right after a reset.
    r.reset();
    assert!(!r.update(true, 4_250_000));
    // A repeated active reading within the window is not a release.
    assert!(!r.update(false, 5_000_000));
    assert!(!r.update(false, 5_250_000));
}

#[test]
fn feedback_pulse_feeds_exactly_once() {
    let mut f = Feeder::new(SimServo::new(limits()), SimInput::new(false));
    f.enable(true);
    f.handle_feedback_event(1_000_000);
    f.feedback_mut().set_level(true);
    f.handle_feedback_event(1_250_000);
    // One qualifying pulse, one half-advance of the default two
    // millimetres.
    assert_eq!(f.servo_ref().recorded().len(), 1);
    // The recognizer was reset by the feed, so the next edge cannot
    // fire again.
    f.feedback_mut().set_level(false);
    f.handle_feedback_event(1_300_000);
    assert_eq!(f.servo_ref().recorded().len(), 1);
}

#[test]
fn disabled_feeder_refuses_motion() {
    let mut f = Feeder::new(SimServo::new(limits()), SimInput::new(false));
    assert_eq!(f.set_servo_angle(Value::from_int(90)), Err(Error::FeederDisabled));
    assert_eq!(f.advance(Some(Value::from_int(2)), false), Err(Error::FeederDisabled));
    assert!(f.servo_ref().recorded().is_empty());
}

#[test]
fn feedback_gate_blocks_and_overrides_open() {
    let mut f = Feeder::new(SimServo::new(limits()), SimInput::new(true));
    f.enable(true);
    assert_eq!(f.advance(Some(Value::from_int(2)), false), Err(Error::FeederNotReady));
    assert!(f.servo_ref().recorded().is_empty());
    assert_eq!(f.advance(Some(Value::from_int(2)), true), Ok(()));
    assert_eq!(f.servo_ref().recorded().len(), 1);
}

#[test]
fn config_set_then_get_round_trips() {
    let mut f = Feeder::new(SimServo::new(limits()), SimInput::new(false));
    let mut cfg = f.get_config();
    cfg.advanced_angle = Value::from_int(111);
    cfg.half_advanced_angle = Value::from_raw(55 * 65536 + 32768);
    cfg.retract_angle = Value::from_int(7);
    cfg.feed_length = Value::from_int(4);
    cfg.settle_time = 42;
    cfg.ignore_feeback_pin = true;
    cfg.always_retract = true;
    assert_eq!(f.set_config(cfg), Ok(()));
    assert_eq!(f.get_config(), cfg);
}

#[test]
fn scale_angle_interpolates_between_the_limits() {
    let l = limits();
    assert_eq!(l.scale_angle(Value::from_int(0)), Ok(l.zero));
    assert_eq!(l.scale_angle(Value::from_int(180)), Ok(l.one_eighty));
    let mid = l.scale_angle(Value::from_int(90)).unwrap();
    assert!(l.zero.raw < mid.raw && mid.raw < l.one_eighty.raw);
    assert_eq!(l.scale_angle(Value::from_int(181)), Err(Error::AngleOutOfRange));
    assert_eq!(l.scale_angle(Value::from_int(-1)), Err(Error::AngleOutOfRange));
}

#[test]
fn mem_store_returns_default_until_written() {
    let default = Feeder::new(SimServo::new(limits()), SimInput::new(false)).get_config();
    let mut store = MemConfigStore::new(default);
    assert_eq!(store.get(3), Ok(default));
    let mut changed = default;
    changed.settle_time = 9;
    store.set(3, &changed).unwrap();
    assert_eq!(store.get(3), Ok(changed));
    assert_eq!(store.get(0), Ok(default));
}

#[test]
fn error_messages_match_the_protocol() {
    assert_eq!(Error::Disconnected.message().as_str(), "disconnected");
    assert_eq!(Error::InputBufferOverflow.message().as_str(), "input buffer overflow");
    assert_eq!(Error::Io.message().as_str(), "IO error");
    assert_eq!(Error::AngleOutOfRange.message().as_str(), "angle out of range");
    assert_eq!(Error::PwmValueOutOfRange.message().as_str(), "pwm value out of range");
    assert_eq!(
        Error::UnsupportedCommand(Word { letter: 'M', value: Value::from_int(999) })
            .message()
            .as_str(),
        "unsupported command M999"
    );
    assert_eq!(Error::NoIndex.message().as_str(), "no index specified");
    assert_eq!(Error::InvalidIndex(7).message().as_str(), "no feeder 7");
    assert_eq!(Error::InvalidArgument('Q').message().as_str(), "invalid argument type Q");
    assert_eq!(Error::FeederDisabled.message().as_str(), "feeder disabled");
    assert_eq!(Error::FixedPointError.message().as_str(), "fixed point error");
    assert_eq!(
        Error::InvalidFeederCommandResponse.message().as_str(),
        "invalid feeder command respons"
    );
    assert_eq!(Error::FeederNotReady.message().as_str(), "feeder not ready");
    assert_eq!(Error::ConfigSetError.message().as_str(), "can't set config");
    assert_eq!(Error::ConfigGetError.message().as_str(), "can't get config");
    assert_eq!(
        Error::InvalidFeedLength(Value::from_int(3)).message().as_str(),
        "invald feed length 3"
    );
}
