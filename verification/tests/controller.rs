//! End-to-end scenarios: command lines in, servo motion and reply text
//! out, driven through the dispatcher exactly as the firmware would.

use pnpfeeder::client::FeederClient;
use pnpfeeder::dispatcher::GCodeEvent;
use pnpfeeder::dispatcher::GCodeHandler;
use pnpfeeder::feeder::Feeder;
use pnpfeeder::feeder::FeederConfig;
use pnpfeeder::gcode::parse_line;
use pnpfeeder::input::SimInput;
use pnpfeeder::servo::PwmLimits;
use pnpfeeder::servo::SimServo;
use pnpfeeder::sink::BufferSink;
use pnpfeeder::store::ConfigStore;
use pnpfeeder::store::MemConfigStore;
use pnpfeeder::value::Value;

type Handler = GCodeHandler<SimServo, SimInput, MemConfigStore, BufferSink>;

/// One full period is 9804 counts at 20 ms; one millisecond of pulse
/// width is 9804 / 20 counts, the zero-degree endpoint, and two
/// milliseconds the 180-degree endpoint.
fn sim_limits() -> PwmLimits {
    PwmLimits {
        zero: Value::from_raw(32125747),
        one_eighty: Value::from_raw(64251494),
    }
}

/// What the configuration store hands out for feeders never written.
fn store_default() -> FeederConfig {
    FeederConfig {
        advanced_angle: Value::from_int(135),
        half_advanced_angle: Value::from_raw(7045120),
        retract_angle: Value::from_int(80),
        feed_length: Value::from_int(2),
        settle_time: 3,
        pwm_0: Value::from_raw(32125747),
        pwm_180: Value::from_raw(64251494),
        ignore_feeback_pin: false,
        always_retract: false,
    }
}

fn harness() -> Handler {
    let feeders = vec![
        FeederClient::new(Feeder::new(SimServo::new(sim_limits()), SimInput::new(false))),
        FeederClient::new(Feeder::new(SimServo::new(sim_limits()), SimInput::new(false))),
    ];
    let mut handler = GCodeHandler::new(
        feeders,
        BufferSink::new(),
        MemConfigStore::new(store_default()),
    );
    handler.initialize_feeder_configs();
    handler
}

fn send(handler: &mut Handler, text: &str) {
    handler.handle_event(GCodeEvent::Line(parse_line(text).unwrap()));
}

fn moves(handler: &Handler, index: usize) -> Vec<Value> {
    handler.feeders[index].feeder.servo_ref().recorded().clone()
}

fn output(handler: &Handler) -> String {
    handler.output.contents().clone()
}

#[test]
fn test_harnes_exits_on_m999() {
    // Some hosts send M999 as a session marker; the controller knows no
    // such command, reports it, and processing simply goes on.
    let mut h = harness();
    send(&mut h, "M999");
    assert_eq!(output(&h), "error: unsupported command M999\n");
    send(&mut h, "M610 S1");
    assert_eq!(output(&h), "error: unsupported command M999\nok\n");
}

#[test]
fn feeder_doesnt_move_before_enabled() {
    let mut h = harness();
    send(&mut h, "M603 N1 A120.0");
    assert_eq!("error: feeder disabled\n", output(&h));
    assert!(moves(&h, 0).is_empty());
    assert!(moves(&h, 1).is_empty());
}

#[test]
fn m603_moves_correct_servo() {
    let mut h = harness();
    send(&mut h, "M610 S1");
    send(&mut h, "M603 N1 A120.0");
    assert!(moves(&h, 0).is_empty());
    assert_eq!(moves(&h, 1), vec![Value::from_int(120)]);
}

#[test]
fn m600_advances_feeder() {
    let mut h = harness();
    send(&mut h, "M610 S1");
    send(&mut h, "M600 N1 F4");
    assert!(moves(&h, 0).is_empty());
    // Servo 1 should go to the advanced angle then the retract angle.
    assert_eq!(
        moves(&h, 1),
        vec![store_default().advanced_angle, store_default().retract_angle]
    );
}

#[test]
fn m620_changes_feeder_angles() {
    let mut h = harness();
    send(&mut h, "M610 S1");
    send(&mut h, "M620 N1 A122 C22");
    send(&mut h, "M600 N1 F4");
    assert!(moves(&h, 0).is_empty());
    assert_eq!(moves(&h, 1), vec![Value::from_int(122), Value::from_int(22)]);
}

#[test]
fn m620_updates_feeder_config_in_store() {
    let mut h = harness();
    send(&mut h, "M610 S1");
    send(&mut h, "M620 N1 A122 C22");
    send(&mut h, "M600 N1 F4");
    let stored = h.config_store.get(1).unwrap();
    let expected = FeederConfig {
        advanced_angle: Value::from_int(122),
        retract_angle: Value::from_int(22),
        ..store_default()
    };
    assert_eq!(stored, expected);
}

#[test]
fn m621_reflects_m620_changes() {
    let mut h = harness();
    send(&mut h, "M620 N1 A1 B2 C3 F4 U5 V6 W7 X1 Y0");
    send(&mut h, "M621 N1");
    assert_eq!(output(&h), "ok\nM620 N1 A1 B2 C3 F4 U5 V6 W7 X1 Y0\nok\n");
}

#[test]
fn feeders_disable_on_disconnect() {
    let mut h = harness();
    h.handle_event(GCodeEvent::Connect);
    send(&mut h, "M610 S1");
    send(&mut h, "M603 N1 A120.0");
    h.handle_event(GCodeEvent::Disconnect);
    h.handle_event(GCodeEvent::Connect);
    send(&mut h, "M603 N1 A90.0");
    // Servo 1 must not move to 90 after the disconnect.
    assert!(moves(&h, 0).is_empty());
    assert_eq!(moves(&h, 1), vec![Value::from_int(120)]);
}

#[test]
fn settings_output_on_connect() {
    let mut h = harness();
    h.handle_event(GCodeEvent::Connect);
    assert_eq!(
        output(&h),
        "saved settings:\nM620 N0 A135 B107.5 C80 F2 U3 V490.2 W980.4 X0 Y0\nM620 N1 A135 B107.5 C80 F2 U3 V490.2 W980.4 X0 Y0\nready\n"
    );
}

#[test]
fn advance_returns_error_on_high_feedback() {
    let mut h = harness();
    h.feeders[0].feeder.feedback_mut().set_level(true);
    send(&mut h, "M610 S1");
    send(&mut h, "M600 N0 F4");
    assert_eq!(output(&h), "ok\nerror: feeder not ready\n");
}

#[test]
fn advance_respects_override_error_arg() {
    let mut h = harness();
    h.feeders[0].feeder.feedback_mut().set_level(true);
    send(&mut h, "M610 S1");
    send(&mut h, "M600 N0 F4 X1");
    assert_eq!(output(&h), "ok\nok\n");
}

#[test]
fn advance_respects_ignore_feedback_pin_config() {
    let mut h = harness();
    h.feeders[0].feeder.feedback_mut().set_level(true);
    send(&mut h, "M610 S1");
    send(&mut h, "M620 N0 X1");
    send(&mut h, "M600 N0 F4");
    assert_eq!(output(&h), "ok\nok\nok\n");
}

#[test]
fn feedback_pulse_half_advances_feeder() {
    let mut h = harness();
    // Start with the switch unpressed.
    h.feeders[0].feeder.feedback_mut().set_level(true);
    h.feeders[0].feedback_event(1_000_000);
    send(&mut h, "M610 S1");
    // Set to known angles.
    send(&mut h, "M620 N0 A122 C22");
    // Press the switch.
    h.feeders[0].feeder.feedback_mut().set_level(false);
    h.feeders[0].feedback_event(2_000_000);
    // Release it 250 milliseconds later.
    h.feeders[0].feeder.feedback_mut().set_level(true);
    h.feeders[0].feedback_event(2_000_000 + 250_000);
    assert_eq!(moves(&h, 0), vec![Value::from_raw(7045120)]);
    assert!(moves(&h, 1).is_empty());
}

#[test]
fn feeder_only_retracts_on_4mm_bondaries() {
    let mut h = harness();
    send(&mut h, "M610 S1");
    // Known angles, feedback pin ignored, and `always_retract` off.
    send(&mut h, "M620 N0 A50 B25 C0 X1 Y0");
    // Feeding by 2mm advances to the half angle and does not retract.
    send(&mut h, "M600 N0 F2");
    // Feeding by another 4mm advances to the full angle, retracts, and
    // advances to the half angle.
    send(&mut h, "M600 N0 F4");
    // Feeding by a final 2mm advances to the full angle and retracts.
    send(&mut h, "M600 N0 F2");
    assert_eq!(
        moves(&h, 0),
        vec![
            Value::from_int(25),
            Value::from_int(50),
            Value::from_int(0),
            Value::from_int(25),
            Value::from_int(50),
            Value::from_int(0),
        ]
    );
    assert!(moves(&h, 1).is_empty());
}

#[test]
fn always_retract_feeder_retracts_on_every_advance() {
    let mut h = harness();
    send(&mut h, "M610 S1");
    // Known angles, feedback pin ignored, and `always_retract` on.
    send(&mut h, "M620 N0 A50 B25 C0 X1 Y1");
    // Feeding by 2mm advances to the half angle and retracts.
    send(&mut h, "M600 N0 F2");
    // Feeding by 4mm advances to the full angle and retracts.
    send(&mut h, "M600 N0 F4");
    // Feeding by 6mm advances to the full angle, retracts, advances to
    // the half angle, and retracts.
    send(&mut h, "M600 N0 F6");
    assert_eq!(
        moves(&h, 0),
        vec![
            Value::from_int(25),
            Value::from_int(0),
            Value::from_int(50),
            Value::from_int(0),
            Value::from_int(50),
            Value::from_int(0),
            Value::from_int(25),
            Value::from_int(0),
        ]
    );
    assert!(moves(&h, 1).is_empty());
}

#[test]
fn invalid_feed_length_is_rejected_without_motion() {
    let mut h = harness();
    send(&mut h, "M610 S1");
    send(&mut h, "M600 N0 F3");
    assert_eq!(output(&h), "ok\nerror: invald feed length 3\n");
    assert!(moves(&h, 0).is_empty());
}

#[test]
fn unknown_argument_fails_whole_line() {
    let mut h = harness();
    send(&mut h, "M610 S1");
    send(&mut h, "M600 N0 Q4");
    assert_eq!(output(&h), "ok\nerror: invalid argument type Q\n");
    assert!(moves(&h, 0).is_empty());
}

#[test]
fn index_errors_are_reported() {
    let mut h = harness();
    send(&mut h, "M610 S1");
    send(&mut h, "M600 F4");
    send(&mut h, "M600 N7 F4");
    assert_eq!(
        output(&h),
        "ok\nerror: no index specified\nerror: no feeder 7\n"
    );
}

#[test]
fn line_without_command_is_a_no_op() {
    let mut h = harness();
    send(&mut h, "");
    send(&mut h, "   ");
    assert_eq!(output(&h), "");
}

#[test]
fn pwm_limit_rejection_keeps_old_config() {
    let mut h = harness();
    // 20000 counts exceed the one-period cap of the simulated servo.
    send(&mut h, "M620 N0 V20000");
    assert_eq!(output(&h), "error: pwm value out of range\n");
    send(&mut h, "M621 N0");
    assert_eq!(
        output(&h),
        "error: pwm value out of range\nM620 N0 A135 B107.5 C80 F2 U3 V490.2 W980.4 X0 Y0\nok\n"
    );
}
