//! The laws of the feeder controller, each proved from the contracts of
//! the functions it speaks about.

use vstd::prelude::*;

use crate::error::Error;
use crate::feeder::advance_post;
use crate::feeder::feedback_event_post;
use crate::feeder::plan_moves;
use crate::feeder::plan_offset;
use crate::feeder::Feeder;
use crate::feeder::FeederConfig;
use crate::feeder::RAW_2MM;
use crate::feeder::RAW_4MM;
use crate::input::Input;
use crate::pulse::spec_pulse;
use crate::pulse::MAX_PULSE_US;
use crate::pulse::MIN_PULSE_US;
use crate::servo::PwmLimits;
use crate::servo::Servo;
use crate::dispatcher::line_post;
use crate::dispatcher::m600_fold;
use crate::dispatcher::m600_post;
use crate::dispatcher::m610_fold;
use crate::dispatcher::m610_post;
use crate::dispatcher::m620_empty;
use crate::dispatcher::m620_fold;
use crate::dispatcher::m620_merge;
use crate::dispatcher::m620_post;
use crate::dispatcher::M620Args;
use crate::dispatcher::reply_of;
use crate::dispatcher::resolve_spec;
use crate::dispatcher::same_after_enable;
use crate::dispatcher::wrote;
use crate::dispatcher::GCodeHandler;
use crate::gcode::is_digit;
use crate::gcode::lemma_dec_str_pad_reads;
use crate::gcode::lemma_dec_str_reads;
use crate::gcode::lemma_digits_end_run;
use crate::gcode::number_raw;
use crate::gcode::parse_number;
use crate::gcode::Line;
use crate::gcode::ParseError;
use crate::gcode::Word;
use crate::sink::OutputSink;
use crate::store::ConfigStore;
use crate::text::dec_str;
use crate::text::dec_str_pad;
use crate::text::first_fit_k;
use crate::text::pow10;
use crate::text::round_dec;
use crate::text::round_raw;
use crate::text::spec_fmt_mag;
use crate::text::spec_fmt_value;
use crate::value::Value;
use vstd::arithmetic::div_mod::lemma_fundamental_div_mod;

verus! {

/// Disabled guard: a feed requested of a disabled feeder moves the
/// servo not at all, and — whenever the request gets past the feedback
/// gate with a positive feed length that divides into two-millimetre
/// steps — it fails with `FeederDisabled`.  An angle request of a
/// disabled feeder is covered directly by the contract of
/// `Feeder::set_servo_angle`.
pub proof fn lemma_disabled_guard<S: Servo, I: Input>(
    pre: Feeder<S, I>,
    post: Feeder<S, I>,
    length: Option<Value>,
    override_error: bool,
    r: Result<(), Error>,
)
    requires
        advance_post(pre, post, length, override_error, r),
        !pre.enabled_spec(),
    ensures
        post.moves() == pre.moves(),
        ({
            let cfg = pre.config_spec();
            let lenv = if length is Some {
                length->0
            } else {
                cfg.feed_length
            };
            (override_error || cfg.ignore_feeback_pin || !pre.feedback_state()) && lenv.raw as int
                % (RAW_2MM as int) == 0 && lenv.raw > 0 ==> r == Err::<(), Error>(
                Error::FeederDisabled,
            )
        }),
{
}

/// Feed length divisibility: a feed length that is not a whole multiple
/// of two millimetres is rejected as `InvalidFeedLength`, and no motion
/// occurs.
pub proof fn lemma_feed_length_divisibility<S: Servo, I: Input>(
    pre: Feeder<S, I>,
    post: Feeder<S, I>,
    length: Option<Value>,
    override_error: bool,
    r: Result<(), Error>,
)
    requires
        advance_post(pre, post, length, override_error, r),
        override_error || pre.config_spec().ignore_feeback_pin || !pre.feedback_state(),
        (if length is Some {
            length->0
        } else {
            pre.config_spec().feed_length
        }).raw as int % (RAW_2MM as int) != 0,
    ensures
        r == Err::<(), Error>(
            Error::InvalidFeedLength(
                if length is Some {
                    length->0
                } else {
                    pre.config_spec().feed_length
                },
            ),
        ),
        post.moves() == pre.moves(),
        post.offset_raw() == pre.offset_raw(),
{
}

/// Boundary retraction: from a fresh offset, feeding exactly four
/// millimetres pushes to the full angle and retracts; feeding two
/// millimetres only pushes to the half angle and leaves the offset at
/// two millimetres; the next two millimetres push to the full angle and
/// retract, completing the cycle.
pub proof fn lemma_boundary_retraction(cfg: FeederConfig)
    requires
        !cfg.always_retract,
    ensures
        plan_moves(cfg, 0, RAW_4MM as int) == seq![cfg.advanced_angle, cfg.retract_angle],
        plan_offset(cfg, 0, RAW_4MM as int) == 0,
        plan_moves(cfg, 0, RAW_2MM as int) == seq![cfg.half_advanced_angle],
        plan_offset(cfg, 0, RAW_2MM as int) == RAW_2MM as int,
        plan_moves(cfg, RAW_2MM as int, RAW_2MM as int) == seq![
            cfg.advanced_angle,
            cfg.retract_angle,
        ],
        plan_offset(cfg, RAW_2MM as int, RAW_2MM as int) == 0,
{
    assert(plan_moves(cfg, 0, 0) =~= Seq::<Value>::empty());
    assert(plan_moves(cfg, RAW_2MM as int, 0) =~= Seq::<Value>::empty());
    assert(plan_offset(cfg, 0, 0) == 0);
    assert(plan_offset(cfg, RAW_2MM as int, 0) == RAW_2MM as int);
    assert(plan_moves(cfg, 0, RAW_4MM as int) =~= seq![cfg.advanced_angle, cfg.retract_angle]);
    assert(plan_offset(cfg, 0, RAW_4MM as int) == 0);
    assert(plan_moves(cfg, 0, RAW_2MM as int) =~= seq![cfg.half_advanced_angle]);
    assert(plan_offset(cfg, 0, RAW_2MM as int) == RAW_2MM as int);
    assert(plan_moves(cfg, RAW_2MM as int, RAW_2MM as int) =~= seq![
        cfg.advanced_angle,
        cfg.retract_angle,
    ]);
    assert(plan_offset(cfg, RAW_2MM as int, RAW_2MM as int) == 0);
}

/// Always-retract: with `always_retract` set, the servo motion of any
/// feed pairs every push with an immediate retract: the plan has even
/// length and every odd position is the retract angle.
pub proof fn lemma_always_retract(cfg: FeederConfig, offset: int, len: int)
    requires
        cfg.always_retract,
        0 <= offset < RAW_4MM as int,
    ensures
        plan_moves(cfg, offset, len).len() % 2 == 0,
        forall|i: int|
            0 <= i < plan_moves(cfg, offset, len).len() && i % 2 == 1 ==> plan_moves(
                cfg,
                offset,
                len,
            )[i] == cfg.retract_angle,
    decreases len,
{
    if len > 0 {
        let step = crate::feeder::plan_step(offset, len);
        lemma_always_retract(cfg, 0, len - step);
        let tail = plan_moves(cfg, 0, len - step);
        let plan = plan_moves(cfg, offset, len);
        assert forall|i: int| 0 <= i < plan.len() && i % 2 == 1 implies plan[i]
            == cfg.retract_angle by {
            if i >= 2 {
                assert(plan[i] == tail[i - 2]);
            }
        }
    }
}

/// Feedback gate: with the feedback input active and neither override
/// in force, a feed fails as `FeederNotReady` and issues no servo
/// command.
pub proof fn lemma_feedback_gate<S: Servo, I: Input>(
    pre: Feeder<S, I>,
    post: Feeder<S, I>,
    length: Option<Value>,
    r: Result<(), Error>,
)
    requires
        advance_post(pre, post, length, false, r),
        !pre.config_spec().ignore_feeback_pin,
        pre.feedback_state(),
    ensures
        r == Err::<(), Error>(Error::FeederNotReady),
        post.moves() == pre.moves(),
        post.offset_raw() == pre.offset_raw(),
{
}

/// Feedback gate, the other direction: with either override flag set, a
/// feed is never refused for the feedback input's sake.
pub proof fn lemma_feedback_override<S: Servo, I: Input>(
    pre: Feeder<S, I>,
    post: Feeder<S, I>,
    length: Option<Value>,
    override_error: bool,
    r: Result<(), Error>,
)
    requires
        advance_post(pre, post, length, override_error, r),
        override_error || pre.config_spec().ignore_feeback_pin,
    ensures
        r != Err::<(), Error>(Error::FeederNotReady),
{
}

/// Pulse recognition: a release recorded `dt` after an active reading
/// is a qualifying pulse exactly when `dt` lies between fifty and five
/// hundred milliseconds; a reading that is not a release, one that
/// follows an inactive reading, and one that follows nothing never
/// qualify.
pub proof fn lemma_pulse_window(t: u64, dt: u64, now: u64, state: bool)
    requires
        t + dt <= u64::MAX,
    ensures
        spec_pulse(Some((false, t)), true, (t + dt) as u64) == (MIN_PULSE_US <= dt
            <= MAX_PULSE_US),
        !spec_pulse(Some((false, t)), false, now),
        !spec_pulse(Some((true, t)), state, now),
        !spec_pulse(None::<(bool, u64)>, state, now),
{
}

/// Pulse recognition, the other half: a feed triggered by a pulse
/// resets the recognizer, so the very next feedback edge can never be
/// mistaken for the same pulse — one pulse feeds exactly once.
pub proof fn lemma_pulse_feeds_once<S: Servo, I: Input>(
    mid: Feeder<S, I>,
    post: Feeder<S, I>,
    now: u64,
)
    requires
        mid.recognizer_last() is None,
        feedback_event_post(mid, post, now),
    ensures
        post.moves() == mid.moves(),
        post.offset_raw() == mid.offset_raw(),
{
}

/// Round trip: the decimal text any value is reported as parses back,
/// under the parser's numeral rule, to exactly the raw value that was
/// formatted.  A configuration echoed by the report command therefore
/// reads back to the configuration that was set.
pub proof fn lemma_value_text_round_trip(v: Value)
    ensures
        ({
            let t = spec_fmt_value(v.raw as int);
            parse_number(t, 0, t.len() as int) == Ok::<int, ParseError>(v.raw as int)
        }),
{
    let raw = v.raw as int;
    let neg = raw < 0;
    let mag = if neg {
        -raw
    } else {
        raw
    };
    crate::text::lemma_first_fit_small(mag, 0);
    let k = first_fit_k(mag, 0);
    let p = pow10(k);
    crate::text::lemma_pow10_le(k, 7);
    crate::text::lemma_pow10_le(0, k);
    assert(pow10(7) == 10000000) by {
        reveal_with_fuel(pow10, 8);
    };
    assert(pow10(5) == 100000) by {
        reveal_with_fuel(pow10, 6);
    };
    let cand = round_dec(mag, k);
    lemma_fundamental_div_mod(2 * mag * p + 65536, 2 * 65536int);
    assert(cand >= 0) by (nonlinear_arith)
        requires
            mag >= 0,
            p >= 1,
            2 * mag * p + 65536 == 2 * 65536 * cand + (2 * mag * p + 65536) % (2 * 65536int),
            0 <= (2 * mag * p + 65536) % (2 * 65536int) < 2 * 65536,
    ;
    assert(cand < 100000 * p) by (nonlinear_arith)
        requires
            0 <= mag <= 0x80000000,
            p >= 1,
            2 * mag * p + 65536 == 2 * 65536 * cand + (2 * mag * p + 65536) % (2 * 65536int),
            0 <= (2 * mag * p + 65536) % (2 * 65536int) < 2 * 65536,
    ;
    let tm = spec_fmt_mag(mag);
    let t = spec_fmt_value(raw);
    let i1: int = if neg {
        1
    } else {
        0
    };
    if k == 0 {
        assert(p == 1);
        assert(tm == dec_str(cand));
        crate::text::lemma_dec_str_digits(cand);
        crate::text::lemma_dec_str_len(cand, 5);
        let dlen = dec_str(cand).len() as int;
        let j = t.len() as int;
        assert(j == i1 + dlen);
        assert(forall|m: int| 0 <= m < dlen ==> t[i1 + m] == dec_str(cand)[m]);
        assert(t.subrange(i1, j) =~= dec_str(cand));
        assert(forall|m: int| i1 <= m < j ==> is_digit(t[m])) by {
            assert(forall|m: int| i1 <= m < j ==> t[m] == dec_str(cand)[m - i1]);
        };
        lemma_digits_end_run(t, i1, j, j);
        lemma_dec_str_reads(t, i1, cand);
        if neg {
            assert(t[0] == '-');
        } else {
            assert(is_digit(t[0]));
            assert(t[0] != '-') by {
                if t[0] == '-' {
                    assert(t[0] as u32 == 45);
                }
            };
        }
        assert(parse_number(t, 0, j) == number_raw(neg, cand, 0, 0));
        assert(cand * pow10(0) + 0 == cand);
        assert(round_raw(cand, 0) == mag);
        assert(number_raw(neg, cand, 0, 0) == Ok::<int, ParseError>(raw));
    } else {
        let ip = cand / p;
        let fp = cand % p;
        lemma_fundamental_div_mod(cand, p);
        assert(0 <= fp < p);
        assert(0 <= ip < 100000) by (nonlinear_arith)
            requires
                p >= 1,
                cand >= 0,
                cand < 100000 * p,
                cand == p * ip + fp,
                0 <= fp < p,
        ;
        let ipd = dec_str(ip);
        let fpd = dec_str_pad(fp, k);
        assert(tm == ipd + seq!['.'] + fpd);
        crate::text::lemma_dec_str_digits(ip);
        crate::text::lemma_dec_str_len(ip, 5);
        crate::text::lemma_dec_str_pad_digits(fp, k);
        let b = i1 + ipd.len() as int;
        let j = t.len() as int;
        assert(j == b + 1 + k);
        assert(forall|m: int| 0 <= m < ipd.len() ==> t[i1 + m] == ipd[m]);
        assert(t[b] == '.');
        assert(forall|m: int| 0 <= m < k ==> t[b + 1 + m] == fpd[m]);
        assert(forall|m: int| i1 <= m < b ==> is_digit(t[m])) by {
            assert(forall|m: int| i1 <= m < b ==> t[m] == ipd[m - i1]);
        };
        assert(!is_digit(t[b]));
        assert(forall|m: int| b + 1 <= m < j ==> is_digit(t[m])) by {
            assert(forall|m: int| b + 1 <= m < j ==> t[m] == fpd[m - (b + 1)]);
        };
        lemma_digits_end_run(t, i1, j, b);
        lemma_digits_end_run(t, b + 1, j, j);
        assert(t.subrange(i1, b) =~= ipd);
        assert(t.subrange(b + 1, j) =~= fpd);
        lemma_dec_str_reads(t, i1, ip);
        lemma_dec_str_pad_reads(t, b + 1, fp, k);
        if neg {
            assert(t[0] == '-');
        } else {
            assert(is_digit(t[0]));
            assert(t[0] != '-') by {
                if t[0] == '-' {
                    assert(t[0] as u32 == 45);
                }
            };
        }
        assert(parse_number(t, 0, j) == number_raw(neg, ip, fp, k));
        assert(ip * p + fp == cand);
        assert(round_raw(cand, k) == mag);
        assert(number_raw(neg, ip, fp, k) == Ok::<int, ParseError>(raw));
    }
}


/// An accepted enable-all line (`M610 S1`): every feeder is as before
/// but enabled, the store is untouched, and the reply is `ok`.
pub proof fn lemma_enable_all_line<S: Servo, I: Input, C: ConfigStore, O: OutputSink>(
    h0: GCodeHandler<S, I, C, O>,
    h1: GCodeHandler<S, I, C, O>,
    enable_line: Line,
)
    requires
        line_post(h0, h1, enable_line),
        enable_line.command == Some(Word { letter: 'M', value: (Value { raw: 0x2620000 }) }),
        enable_line.arguments@ == seq![Word { letter: 'S', value: (Value { raw: 0x10000 }) }],
    ensures
        h1.feeders@.len() == h0.feeders@.len(),
        forall|j: int|
            0 <= j < h0.feeders@.len() ==> same_after_enable(h0.feeders@[j], h1.feeders@[j], true),
        h1.config_store == h0.config_store,
        wrote(h0.output, h1.output, "ok\n"@),
{
    let cmd1 = enable_line.command->0;
    let args1 = enable_line.arguments@;
    assert(crate::dispatcher::is_cmd(cmd1, 610));
    assert(!crate::dispatcher::is_cmd(cmd1, 600));
    assert(!crate::dispatcher::is_cmd(cmd1, 603));
    assert(m610_fold(args1, 0) == Ok::<Option<bool>, char>(None));
    assert(m610_fold(args1, 1) == Ok::<Option<bool>, char>(Some(true)));
    let r1 = choose|r: Result<(), Error>|
        #[trigger] m610_post(h0.feeders@, h1.feeders@, enable_line, r) && h1.config_store
            == h0.config_store && wrote(h0.output, h1.output, reply_of(r));
    assert(m610_post(h0.feeders@, h1.feeders@, enable_line, r1));
    assert(r1 is Ok);
    assert(reply_of(r1) == "ok\n"@);
}

/// A feed line (`M600 N<fi> F4`) for a named feeder: picks out the
/// witness result of the dispatcher contract.
proof fn lemma_feed_line_witness<S: Servo, I: Input, C: ConfigStore, O: OutputSink>(
    h1: GCodeHandler<S, I, C, O>,
    h2: GCodeHandler<S, I, C, O>,
    feed_line: Line,
    fi: int,
) -> (r2: Result<(), Error>)
    requires
        line_post(h1, h2, feed_line),
        feed_line.command == Some(Word { letter: 'M', value: (Value { raw: 0x2580000 }) }),
        feed_line.arguments@ == seq![
            Word { letter: 'N', value: (Value { raw: (fi * 0x10000) as i32 }) },
            Word { letter: 'F', value: (Value { raw: RAW_4MM }) },
        ],
        0 <= fi < h1.feeders@.len(),
        fi <= 0x7FFF,
    ensures
        m600_post(h1.feeders@, h2.feeders@, feed_line, r2),
        h2.config_store == h1.config_store,
        wrote(h1.output, h2.output, reply_of(r2)),
        m600_fold(feed_line.arguments@, feed_line.arguments@.len() as int) == Ok::<
            crate::dispatcher::M600Args,
            char,
        >(
            (crate::dispatcher::M600Args {
                index: Some(feed_line.arguments@[0].value),
                feed_length: Some(feed_line.arguments@[1].value),
                override_error: false,
            }),
        ),
        resolve_spec(Some(feed_line.arguments@[0].value), h1.feeders@.len() as int) == Ok::<
            int,
            Error,
        >(fi),
{
    let cmd2 = feed_line.command->0;
    let args2 = feed_line.arguments@;
    assert(crate::dispatcher::is_cmd(cmd2, 600));
    assert(m600_fold(args2, 0) == Ok::<crate::dispatcher::M600Args, char>(
        (crate::dispatcher::M600Args { index: None, feed_length: None, override_error: false }),
    ));
    assert(m600_fold(args2, 1) == Ok::<crate::dispatcher::M600Args, char>(
        (crate::dispatcher::M600Args {
            index: Some(args2[0].value),
            feed_length: None,
            override_error: false,
        }),
    ));
    assert(m600_fold(args2, 2) == Ok::<crate::dispatcher::M600Args, char>(
        (crate::dispatcher::M600Args {
            index: Some(args2[0].value),
            feed_length: Some(args2[1].value),
            override_error: false,
        }),
    ));
    assert(args2[0].value.raw == fi * 0x10000);
    assert(crate::value::spec_trunc(fi * 0x10000) == fi) by {
        vstd::arithmetic::div_mod::lemma_fundamental_div_mod_converse(
            fi * 0x10000,
            0x10000,
            fi,
            0,
        );
    };
    assert(resolve_spec(Some(args2[0].value), h1.feeders@.len() as int) == Ok::<int, Error>(fi));
    let r2 = choose|r: Result<(), Error>|
        #[trigger] m600_post(h1.feeders@, h2.feeders@, feed_line, r) && h2.config_store
            == h1.config_store && wrote(h1.output, h2.output, reply_of(r));
    assert(m600_post(h1.feeders@, h2.feeders@, feed_line, r2));
    r2
}

/// An enable-all line followed by a feed line, derived from the
/// dispatcher's contracts alone.  With feeder `fi` at rest — feedback
/// inactive and not ignored, offset zero, boundary-gated retraction,
/// and a servo that accepts every angle — `M610 S1` then
/// `M600 N<fi> F4` earn the replies `ok` and `ok`, feeder `fi`'s servo
/// receives exactly the full push and the retract, and no other feeder
/// moves.
pub proof fn lemma_enable_then_feed<S: Servo, I: Input, C: ConfigStore, O: OutputSink>(
    h0: GCodeHandler<S, I, C, O>,
    h1: GCodeHandler<S, I, C, O>,
    h2: GCodeHandler<S, I, C, O>,
    enable_line: Line,
    feed_line: Line,
    fi: int,
)
    requires
        line_post(h0, h1, enable_line),
        line_post(h1, h2, feed_line),
        enable_line.command == Some(Word { letter: 'M', value: (Value { raw: 0x2620000 }) }),
        enable_line.arguments@ == seq![Word { letter: 'S', value: (Value { raw: 0x10000 }) }],
        feed_line.command == Some(Word { letter: 'M', value: (Value { raw: 0x2580000 }) }),
        feed_line.arguments@ == seq![
            Word { letter: 'N', value: (Value { raw: (fi * 0x10000) as i32 }) },
            Word { letter: 'F', value: (Value { raw: RAW_4MM }) },
        ],
        0 <= fi < h0.feeders@.len(),
        fi <= 0x7FFF,
        !h0.feeders@[fi].feedback_state(),
        !h0.feeders@[fi].config_spec().ignore_feeback_pin,
        !h0.feeders@[fi].config_spec().always_retract,
        h0.feeders@[fi].offset_raw() == 0,
        forall|a: Value| h0.feeders@[fi].angle_ok_spec(a),
    ensures
        h2.feeders@.len() == h0.feeders@.len(),
        h2.feeders@[fi].moves() == h0.feeders@[fi].moves() + seq![
            h0.feeders@[fi].config_spec().advanced_angle,
            h0.feeders@[fi].config_spec().retract_angle,
        ],
        forall|j: int|
            0 <= j < h0.feeders@.len() && j != fi ==> h2.feeders@[j].moves()
                == h0.feeders@[j].moves(),
        wrote(h0.output, h2.output, "ok\n"@ + "ok\n"@),
{
    lemma_enable_all_line(h0, h1, enable_line);
    let r2 = lemma_feed_line_witness(h1, h2, feed_line, fi);
    // The feed clears the not-ready test, is four millimetres, and
    // every angle of its plan is accepted: it succeeds with the
    // planned motion.
    let f1 = h1.feeders@[fi].feeder;
    let f2 = h2.feeders@[fi].feeder;
    let cfg = h0.feeders@[fi].config_spec();
    assert(RAW_4MM as int % (RAW_2MM as int) == 0);
    let plan = plan_moves(cfg, 0, RAW_4MM as int);
    lemma_boundary_retraction(cfg);
    assert(same_after_enable(h0.feeders@[fi], h1.feeders@[fi], true));
    assert forall|i: int| 0 <= i < plan.len() implies f1.angle_ok_spec(plan[i]) by {
        assert(h1.feeders@[fi].angle_ok_spec(plan[i]) == h0.feeders@[fi].angle_ok_spec(plan[i]));
        assert(h0.feeders@[fi].angle_ok_spec(plan[i]));
    }
    assert(f1.plan_all_ok(plan));
    if r2 is Err {
        assert(advance_post(f1, f2, Some(feed_line.arguments@[1].value), false, Err(r2->Err_0)));
        assert(false);
    }
    assert(advance_post(f1, f2, Some(feed_line.arguments@[1].value), false, Ok(())));
    assert(f2.moves() == f1.moves() + plan);
    // Replies compose: `ok` for the enable, `ok` for the feed.
    assert(reply_of(r2) == "ok\n"@);
    if h0.output.sink_ok() {
        assert(h2.output.written() =~= h0.output.written() + ("ok\n"@ + "ok\n"@));
    }
}

/// The feedback gate across the dispatcher: with feeder `fi`'s input
/// active and not ignored, `M610 S1` then `M600 N<fi> F4` earn `ok`
/// and then the feeder-not-ready error, and feeder `fi` does not move.
pub proof fn lemma_enable_then_gated_feed<S: Servo, I: Input, C: ConfigStore, O: OutputSink>(
    h0: GCodeHandler<S, I, C, O>,
    h1: GCodeHandler<S, I, C, O>,
    h2: GCodeHandler<S, I, C, O>,
    enable_line: Line,
    feed_line: Line,
    fi: int,
)
    requires
        line_post(h0, h1, enable_line),
        line_post(h1, h2, feed_line),
        enable_line.command == Some(Word { letter: 'M', value: (Value { raw: 0x2620000 }) }),
        enable_line.arguments@ == seq![Word { letter: 'S', value: (Value { raw: 0x10000 }) }],
        feed_line.command == Some(Word { letter: 'M', value: (Value { raw: 0x2580000 }) }),
        feed_line.arguments@ == seq![
            Word { letter: 'N', value: (Value { raw: (fi * 0x10000) as i32 }) },
            Word { letter: 'F', value: (Value { raw: RAW_4MM }) },
        ],
        0 <= fi < h0.feeders@.len(),
        fi <= 0x7FFF,
        h0.feeders@[fi].feedback_state(),
        !h0.feeders@[fi].config_spec().ignore_feeback_pin,
    ensures
        h2.feeders@.len() == h0.feeders@.len(),
        h2.feeders@[fi].moves() == h0.feeders@[fi].moves(),
        wrote(
            h0.output,
            h2.output,
            "ok\n"@ + reply_of(Err(Error::FeederNotReady)),
        ),
{
    lemma_enable_all_line(h0, h1, enable_line);
    let r2 = lemma_feed_line_witness(h1, h2, feed_line, fi);
    let f1 = h1.feeders@[fi].feeder;
    let f2 = h2.feeders@[fi].feeder;
    assert(same_after_enable(h0.feeders@[fi], h1.feeders@[fi], true));
    // The input still reads active and is not ignored, so the feed is
    // refused.
    if r2 is Ok {
        assert(advance_post(f1, f2, Some(feed_line.arguments@[1].value), false, Ok(())));
        assert(false);
    }
    assert(advance_post(f1, f2, Some(feed_line.arguments@[1].value), false, Err(r2->Err_0)));
    assert(r2 == Err::<(), Error>(Error::FeederNotReady));
    assert(f2.moves() == f1.moves());
    if h0.output.sink_ok() {
        assert(h2.output.written() =~= h0.output.written() + ("ok\n"@ + reply_of(
            Err(Error::FeederNotReady),
        )));
    }
}

/// A set-configuration line followed by a feed, derived from the
/// dispatcher's contracts alone.  `M610 S1`, then `M620 N<fi> X1`, then
/// `M600 N<fi> F4`: once the configuration command sets
/// `ignore_feeback_pin`, the feed proceeds whatever the feedback input
/// reads — three `ok` replies, and feeder `fi`'s servo receives exactly
/// the full push and the retract.
pub proof fn lemma_configure_then_feed<S: Servo, I: Input, C: ConfigStore, O: OutputSink>(
    h0: GCodeHandler<S, I, C, O>,
    h1: GCodeHandler<S, I, C, O>,
    h2: GCodeHandler<S, I, C, O>,
    h3: GCodeHandler<S, I, C, O>,
    enable_line: Line,
    config_line: Line,
    feed_line: Line,
    fi: int,
)
    requires
        line_post(h0, h1, enable_line),
        line_post(h1, h2, config_line),
        line_post(h2, h3, feed_line),
        enable_line.command == Some(Word { letter: 'M', value: (Value { raw: 0x2620000 }) }),
        enable_line.arguments@ == seq![Word { letter: 'S', value: (Value { raw: 0x10000 }) }],
        config_line.command == Some(Word { letter: 'M', value: (Value { raw: 0x26C0000 }) }),
        config_line.arguments@ == seq![
            Word { letter: 'N', value: (Value { raw: (fi * 0x10000) as i32 }) },
            Word { letter: 'X', value: (Value { raw: 0x10000 }) },
        ],
        feed_line.command == Some(Word { letter: 'M', value: (Value { raw: 0x2580000 }) }),
        feed_line.arguments@ == seq![
            Word { letter: 'N', value: (Value { raw: (fi * 0x10000) as i32 }) },
            Word { letter: 'F', value: (Value { raw: RAW_4MM }) },
        ],
        0 <= fi < h0.feeders@.len(),
        fi <= 0x7FFF,
        !h0.feeders@[fi].config_spec().always_retract,
        h0.feeders@[fi].offset_raw() == 0,
        h0.feeders@[fi].limits_ok_spec(
            (PwmLimits {
                zero: h0.feeders@[fi].config_spec().pwm_0,
                one_eighty: h0.feeders@[fi].config_spec().pwm_180,
            }),
        ),
        forall|a: Value|
            S::angle_ok_at(
                (PwmLimits {
                    zero: h0.feeders@[fi].config_spec().pwm_0,
                    one_eighty: h0.feeders@[fi].config_spec().pwm_180,
                }),
                a,
            ),
        h0.config_store.set_ok(
            fi as usize,
            (FeederConfig { ignore_feeback_pin: true, ..h0.feeders@[fi].config_spec() }),
        ),
    ensures
        h3.feeders@.len() == h0.feeders@.len(),
        h3.feeders@[fi].moves() == h0.feeders@[fi].moves() + seq![
            h0.feeders@[fi].config_spec().advanced_angle,
            h0.feeders@[fi].config_spec().retract_angle,
        ],
        wrote(h0.output, h3.output, "ok\n"@ + "ok\n"@ + "ok\n"@),
{
    let cfg = h0.feeders@[fi].config_spec();
    let lims = PwmLimits { zero: cfg.pwm_0, one_eighty: cfg.pwm_180 };
    let merged_expected = FeederConfig { ignore_feeback_pin: true, ..cfg };
    // First line: everything as before, but enabled.
    lemma_enable_all_line(h0, h1, enable_line);
    assert(same_after_enable(h0.feeders@[fi], h1.feeders@[fi], true));
    // Second line: the set-configuration command.
    let cmd2 = config_line.command->0;
    let args2 = config_line.arguments@;
    assert(crate::dispatcher::is_cmd(cmd2, 620));
    assert(!crate::dispatcher::is_cmd(cmd2, 600));
    assert(!crate::dispatcher::is_cmd(cmd2, 603));
    assert(!crate::dispatcher::is_cmd(cmd2, 610));
    assert(m620_fold(args2, 0) == Ok::<M620Args, char>(m620_empty()));
    assert(m620_fold(args2, 1) == Ok::<M620Args, char>(
        (M620Args { index: Some(args2[0].value), ..m620_empty() }),
    ));
    assert(m620_fold(args2, 2) == Ok::<M620Args, char>(
        (M620Args {
            index: Some(args2[0].value),
            ignore_feeback_pin: Some(true),
            ..m620_empty()
        }),
    ));
    assert(crate::value::spec_trunc(fi * 0x10000) == fi) by {
        vstd::arithmetic::div_mod::lemma_fundamental_div_mod_converse(
            fi * 0x10000,
            0x10000,
            fi,
            0,
        );
    };
    assert(resolve_spec(Some(args2[0].value), h1.feeders@.len() as int) == Ok::<int, Error>(fi));
    let r2 = choose|r: Result<(), Error>|
        #[trigger] m620_post(
            h1.feeders@,
            h2.feeders@,
            h1.config_store,
            h2.config_store,
            config_line,
            r,
        ) && wrote(h1.output, h2.output, reply_of(r));
    assert(m620_post(h1.feeders@, h2.feeders@, h1.config_store, h2.config_store, config_line, r2));
    assert(h1.feeders@[fi].config_spec() == cfg);
    let a2 = M620Args {
        index: Some(args2[0].value),
        ignore_feeback_pin: Some(true),
        ..m620_empty()
    };
    assert(m620_merge(cfg, a2) == merged_expected);
    assert(h1.feeders@[fi].limits_ok_spec(lims));
    assert(h1.config_store.set_ok(fi as usize, merged_expected));
    assert(r2 is Ok);
    assert(h2.feeders@[fi].config_spec() == merged_expected);
    assert(h2.feeders@[fi].enabled_spec());
    assert(h2.feeders@[fi].offset_raw() == 0);
    assert(h2.feeders@[fi].moves() == h0.feeders@[fi].moves());
    assert(forall|a: Value| h2.feeders@[fi].angle_ok_spec(a) == S::angle_ok_at(lims, a));
    // Third line: the feed, past the ignored feedback input.
    let r3 = lemma_feed_line_witness(h2, h3, feed_line, fi);
    let f2 = h2.feeders@[fi].feeder;
    let f3 = h3.feeders@[fi].feeder;
    assert(RAW_4MM as int % (RAW_2MM as int) == 0);
    let plan = plan_moves(merged_expected, 0, RAW_4MM as int);
    lemma_boundary_retraction(merged_expected);
    assert forall|i: int| 0 <= i < plan.len() implies f2.angle_ok_spec(plan[i]) by {
        assert(h2.feeders@[fi].angle_ok_spec(plan[i]) == S::angle_ok_at(lims, plan[i]));
    }
    assert(f2.plan_all_ok(plan));
    if r3 is Err {
        assert(advance_post(f2, f3, Some(feed_line.arguments@[1].value), false, Err(r3->Err_0)));
        assert(false);
    }
    assert(advance_post(f2, f3, Some(feed_line.arguments@[1].value), false, Ok(())));
    assert(f3.moves() == f2.moves() + plan);
    assert(reply_of(r3) == "ok\n"@);
    if h0.output.sink_ok() {
        assert(h3.output.written() =~= h0.output.written() + ("ok\n"@ + "ok\n"@ + "ok\n"@));
    }
}

/// Disconnect: after the disconnect event, every feeder is disabled and
/// none has moved.
pub proof fn lemma_disconnect_disables<
    S: Servo,
    I: Input,
    C: crate::store::ConfigStore,
    O: crate::sink::OutputSink,
>(
    pre: crate::dispatcher::GCodeHandler<S, I, C, O>,
    post: crate::dispatcher::GCodeHandler<S, I, C, O>,
)
    requires
        crate::dispatcher::disconnect_post(pre, post),
    ensures
        forall|i: int|
            0 <= i < post.feeders@.len() ==> !post.feeders@[i].enabled_spec()
                && post.feeders@[i].moves() == pre.feeders@[i].moves(),
{
}

} // verus!
