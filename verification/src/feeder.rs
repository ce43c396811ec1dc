//! The per-feeder state machine.
//!
//! A `Feeder` owns one servo and one feedback input, keeps the feeder
//! configuration and the advance offset, and answers `FeederCommand`
//! requests.  Feeding advances the tape in sub-steps of at most four
//! millimetres — the distance between feed holes — retracting only on a
//! four-millimetre boundary unless `always_retract` is set; the exact
//! servo motion of a feed is pinned down by `plan_moves`, and
//! `advance_post` states everything `advance` does.

use vstd::arithmetic::div_mod::lemma_fundamental_div_mod;
use vstd::arithmetic::div_mod::lemma_fundamental_div_mod_converse;
use vstd::prelude::*;

use crate::error::Error;
use crate::input::Input;
use crate::pulse::spec_pulse;
use crate::pulse::FeedbackInputRecognizer;
use crate::servo::PwmLimits;
use crate::servo::Servo;
use crate::value::Value;

verus! {

/// Two millimetres, as a raw fixed-point representation.
pub const RAW_2MM: i32 = 0x20000;

/// Four millimetres, as a raw fixed-point representation.
pub const RAW_4MM: i32 = 0x40000;

/// Everything a feeder remembers about how to move.
#[derive(Clone, Copy, Debug, PartialEq, Eq, Structural)]
pub struct FeederConfig {
    /// Servo angle of a full four-millimetre push.
    pub advanced_angle: Value,
    /// Servo angle of the intermediate two-millimetre position.
    pub half_advanced_angle: Value,
    /// Servo angle of the rest position.
    pub retract_angle: Value,
    /// Feed length used when a feed command names none.
    pub feed_length: Value,
    /// Dwell after each servo move, in milliseconds.
    pub settle_time: u32,
    /// PWM count at zero degrees.
    pub pwm_0: Value,
    /// PWM count at one hundred eighty degrees.
    pub pwm_180: Value,
    /// Feed even while the feedback input reads active.
    pub ignore_feeback_pin: bool,
    /// Retract after every sub-step instead of only at four millimetres.
    pub always_retract: bool,
}

/// The built-in configuration: angles in degrees 135 / 107.5 / 80, a
/// two-millimetre default feed, three hundred milliseconds of settling,
/// and no PWM limits until the servo reports its own.
pub open spec fn spec_default_config() -> FeederConfig {
    FeederConfig {
        advanced_angle: Value { raw: 0x870000 },
        half_advanced_angle: Value { raw: 0x6B8000 },
        retract_angle: Value { raw: 0x500000 },
        feed_length: Value { raw: RAW_2MM },
        settle_time: 300,
        pwm_0: Value { raw: 0 },
        pwm_180: Value { raw: 0 },
        ignore_feeback_pin: false,
        always_retract: false,
    }
}

impl Default for FeederConfig {
    /// The built-in configuration.
    fn default() -> (r: FeederConfig)
        ensures
            r == spec_default_config(),
    {
        FeederConfig {
            advanced_angle: Value { raw: 0x870000 },
            half_advanced_angle: Value { raw: 0x6B8000 },
            retract_angle: Value { raw: 0x500000 },
            feed_length: Value { raw: RAW_2MM },
            settle_time: 300,
            pwm_0: Value { raw: 0 },
            pwm_180: Value { raw: 0 },
            ignore_feeback_pin: false,
            always_retract: false,
        }
    }
}

/// One request to a feeder.
pub enum FeederCommand {
    /// Replace the configuration.
    SetConfig(FeederConfig),
    /// Read the configuration back.
    GetConfig,
    /// Move the servo to an angle directly.
    SetServoAngle(Value),
    /// Feed by the given length, or by the configured default.
    Advance { length: Option<Value>, override_error: bool },
    /// Allow or forbid motion.
    Enable(bool),
}

/// What a feeder answers: `Some(config)` only to `GetConfig`, `None` to
/// every other successful request.
pub type FeederResponse = Result<Option<FeederConfig>, Error>;

/// The sub-step fed next: at most up to the next four-millimetre
/// boundary, at most the remaining length.
pub open spec fn plan_step(offset: int, len: int) -> int {
    if RAW_4MM - offset <= len {
        RAW_4MM - offset
    } else {
        len
    }
}

/// Every servo angle of a feed of `len` starting at `offset`, in order.
/// Each sub-step pushes to the half angle when it ends at two
/// millimetres and to the full angle otherwise, then retracts when the
/// four-millimetre boundary is reached or the feeder always retracts.
pub open spec fn plan_moves(cfg: FeederConfig, offset: int, len: int) -> Seq<Value>
    decreases len
        when 0 <= offset < RAW_4MM
{
    if len <= 0 {
        Seq::empty()
    } else {
        let step = plan_step(offset, len);
        let target = offset + step;
        let first = if target == RAW_2MM {
            cfg.half_advanced_angle
        } else {
            cfg.advanced_angle
        };
        if cfg.always_retract || target == RAW_4MM {
            seq![first, cfg.retract_angle] + plan_moves(cfg, 0, len - step)
        } else {
            seq![first] + plan_moves(cfg, target, len - step)
        }
    }
}

/// The advance offset left after a feed of `len` starting at `offset`.
pub open spec fn plan_offset(cfg: FeederConfig, offset: int, len: int) -> int
    decreases len
        when 0 <= offset < RAW_4MM
{
    if len <= 0 {
        offset
    } else {
        let step = plan_step(offset, len);
        let target = offset + step;
        if cfg.always_retract || target == RAW_4MM {
            plan_offset(cfg, 0, len - step)
        } else {
            plan_offset(cfg, target, len - step)
        }
    }
}

/// One feeder: the sole owner of its servo and feedback input.
pub struct Feeder<S: Servo, I: Input> {
    servo: S,
    feedback: I,
    config: FeederConfig,
    enabled: bool,
    feedback_recognizer: FeedbackInputRecognizer,
    advance_offset: Value,
}

impl<S: Servo, I: Input> Feeder<S, I> {
    /// The configuration in force.
    pub closed spec fn config_spec(&self) -> FeederConfig {
        self.config
    }

    /// Whether motion is allowed.
    pub closed spec fn enabled_spec(&self) -> bool {
        self.enabled
    }

    /// The raw advance offset within the current four-millimetre cycle.
    pub closed spec fn offset_raw(&self) -> int {
        self.advance_offset.raw as int
    }

    /// Every angle the servo has accepted, oldest first.
    pub closed spec fn moves(&self) -> Seq<Value> {
        self.servo.moves()
    }

    /// The PWM limits the servo holds.
    pub closed spec fn servo_limits(&self) -> PwmLimits {
        self.servo.pwm_limits()
    }

    /// Which angles the servo accepts.
    pub closed spec fn angle_ok_spec(&self, a: Value) -> bool {
        self.servo.angle_ok(a)
    }

    /// Which PWM limits the servo accepts.
    pub closed spec fn limits_ok_spec(&self, l: PwmLimits) -> bool {
        self.servo.limits_ok(l)
    }

    /// The level of the feedback input.
    pub closed spec fn feedback_state(&self) -> bool {
        self.feedback.state()
    }

    /// The last reading the pulse recognizer recorded.
    pub closed spec fn recognizer_last(&self) -> Option<(bool, u64)> {
        self.feedback_recognizer.last()
    }

    /// The advance offset always rests at zero or two millimetres.
    pub closed spec fn wf(&self) -> bool {
        self.advance_offset.raw == 0 || self.advance_offset.raw == RAW_2MM
    }

    /// Whether the servo accepts every angle of a feed plan.
    pub open spec fn plan_all_ok(&self, plan: Seq<Value>) -> bool {
        forall|i: int| 0 <= i < plan.len() ==> self.angle_ok_spec(plan[i])
    }

    /// A new feeder: disabled, at offset zero, configured with the
    /// defaults except for the PWM limits, which the servo reports.
    pub fn new(servo: S, feedback: I) -> (r: Feeder<S, I>)
        ensures
            r.wf(),
            r.config_spec() == (FeederConfig {
                pwm_0: servo.pwm_limits().zero,
                pwm_180: servo.pwm_limits().one_eighty,
                ..spec_default_config()
            }),
            !r.enabled_spec(),
            r.offset_raw() == 0,
            r.recognizer_last() is None,
            r.moves() == servo.moves(),
            r.servo_limits() == servo.pwm_limits(),
            r.feedback_state() == feedback.state(),
            forall|a: Value| r.angle_ok_spec(a) == servo.angle_ok(a),
            forall|l: PwmLimits| r.limits_ok_spec(l) == servo.limits_ok(l),
    {
        let limits = servo.get_pwm_limits();
        let mut config = FeederConfig::default();
        config.pwm_0 = limits.zero;
        config.pwm_180 = limits.one_eighty;
        Feeder {
            servo,
            feedback,
            config,
            enabled: false,
            feedback_recognizer: FeedbackInputRecognizer::new(),
            advance_offset: Value::zero(),
        }
    }

    /// A mutable borrow of the feedback input, for the task that owns
    /// the input hardware, and for tests that drive the level.
    pub fn feedback_mut(&mut self) -> (r: &mut I)
        ensures
            r.state() == old(self).feedback_state(),
            final(self).feedback_state() == final(r).state(),
            final(self).wf() == old(self).wf(),
            final(self).config_spec() == old(self).config_spec(),
            final(self).enabled_spec() == old(self).enabled_spec(),
            final(self).offset_raw() == old(self).offset_raw(),
            final(self).moves() == old(self).moves(),
            final(self).recognizer_last() == old(self).recognizer_last(),
            final(self).servo_limits() == old(self).servo_limits(),
            forall|a: Value| final(self).angle_ok_spec(a) == old(self).angle_ok_spec(a),
            forall|l: PwmLimits| final(self).limits_ok_spec(l) == old(self).limits_ok_spec(l),
    {
        &mut self.feedback
    }

    /// A borrow of the servo, for observers such as tests.
    pub fn servo_ref(&self) -> (r: &S)
        ensures
            r.moves() == self.moves(),
            r.pwm_limits() == self.servo_limits(),
    {
        &self.servo
    }

    /// Pushes the new PWM limits to the servo first; only when the servo
    /// accepts them is the configuration replaced — never partially.
    pub fn set_config(&mut self, config: FeederConfig) -> (r: Result<(), Error>)
        ensures
            final(self).wf() == old(self).wf(),
            final(self).enabled_spec() == old(self).enabled_spec(),
            final(self).offset_raw() == old(self).offset_raw(),
            final(self).moves() == old(self).moves(),
            final(self).feedback_state() == old(self).feedback_state(),
            final(self).recognizer_last() == old(self).recognizer_last(),
            forall|l: PwmLimits| final(self).limits_ok_spec(l) == old(self).limits_ok_spec(l),
            r is Ok <==> old(self).limits_ok_spec(
                (PwmLimits { zero: config.pwm_0, one_eighty: config.pwm_180 }),
            ),
            r is Ok ==> final(self).config_spec() == config && final(self).servo_limits() == (
            PwmLimits { zero: config.pwm_0, one_eighty: config.pwm_180 }),
            r is Ok ==> forall|a: Value|
                final(self).angle_ok_spec(a) == S::angle_ok_at(
                    (PwmLimits { zero: config.pwm_0, one_eighty: config.pwm_180 }),
                    a,
                ),
            r is Err ==> final(self).config_spec() == old(self).config_spec() && final(self).servo_limits() == old(self).servo_limits() && r->Err_0 == Error::PwmValueOutOfRange
                && (forall|a: Value| final(self).angle_ok_spec(a) == old(self).angle_ok_spec(a)),
    {
        let limits = PwmLimits { zero: config.pwm_0, one_eighty: config.pwm_180 };
        match self.servo.set_pwm_limits(limits) {
            Ok(()) => {
                self.config = config;
                Ok(())
            },
            Err(e) => Err(e),
        }
    }

    /// A copy of the configuration; cannot fail.
    pub fn get_config(&self) -> (r: FeederConfig)
        ensures
            r == self.config_spec(),
    {
        self.config
    }

    /// Moves the servo directly; refused while the feeder is disabled.
    pub fn set_servo_angle(&mut self, angle: Value) -> (r: Result<(), Error>)
        ensures
            final(self).wf() == old(self).wf(),
            final(self).config_spec() == old(self).config_spec(),
            final(self).enabled_spec() == old(self).enabled_spec(),
            final(self).offset_raw() == old(self).offset_raw(),
            final(self).feedback_state() == old(self).feedback_state(),
            final(self).recognizer_last() == old(self).recognizer_last(),
            final(self).servo_limits() == old(self).servo_limits(),
            forall|a: Value| final(self).angle_ok_spec(a) == old(self).angle_ok_spec(a),
            forall|l: PwmLimits| final(self).limits_ok_spec(l) == old(self).limits_ok_spec(l),
            !old(self).enabled_spec() ==> r == Err::<(), Error>(Error::FeederDisabled) && final(self).moves() == old(self).moves(),
            old(self).enabled_spec() ==> {
                &&& (r is Ok <==> old(self).angle_ok_spec(angle))
                &&& (r is Ok ==> final(self).moves() == old(self).moves().push(angle))
                &&& (r is Err ==> final(self).moves() == old(self).moves() && (r->Err_0
                    == Error::AngleOutOfRange || r->Err_0 == Error::FixedPointError))
            },
    {
        if self.enabled {
            self.servo.set_angle(angle)
        } else {
            Err(Error::FeederDisabled)
        }
    }

    /// Allows or forbids motion; the only state transition.
    pub fn enable(&mut self, enabled: bool)
        ensures
            final(self).wf() == old(self).wf(),
            final(self).config_spec() == old(self).config_spec(),
            final(self).offset_raw() == old(self).offset_raw(),
            final(self).moves() == old(self).moves(),
            final(self).feedback_state() == old(self).feedback_state(),
            final(self).recognizer_last() == old(self).recognizer_last(),
            final(self).servo_limits() == old(self).servo_limits(),
            forall|a: Value| final(self).angle_ok_spec(a) == old(self).angle_ok_spec(a),
            forall|l: PwmLimits| final(self).limits_ok_spec(l) == old(self).limits_ok_spec(l),
            final(self).enabled_spec() == enabled,
    {
        self.enabled = enabled;
    }

    /// Feeds the tape.  The feedback gate, the two-millimetre
    /// divisibility rule, the disabled guard and the exact servo motion
    /// are all pinned down by `advance_post`.
    #[verifier::rlimit(60)]
    pub fn advance(&mut self, length: Option<Value>, override_error: bool) -> (r: Result<
        (),
        Error,
    >)
        requires
            old(self).wf(),
        ensures
            final(self).wf(),
            final(self).offset_raw() == 0 || final(self).offset_raw() == RAW_2MM as int,
            final(self).config_spec() == old(self).config_spec(),
            final(self).enabled_spec() == old(self).enabled_spec(),
            final(self).feedback_state() == old(self).feedback_state(),
            final(self).servo_limits() == old(self).servo_limits(),
            forall|a: Value| final(self).angle_ok_spec(a) == old(self).angle_ok_spec(a),
            forall|l: PwmLimits| final(self).limits_ok_spec(l) == old(self).limits_ok_spec(l),
            advance_post(*old(self), *final(self), length, override_error, r),
    {
        let eff: bool = override_error || self.config.ignore_feeback_pin;
        if !eff && self.feedback.get_state() {
            return Err(Error::FeederNotReady);
        }
        let remaining0: Value = match length {
            Some(l) => l,
            None => self.config.feed_length,
        };
        if !divisible_2mm(remaining0.raw) {
            return Err(Error::InvalidFeedLength(remaining0));
        }
        let mut remaining: Value = remaining0;
        let ghost pre: Feeder<S, I> = *self;
        let ghost cfg: FeederConfig = self.config;
        let ghost off0: int = self.advance_offset.raw as int;
        let ghost len0: int = remaining.raw as int;
        let ghost moves0: Seq<Value> = self.servo.moves();
        let ghost plan0: Seq<Value> = plan_moves(cfg, off0, len0);
        while remaining.raw > 0
            invariant
                self.wf(),
                pre == *old(self),
                pre.wf(),
                cfg == pre.config_spec(),
                off0 == pre.offset_raw(),
                moves0 == pre.moves(),
                plan0 == plan_moves(cfg, off0, len0),
                len0 % (RAW_2MM as int) == 0,
                len0 == (if length is Some {
                    length->0
                } else {
                    cfg.feed_length
                }).raw as int,
                override_error || cfg.ignore_feeback_pin || !pre.feedback_state(),
                self.config_spec() == cfg,
                self.enabled_spec() == pre.enabled_spec(),
                self.feedback_state() == pre.feedback_state(),
                self.servo_limits() == pre.servo_limits(),
                self.recognizer_last() == pre.recognizer_last(),
                forall|a: Value| self.angle_ok_spec(a) == pre.angle_ok_spec(a),
                forall|l: PwmLimits| self.limits_ok_spec(l) == pre.limits_ok_spec(l),
                remaining.raw as int % (RAW_2MM as int) == 0,
                len0 < 0 ==> remaining.raw as int == len0,
                len0 >= 0 ==> 0 <= remaining.raw as int <= len0,
                moves0 + plan0 == self.moves() + plan_moves(
                    cfg,
                    self.offset_raw(),
                    remaining.raw as int,
                ),
                plan_offset(cfg, off0, len0) == plan_offset(
                    cfg,
                    self.offset_raw(),
                    remaining.raw as int,
                ),
                moves0.len() <= self.moves().len(),
                !self.enabled_spec() ==> self.moves() == moves0 && self.offset_raw() == off0,
                forall|i: int|
                    moves0.len() <= i < self.moves().len() ==> self.angle_ok_spec(self.moves()[i]),
            decreases remaining.raw,
        {
            let ghost off_pre: int = self.offset_raw();
            let ghost len_pre: int = remaining.raw as int;
            let ghost moves_pre: Seq<Value> = self.moves();
            let ghost rest: Seq<Value> = plan_moves(cfg, off_pre, len_pre);
            let advance_length: Value = Value::from_raw(RAW_4MM - self.advance_offset.raw).min(
                remaining,
            );
            let advance_to: Value = self.advance_offset.add(advance_length);
            proof {
                assert(plan_step(off_pre, len_pre) == advance_length.raw as int);
                lemma_div2mm_sub(len_pre, advance_length.raw as int, off_pre);
            }
            let first_angle: Value = if advance_to.raw == RAW_2MM {
                self.config.half_advanced_angle
            } else {
                self.config.advanced_angle
            };
            let retracting: bool = self.config.always_retract || advance_to.raw == RAW_4MM;
            proof {
                if retracting {
                    assert(rest == seq![first_angle, cfg.retract_angle] + plan_moves(
                        cfg,
                        0,
                        len_pre - advance_length.raw,
                    ));
                } else {
                    assert(rest == seq![first_angle] + plan_moves(
                        cfg,
                        advance_to.raw as int,
                        len_pre - advance_length.raw,
                    ));
                }
                assert(rest.len() > 0);
            }
            match self.set_servo_angle(first_angle) {
                Ok(()) => {
                },
                Err(e) => {
                    proof {
                        lemma_prefix_split(moves0, plan0, self.moves(), rest);
                        assert(len0 > 0);
                        assert(plan_moves(cfg, pre.offset_raw(), len0) == plan0);
                        if self.enabled_spec() {
                            let d = self.moves().len() - moves0.len();
                            assert(0 <= d < plan0.len() && !pre.angle_ok_spec(plan0[d as int])
                                && self.moves() == pre.moves() + plan0.take(d as int));
                            assert(moved_prefix(pre, *self, plan0));
                            assert(!pre.plan_all_ok(plan0));
                        }
                    }
                    return Err(e);
                },
            }
            if retracting {
                let retract_angle: Value = self.config.retract_angle;
                match self.set_servo_angle(retract_angle) {
                    Ok(()) => {
                    },
                    Err(e) => {
                        proof {
                            let tail = plan_moves(cfg, 0, len_pre - advance_length.raw);
                            assert(moves_pre + rest =~= self.moves() + (seq![cfg.retract_angle]
                                + tail));
                            lemma_prefix_split(
                                moves0,
                                plan0,
                                self.moves(),
                                seq![cfg.retract_angle] + tail,
                            );
                            let d = self.moves().len() - moves0.len();
                            assert(0 <= d < plan0.len() && !pre.angle_ok_spec(plan0[d as int])
                                && self.moves() == pre.moves() + plan0.take(d as int));
                            assert(moved_prefix(pre, *self, plan0));
                            assert(!pre.plan_all_ok(plan0));
                        }
                        return Err(e);
                    },
                }
                self.advance_offset = Value::zero();
                proof {
                    let tail = plan_moves(cfg, 0, len_pre - advance_length.raw);
                    assert(self.moves() =~= moves_pre + seq![first_angle, cfg.retract_angle]);
                    assert(moves_pre + (seq![first_angle, cfg.retract_angle] + tail) =~= (moves_pre
                        + seq![first_angle, cfg.retract_angle]) + tail);
                }
            } else {
                self.advance_offset = advance_to;
                proof {
                    let tail = plan_moves(cfg, advance_to.raw as int, len_pre - advance_length.raw);
                    assert(self.moves() =~= moves_pre + seq![first_angle]);
                    assert(moves_pre + (seq![first_angle] + tail) =~= (moves_pre + seq![
                        first_angle,
                    ]) + tail);
                }
            }
            remaining = remaining.sub(advance_length);
        }
        self.feedback_recognizer.reset();
        proof {
            assert(plan_moves(cfg, self.offset_raw(), remaining.raw as int) =~= Seq::<
                Value,
            >::empty());
            assert(self.moves() =~= moves0 + plan0);
            if len0 > 0 {
                assert forall|i: int| 0 <= i < plan0.len() implies pre.angle_ok_spec(
                    plan0[i],
                ) by {
                    assert(self.moves()[moves0.len() + i] == plan0[i]);
                }
                assert(pre.plan_all_ok(plan0));
            }
        }
        Ok(())
    }

    /// Answers one request; the actor's dispatch.
    pub fn handle_command(&mut self, command: FeederCommand) -> (resp: FeederResponse)
        requires
            old(self).wf(),
        ensures
            final(self).wf(),
            match command {
                FeederCommand::SetConfig(config) => {
                    &&& final(self).moves() == old(self).moves()
                    &&& final(self).enabled_spec() == old(self).enabled_spec()
                    &&& final(self).offset_raw() == old(self).offset_raw()
                    &&& final(self).recognizer_last() == old(self).recognizer_last()
                    &&& final(self).feedback_state() == old(self).feedback_state()
                    &&& (forall|l: PwmLimits|
                        final(self).limits_ok_spec(l) == old(self).limits_ok_spec(l))
                    &&& (resp is Err ==> forall|a: Value|
                        final(self).angle_ok_spec(a) == old(self).angle_ok_spec(a))
                    &&& (resp is Ok <==> old(self).limits_ok_spec(
                        (PwmLimits { zero: config.pwm_0, one_eighty: config.pwm_180 }),
                    ))
                    &&& (resp is Ok ==> resp->Ok_0 is None && final(self).config_spec() == config
                        && final(self).servo_limits() == (PwmLimits {
                        zero: config.pwm_0,
                        one_eighty: config.pwm_180,
                    }) && (forall|a: Value|
                        final(self).angle_ok_spec(a) == S::angle_ok_at(
                            (PwmLimits { zero: config.pwm_0, one_eighty: config.pwm_180 }),
                            a,
                        )))
                    &&& (resp is Err ==> resp->Err_0 == Error::PwmValueOutOfRange && final(self).config_spec() == old(self).config_spec() && final(self).servo_limits() == old(
                        self,
                    ).servo_limits())
                },
                FeederCommand::GetConfig => {
                    &&& resp == Ok::<Option<FeederConfig>, Error>(Some(old(self).config_spec()))
                    &&& *final(self) == *old(self)
                },
                FeederCommand::SetServoAngle(angle) => {
                    &&& final(self).config_spec() == old(self).config_spec()
                    &&& final(self).enabled_spec() == old(self).enabled_spec()
                    &&& final(self).offset_raw() == old(self).offset_raw()
                    &&& final(self).recognizer_last() == old(self).recognizer_last()
                    &&& final(self).servo_limits() == old(self).servo_limits()
                    &&& final(self).feedback_state() == old(self).feedback_state()
                    &&& (forall|a: Value|
                        final(self).angle_ok_spec(a) == old(self).angle_ok_spec(a))
                    &&& (forall|l: PwmLimits|
                        final(self).limits_ok_spec(l) == old(self).limits_ok_spec(l))
                    &&& (!old(self).enabled_spec() ==> resp == Err::<Option<FeederConfig>, Error>(
                        Error::FeederDisabled,
                    ) && final(self).moves() == old(self).moves())
                    &&& (old(self).enabled_spec() ==> {
                        &&& (resp is Ok <==> old(self).angle_ok_spec(angle))
                        &&& (resp is Ok ==> resp->Ok_0 is None && final(self).moves() == old(
                            self,
                        ).moves().push(angle))
                        &&& (resp is Err ==> final(self).moves() == old(self).moves())
                    })
                },
                FeederCommand::Advance { length, override_error } => {
                    &&& final(self).config_spec() == old(self).config_spec()
                    &&& final(self).enabled_spec() == old(self).enabled_spec()
                    &&& final(self).servo_limits() == old(self).servo_limits()
                    &&& final(self).feedback_state() == old(self).feedback_state()
                    &&& (forall|a: Value|
                        final(self).angle_ok_spec(a) == old(self).angle_ok_spec(a))
                    &&& (forall|l: PwmLimits|
                        final(self).limits_ok_spec(l) == old(self).limits_ok_spec(l))
                    &&& (resp is Ok ==> resp->Ok_0 is None && advance_post(
                        *old(self),
                        *final(self),
                        length,
                        override_error,
                        Ok(()),
                    ))
                    &&& (resp is Err ==> advance_post(
                        *old(self),
                        *final(self),
                        length,
                        override_error,
                        Err(resp->Err_0),
                    ))
                },
                FeederCommand::Enable(state) => {
                    &&& resp == Ok::<Option<FeederConfig>, Error>(None::<FeederConfig>)
                    &&& final(self).enabled_spec() == state
                    &&& final(self).config_spec() == old(self).config_spec()
                    &&& final(self).moves() == old(self).moves()
                    &&& final(self).offset_raw() == old(self).offset_raw()
                    &&& final(self).recognizer_last() == old(self).recognizer_last()
                    &&& final(self).servo_limits() == old(self).servo_limits()
                    &&& final(self).feedback_state() == old(self).feedback_state()
                    &&& (forall|a: Value|
                        final(self).angle_ok_spec(a) == old(self).angle_ok_spec(a))
                    &&& (forall|l: PwmLimits|
                        final(self).limits_ok_spec(l) == old(self).limits_ok_spec(l))
                },
            },
    {
        match command {
            FeederCommand::SetConfig(config) => {
                match self.set_config(config) {
                    Ok(()) => Ok(None),
                    Err(e) => Err(e),
                }
            },
            FeederCommand::GetConfig => Ok(Some(self.get_config())),
            FeederCommand::SetServoAngle(angle) => {
                match self.set_servo_angle(angle) {
                    Ok(()) => Ok(None),
                    Err(e) => Err(e),
                }
            },
            FeederCommand::Advance { length, override_error } => {
                match self.advance(length, override_error) {
                    Ok(()) => Ok(None),
                    Err(e) => Err(e),
                }
            },
            FeederCommand::Enable(state) => {
                self.enable(state);
                Ok(None)
            },
        }
    }

    /// Reacts to a feedback level change at time `now`: records the new
    /// level and, on a qualifying pulse, feeds the default length with
    /// the feedback gate bypassed — the switch that triggered the pulse
    /// is expected to still read active.  Errors of that autonomous feed
    /// are dropped.
    pub fn handle_feedback_event(&mut self, now: u64)
        requires
            old(self).wf(),
        ensures
            final(self).wf(),
            final(self).config_spec() == old(self).config_spec(),
            final(self).enabled_spec() == old(self).enabled_spec(),
            final(self).feedback_state() == old(self).feedback_state(),
            final(self).servo_limits() == old(self).servo_limits(),
            forall|a: Value| final(self).angle_ok_spec(a) == old(self).angle_ok_spec(a),
            forall|l: PwmLimits| final(self).limits_ok_spec(l) == old(self).limits_ok_spec(l),
            feedback_event_post(*old(self), *final(self), now),
    {
        let state: bool = self.feedback.get_state();
        let fired: bool = self.feedback_recognizer.update(state, now);
        if fired {
            let _ = self.advance(None, true);
        }
    }
}

/// What reacting to one feedback level change does: the new reading is
/// recorded, and a qualifying pulse triggers one default-length feed
/// with the feedback gate bypassed.
pub open spec fn feedback_event_post<S: Servo, I: Input>(
    pre: Feeder<S, I>,
    post: Feeder<S, I>,
    now: u64,
) -> bool {
    let fired = spec_pulse(pre.recognizer_last(), pre.feedback_state(), now);
    let recorded = Some((pre.feedback_state(), now));
    let cfg = pre.config_spec();
    let len = cfg.feed_length.raw as int;
    let plan = plan_moves(cfg, pre.offset_raw(), len);
    if !fired {
        &&& post.moves() == pre.moves()
        &&& post.offset_raw() == pre.offset_raw()
        &&& post.recognizer_last() == recorded
    } else if len % (RAW_2MM as int) != 0 {
        &&& post.moves() == pre.moves()
        &&& post.offset_raw() == pre.offset_raw()
        &&& post.recognizer_last() == recorded
    } else if len <= 0 {
        &&& post.moves() == pre.moves()
        &&& post.offset_raw() == pre.offset_raw()
        &&& post.recognizer_last() is None
    } else if !pre.enabled_spec() {
        &&& post.moves() == pre.moves()
        &&& post.offset_raw() == pre.offset_raw()
        &&& post.recognizer_last() == recorded
    } else if pre.plan_all_ok(plan) {
        &&& post.moves() == pre.moves() + plan
        &&& post.offset_raw() == plan_offset(cfg, pre.offset_raw(), len)
        &&& post.recognizer_last() is None
    } else {
        &&& post.recognizer_last() == recorded
        &&& moved_prefix(pre, post, plan)
    }
}

/// The moves made before a feed stopped early: a proper prefix of the
/// plan, cut at an angle the servo refused.
pub open spec fn moved_prefix<S: Servo, I: Input>(
    pre: Feeder<S, I>,
    post: Feeder<S, I>,
    plan: Seq<Value>,
) -> bool {
    exists|k: int|
        0 <= k < plan.len() && !pre.angle_ok_spec(plan[k]) && post.moves() == pre.moves()
            + plan.take(k)
}

/// What `advance` does, from the feeder before to the feeder after: the
/// feedback gate, the divisibility rule, the disabled guard, and the
/// exact servo motion of a feed.
pub open spec fn advance_post<S: Servo, I: Input>(
    pre: Feeder<S, I>,
    post: Feeder<S, I>,
    length: Option<Value>,
    override_error: bool,
    r: Result<(), Error>,
) -> bool {
    let cfg = pre.config_spec();
    let eff = override_error || cfg.ignore_feeback_pin;
    let lenv = if length is Some {
        length->0
    } else {
        cfg.feed_length
    };
    let len = lenv.raw as int;
    let plan = plan_moves(cfg, pre.offset_raw(), len);
    if !eff && pre.feedback_state() {
        &&& r == Err::<(), Error>(Error::FeederNotReady)
        &&& post.moves() == pre.moves()
        &&& post.offset_raw() == pre.offset_raw()
        &&& post.recognizer_last() == pre.recognizer_last()
    } else if len % (RAW_2MM as int) != 0 {
        &&& r == Err::<(), Error>(Error::InvalidFeedLength(lenv))
        &&& post.moves() == pre.moves()
        &&& post.offset_raw() == pre.offset_raw()
        &&& post.recognizer_last() == pre.recognizer_last()
    } else if len <= 0 {
        &&& r is Ok
        &&& post.moves() == pre.moves()
        &&& post.offset_raw() == pre.offset_raw()
        &&& post.recognizer_last() is None
    } else if !pre.enabled_spec() {
        &&& r == Err::<(), Error>(Error::FeederDisabled)
        &&& post.moves() == pre.moves()
        &&& post.offset_raw() == pre.offset_raw()
        &&& post.recognizer_last() == pre.recognizer_last()
    } else if pre.plan_all_ok(plan) {
        &&& r is Ok
        &&& post.moves() == pre.moves() + plan
        &&& post.offset_raw() == plan_offset(cfg, pre.offset_raw(), len)
        &&& post.recognizer_last() is None
    } else {
        &&& r is Err
        &&& (r->Err_0 == Error::AngleOutOfRange || r->Err_0 == Error::FixedPointError)
        &&& post.recognizer_last() == pre.recognizer_last()
        &&& moved_prefix(pre, post, plan)
    }
}

/// The structural invariant, spelled out: a well-formed feeder's
/// advance offset is zero or two millimetres.
pub proof fn lemma_wf_offset<S: Servo, I: Input>(f: Feeder<S, I>)
    requires
        f.wf(),
    ensures
        f.offset_raw() == 0 || f.offset_raw() == RAW_2MM as int,
{
}

/// Whether a raw length is a whole multiple of two millimetres.
fn divisible_2mm(raw: i32) -> (r: bool)
    ensures
        r == (raw as int % (RAW_2MM as int) == 0),
{
    if raw >= 0 {
        raw % RAW_2MM == 0
    } else {
        let m: i64 = (-(raw as i64)) % (RAW_2MM as i64);
        proof {
            lemma_neg_divisible(raw as int, RAW_2MM as int);
        }
        m == 0
    }
}

/// A number and its negation are divisible by `d` together.
proof fn lemma_neg_divisible(x: int, d: int)
    requires
        d > 0,
    ensures
        (x % d == 0) <==> ((-x) % d == 0),
{
    lemma_fundamental_div_mod(x, d);
    lemma_fundamental_div_mod(-x, d);
    if x % d == 0 {
        assert(-x == (-(x / d)) * d + 0) by (nonlinear_arith)
            requires
                x == d * (x / d) + 0,
        ;
        lemma_fundamental_div_mod_converse(-x, d, -(x / d), 0);
    }
    if (-x) % d == 0 {
        assert(x == (-((-x) / d)) * d + 0) by (nonlinear_arith)
            requires
                -x == d * ((-x) / d) + 0,
        ;
        lemma_fundamental_div_mod_converse(x, d, -((-x) / d), 0);
    }
}

/// Taking one sub-step keeps the remaining length a multiple of two
/// millimetres.
proof fn lemma_div2mm_sub(len: int, step: int, off: int)
    requires
        len % (RAW_2MM as int) == 0,
        off == 0 || off == RAW_2MM as int,
        step == plan_step(off, len),
    ensures
        (len - step) % (RAW_2MM as int) == 0,
{
    let d = RAW_2MM as int;
    lemma_fundamental_div_mod(len, d);
    let q = len / d;
    if step == len {
        lemma_fundamental_div_mod_converse(len - step, d, 0, 0);
    } else {
        let s = (RAW_4MM as int) - off;
        assert(s == d || s == 2 * d);
        assert(len - s == (q - (s / d)) * d) by (nonlinear_arith)
            requires
                len == q * d,
                s == (s / d) * d,
                d != 0,
        ;
        lemma_fundamental_div_mod_converse(len - s, d, q - (s / d), 0);
    }
}

/// When a history equation `moves0 + plan0 == cur + rest` holds and
/// `rest` still has a move to make, the moves made so far are a prefix
/// of the plan and the next move is the next plan entry.
proof fn lemma_prefix_split(moves0: Seq<Value>, plan0: Seq<Value>, cur: Seq<Value>, rest: Seq<Value>)
    requires
        moves0 + plan0 == cur + rest,
        moves0.len() <= cur.len(),
        rest.len() > 0,
    ensures
        ({
            let d = cur.len() - moves0.len();
            &&& 0 <= d < plan0.len()
            &&& plan0[d as int] == rest[0]
            &&& cur == moves0 + plan0.take(d as int)
        }),
{
    let d = cur.len() - moves0.len();
    assert((moves0 + plan0).len() == moves0.len() + plan0.len());
    assert((cur + rest).len() == cur.len() + rest.len());
    assert(moves0.len() + plan0.len() == cur.len() + rest.len());
    assert(d < plan0.len());
    assert(plan0[d as int] == (moves0 + plan0)[moves0.len() + d]);
    assert((cur + rest)[moves0.len() + d] == rest[0]);
    assert(cur =~= moves0 + plan0.take(d as int)) by {
        assert forall|i: int| 0 <= i < cur.len() implies cur[i] == (moves0 + plan0.take(d as int))[i] by {
            assert(cur[i] == (cur + rest)[i]);
            assert((moves0 + plan0)[i] == (cur + rest)[i]);
        }
    };
}

} // verus!
