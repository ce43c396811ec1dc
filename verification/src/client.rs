//! The request/response protocol between dispatcher and feeder.
//!
//! A `FeederClient` issues exactly one `FeederCommand` per call and reads
//! exactly one `FeederResponse` back before returning — the
//! one-outstanding-request discipline.  The decode functions check the
//! response shape: a configuration where none was asked for, or none
//! where one was, is `InvalidFeederCommandResponse`.

use vstd::prelude::*;

use crate::error::Error;
use crate::feeder::advance_post;
use crate::feeder::feedback_event_post;
use crate::feeder::Feeder;
use crate::feeder::FeederCommand;
use crate::feeder::FeederConfig;
use crate::feeder::FeederResponse;
use crate::input::Input;
use crate::servo::PwmLimits;
use crate::servo::Servo;
use crate::value::Value;

verus! {

/// Reads a response to a request that carries no data back: `None` means
/// success, a configuration is a protocol violation.
pub fn decode_unit_response(resp: FeederResponse) -> (r: Result<(), Error>)
    ensures
        match resp {
            Ok(inner) => if inner is Some {
                r == Err::<(), Error>(Error::InvalidFeederCommandResponse)
            } else {
                r is Ok
            },
            Err(e) => r == Err::<(), Error>(e),
        },
{
    match resp {
        Ok(Some(_)) => Err(Error::InvalidFeederCommandResponse),
        Ok(None) => Ok(()),
        Err(e) => Err(e),
    }
}

/// Reads a response to a configuration request: only `Some(config)` is
/// the expected shape.
pub fn decode_config_response(resp: FeederResponse) -> (r: Result<FeederConfig, Error>)
    ensures
        match resp {
            Ok(inner) => match inner {
                Some(config) => r == Ok::<FeederConfig, Error>(config),
                None => r == Err::<FeederConfig, Error>(Error::InvalidFeederCommandResponse),
            },
            Err(e) => r == Err::<FeederConfig, Error>(e),
        },
{
    match resp {
        Ok(Some(config)) => Ok(config),
        Ok(None) => Err(Error::InvalidFeederCommandResponse),
        Err(e) => Err(e),
    }
}

/// The dispatcher's handle on one feeder.  It owns the feeder and drives
/// it one request at a time.
pub struct FeederClient<S: Servo, I: Input> {
    /// The feeder this handle drives.
    pub feeder: Feeder<S, I>,
}

impl<S: Servo, I: Input> FeederClient<S, I> {
    /// The configuration the feeder holds.
    pub open spec fn config_spec(&self) -> FeederConfig {
        self.feeder.config_spec()
    }

    /// Whether the feeder allows motion.
    pub open spec fn enabled_spec(&self) -> bool {
        self.feeder.enabled_spec()
    }

    /// The feeder's servo history.
    pub open spec fn moves(&self) -> Seq<Value> {
        self.feeder.moves()
    }

    /// The feeder's advance offset.
    pub open spec fn offset_raw(&self) -> int {
        self.feeder.offset_raw()
    }

    /// The PWM limits the feeder's servo holds.
    pub open spec fn servo_limits(&self) -> PwmLimits {
        self.feeder.servo_limits()
    }

    /// Which angles the feeder's servo accepts.
    pub open spec fn angle_ok_spec(&self, a: Value) -> bool {
        self.feeder.angle_ok_spec(a)
    }

    /// Which PWM limits the feeder's servo accepts.
    pub open spec fn limits_ok_spec(&self, l: PwmLimits) -> bool {
        self.feeder.limits_ok_spec(l)
    }

    /// The feeder's feedback level.
    pub open spec fn feedback_state(&self) -> bool {
        self.feeder.feedback_state()
    }

    /// The reading the feeder's pulse recognizer holds.
    pub open spec fn recognizer_last(&self) -> Option<(bool, u64)> {
        self.feeder.recognizer_last()
    }

    /// The feeder's structural invariant.
    pub open spec fn wf(&self) -> bool {
        self.feeder.wf()
    }

    /// Wraps a feeder for request/response use.
    pub fn new(feeder: Feeder<S, I>) -> (r: FeederClient<S, I>)
        ensures
            r.feeder == feeder,
    {
        FeederClient { feeder }
    }

    /// Drives the feeder for one feedback level change, as the task that
    /// waits on the input edge would.
    pub fn feedback_event(&mut self, now: u64)
        requires
            old(self).wf(),
        ensures
            final(self).wf(),
            final(self).config_spec() == old(self).config_spec(),
            final(self).enabled_spec() == old(self).enabled_spec(),
            final(self).feedback_state() == old(self).feedback_state(),
            final(self).servo_limits() == old(self).servo_limits(),
            forall|a: Value| final(self).angle_ok_spec(a) == old(self).angle_ok_spec(a),
            forall|l: PwmLimits| final(self).limits_ok_spec(l) == old(self).limits_ok_spec(l),
            feedback_event_post(old(self).feeder, final(self).feeder, now),
    {
        self.feeder.handle_feedback_event(now);
    }

    /// Replaces the feeder's configuration.
    pub fn set_config(&mut self, config: FeederConfig) -> (r: Result<(), Error>)
        requires
            old(self).wf(),
        ensures
            final(self).wf(),
            final(self).moves() == old(self).moves(),
            final(self).enabled_spec() == old(self).enabled_spec(),
            final(self).offset_raw() == old(self).offset_raw(),
            final(self).recognizer_last() == old(self).recognizer_last(),
            final(self).feedback_state() == old(self).feedback_state(),
            forall|l: PwmLimits| final(self).limits_ok_spec(l) == old(self).limits_ok_spec(l),
            r is Err ==> forall|a: Value|
                final(self).angle_ok_spec(a) == old(self).angle_ok_spec(a),
            r is Ok <==> old(self).limits_ok_spec(
                (PwmLimits { zero: config.pwm_0, one_eighty: config.pwm_180 }),
            ),
            r is Ok ==> final(self).config_spec() == config && final(self).servo_limits() == (
            PwmLimits { zero: config.pwm_0, one_eighty: config.pwm_180 }),
            r is Ok ==> forall|a: Value|
                final(self).angle_ok_spec(a) == S::angle_ok_at(
                    (PwmLimits { zero: config.pwm_0, one_eighty: config.pwm_180 }),
                    a,
                ),
            r is Err ==> r->Err_0 == Error::PwmValueOutOfRange && final(self).config_spec() == old(self).config_spec() && final(self).servo_limits() == old(self).servo_limits(),
    {
        let resp = self.feeder.handle_command(FeederCommand::SetConfig(config));
        decode_unit_response(resp)
    }

    /// Reads the feeder's configuration back.
    pub fn get_config(&mut self) -> (r: Result<FeederConfig, Error>)
        requires
            old(self).wf(),
        ensures
            final(self).wf(),
            *final(self) == *old(self),
            r == Ok::<FeederConfig, Error>(old(self).config_spec()),
    {
        let resp = self.feeder.handle_command(FeederCommand::GetConfig);
        decode_config_response(resp)
    }

    /// Moves the feeder's servo to an angle.
    pub fn set_servo_angle(&mut self, angle: Value) -> (r: Result<(), Error>)
        requires
            old(self).wf(),
        ensures
            final(self).wf(),
            final(self).config_spec() == old(self).config_spec(),
            final(self).enabled_spec() == old(self).enabled_spec(),
            final(self).offset_raw() == old(self).offset_raw(),
            final(self).recognizer_last() == old(self).recognizer_last(),
            final(self).servo_limits() == old(self).servo_limits(),
            final(self).feedback_state() == old(self).feedback_state(),
            forall|a: Value| final(self).angle_ok_spec(a) == old(self).angle_ok_spec(a),
            forall|l: PwmLimits| final(self).limits_ok_spec(l) == old(self).limits_ok_spec(l),
            !old(self).enabled_spec() ==> r == Err::<(), Error>(Error::FeederDisabled) && final(self).moves() == old(self).moves(),
            old(self).enabled_spec() ==> {
                &&& (r is Ok <==> old(self).angle_ok_spec(angle))
                &&& (r is Ok ==> final(self).moves() == old(self).moves().push(angle))
                &&& (r is Err ==> final(self).moves() == old(self).moves())
            },
    {
        let resp = self.feeder.handle_command(FeederCommand::SetServoAngle(angle));
        decode_unit_response(resp)
    }

    /// Feeds the tape; see `advance_post` for everything this does.
    pub fn advance(&mut self, length: Option<Value>, override_error: bool) -> (r: Result<
        (),
        Error,
    >)
        requires
            old(self).wf(),
        ensures
            final(self).wf(),
            final(self).offset_raw() == 0 || final(self).offset_raw()
                == crate::feeder::RAW_2MM as int,
            final(self).config_spec() == old(self).config_spec(),
            final(self).enabled_spec() == old(self).enabled_spec(),
            final(self).servo_limits() == old(self).servo_limits(),
            final(self).feedback_state() == old(self).feedback_state(),
            forall|a: Value| final(self).angle_ok_spec(a) == old(self).angle_ok_spec(a),
            forall|l: PwmLimits| final(self).limits_ok_spec(l) == old(self).limits_ok_spec(l),
            r is Ok ==> advance_post(
                old(self).feeder,
                final(self).feeder,
                length,
                override_error,
                Ok(()),
            ),
            r is Err ==> r->Err_0 != Error::InvalidFeederCommandResponse && advance_post(
                old(self).feeder,
                final(self).feeder,
                length,
                override_error,
                Err(r->Err_0),
            ),
    {
        let resp = self.feeder.handle_command(
            FeederCommand::Advance { length, override_error },
        );
        proof {
            crate::feeder::lemma_wf_offset(self.feeder);
        }
        decode_unit_response(resp)
    }

    /// Allows or forbids motion; never fails.
    pub fn enable(&mut self, state: bool) -> (r: Result<(), Error>)
        requires
            old(self).wf(),
        ensures
            final(self).wf(),
            r is Ok,
            final(self).enabled_spec() == state,
            final(self).config_spec() == old(self).config_spec(),
            final(self).moves() == old(self).moves(),
            final(self).offset_raw() == old(self).offset_raw(),
            final(self).recognizer_last() == old(self).recognizer_last(),
            final(self).servo_limits() == old(self).servo_limits(),
            final(self).feedback_state() == old(self).feedback_state(),
            forall|a: Value| final(self).angle_ok_spec(a) == old(self).angle_ok_spec(a),
            forall|l: PwmLimits| final(self).limits_ok_spec(l) == old(self).limits_ok_spec(l),
    {
        let resp = self.feeder.handle_command(FeederCommand::Enable(state));
        decode_unit_response(resp)
    }
}

} // verus!
