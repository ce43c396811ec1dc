//! The servo capability interface, angle scaling, and a recording servo.
//!
//! A feeder owns exactly one `Servo`.  The trait carries the contract the
//! feeder logic is verified against: every accepted angle is appended to
//! the history of moves, and the PWM limits behave like a stored value.
//! `SimServo` is the library's own verified implementation; it records
//! moves so that tests and simulators can observe motion.  A hardware
//! implementation lives outside the library and is not checked.

use vstd::prelude::*;

use crate::error::Error;
use crate::value::Value;

verus! {

/// PWM counts at the zero-degree and the one-hundred-eighty-degree end.
#[derive(Clone, Copy, Debug, PartialEq, Eq, Structural)]
pub struct PwmLimits {
    pub zero: Value,
    pub one_eighty: Value,
}

/// The scaling rule of `PwmLimits::scale_angle` on raw representations:
/// `zero + (one_eighty - zero) * angle / 180`, computed in fixed point
/// with each intermediate rounded toward minus infinity, rejected when
/// the angle is outside zero to one hundred eighty degrees or the counts
/// leave the thirty-two-bit raw range.
pub open spec fn spec_scale_angle(zero: int, one_eighty: int, angle: int) -> Result<int, Error> {
    if !(0 <= angle && angle <= 180 * 65536) {
        Err(Error::AngleOutOfRange)
    } else {
        let m = ((one_eighty - zero) * angle) / 65536;
        let counts = zero + m / 180;
        if i32::MIN <= counts && counts <= i32::MAX {
            Ok(counts)
        } else {
            Err(Error::FixedPointError)
        }
    }
}

impl PwmLimits {
    /// The PWM count for `angle` degrees, interpolated between the two
    /// limit counts.
    pub fn scale_angle(&self, angle: Value) -> (r: Result<Value, Error>)
        ensures
            match r {
                Ok(v) => spec_scale_angle(self.zero.raw as int, self.one_eighty.raw as int, angle.raw as int)
                    == Ok::<int, Error>(v.raw as int),
                Err(e) => spec_scale_angle(self.zero.raw as int, self.one_eighty.raw as int, angle.raw as int)
                    == Err::<int, Error>(e),
            },
    {
        if angle.raw < 0 || angle.raw > 180 * 65536 {
            return Err(Error::AngleOutOfRange);
        }
        let range: i64 = self.one_eighty.raw as i64 - self.zero.raw as i64;
        proof {
            assert(-0x100000000i64 * 0xB40000i64 <= (range as int) * (angle.raw as int)
                <= 0x100000000i64 * 0xB40000i64) by (nonlinear_arith)
                requires
                    -0x100000000 <= range as int <= 0x100000000,
                    0 <= angle.raw as int <= 0xB40000,
            ;
        }
        let prod: i64 = range * angle.raw as i64;
        let m: i64 = floor_div(prod, 65536);
        let d: i64 = floor_div(m, 180);
        let counts: i64 = self.zero.raw as i64 + d;
        if counts < i32::MIN as i64 || counts > i32::MAX as i64 {
            return Err(Error::FixedPointError);
        }
        Ok(Value { raw: counts as i32 })
    }
}

/// Division rounded toward minus infinity, matching the mathematical
/// integer division of the specification language.
fn floor_div(p: i64, d: i64) -> (r: i64)
    requires
        d > 0,
        -0x4000_0000_0000_0000 < p < 0x4000_0000_0000_0000,
        d <= 0x10000,
    ensures
        r == p as int / d as int,
{
    if p >= 0 {
        p / d
    } else {
        let q: i64 = (-p - 1) / d;
        proof {
            lemma_floor_div_neg(p as int, d as int);
        }
        -q - 1
    }
}

/// For negative `p`, `p / d` rounded toward minus infinity equals
/// `-((-p - 1) / d) - 1`.
proof fn lemma_floor_div_neg(p: int, d: int)
    requires
        p < 0,
        d > 0,
    ensures
        p / d == -((-p - 1) / d) - 1,
{
    let q = (-p - 1) / d;
    let r = (-p - 1) % d;
    vstd::arithmetic::div_mod::lemma_fundamental_div_mod(-p - 1, d);
    assert(-p - 1 == q * d + r);
    assert(p == (-q - 1) * d + (d - 1 - r)) by (nonlinear_arith)
        requires
            -p - 1 == q * d + r,
    ;
    vstd::arithmetic::div_mod::lemma_fundamental_div_mod_converse(p, d, -q - 1, d - 1 - r);
}

/// What a feeder asks of its servo.  `moves` is the history of accepted
/// target angles, oldest first; it is how motion is observed and what the
/// feed contracts speak about.
pub trait Servo: Sized {
    /// Every angle the servo has accepted, oldest first.
    spec fn moves(&self) -> Seq<Value>;

    /// The PWM limits currently in force.
    spec fn pwm_limits(&self) -> PwmLimits;

    /// Which target angles the servo accepts right now.
    spec fn angle_ok(&self, angle: Value) -> bool;

    /// Which target angles a servo holding `limits` accepts: angle
    /// acceptance is a function of the limits alone.
    spec fn angle_ok_at(limits: PwmLimits, angle: Value) -> bool;

    /// Which PWM limits the servo accepts.
    spec fn limits_ok(&self, limits: PwmLimits) -> bool;

    /// Moves to `angle`: accepted angles are appended to the history,
    /// rejected ones change nothing.
    fn set_angle(&mut self, angle: Value) -> (r: Result<(), Error>)
        ensures
            r is Ok <==> old(self).angle_ok(angle),
            r is Ok ==> final(self).moves() == old(self).moves().push(angle),
            r is Err ==> final(self).moves() == old(self).moves() && (r->Err_0
                == Error::AngleOutOfRange || r->Err_0 == Error::FixedPointError),
            final(self).pwm_limits() == old(self).pwm_limits(),
            forall|a: Value| final(self).angle_ok(a) == old(self).angle_ok(a),
            forall|l: PwmLimits| final(self).limits_ok(l) == old(self).limits_ok(l),
    ;

    /// Replaces the PWM limits; a rejected pair leaves everything as it
    /// was.
    fn set_pwm_limits(&mut self, limits: PwmLimits) -> (r: Result<(), Error>)
        ensures
            r is Ok <==> old(self).limits_ok(limits),
            r is Ok ==> final(self).pwm_limits() == limits,
            r is Ok ==> forall|a: Value|
                final(self).angle_ok(a) == Self::angle_ok_at(limits, a),
            r is Err ==> final(self).pwm_limits() == old(self).pwm_limits() && r->Err_0
                == Error::PwmValueOutOfRange && (forall|a: Value|
                final(self).angle_ok(a) == old(self).angle_ok(a)),
            final(self).moves() == old(self).moves(),
            forall|l: PwmLimits| final(self).limits_ok(l) == old(self).limits_ok(l),
    ;

    /// Reads the PWM limits in force.
    fn get_pwm_limits(&self) -> (r: PwmLimits)
        ensures
            r == self.pwm_limits(),
    ;
}

/// The largest PWM count a `SimServo` accepts as a limit, as a raw
/// fixed-point representation: 9804 counts, one full period.
pub const SIM_COUNTS_PER_PERIOD_RAW: i32 = 0x264C0000;

/// A servo that records every accepted move.  It accepts every target
/// angle, and PWM limits up to one full period, like the bench supply the
/// controller was written for.
pub struct SimServo {
    limits: PwmLimits,
    moves: Vec<Value>,
}

impl SimServo {
    /// A recording servo starting from the given limits, with no moves
    /// recorded.
    pub fn new(limits: PwmLimits) -> (r: SimServo)
        ensures
            r.pwm_limits() == limits,
            r.moves() == Seq::<Value>::empty(),
    {
        SimServo { limits, moves: Vec::new() }
    }

    /// The recorded moves, for tests and simulators.
    pub fn recorded(&self) -> (r: &Vec<Value>)
        ensures
            r@ == self.moves(),
    {
        &self.moves
    }
}

impl Servo for SimServo {
    closed spec fn moves(&self) -> Seq<Value> {
        self.moves@
    }

    closed spec fn pwm_limits(&self) -> PwmLimits {
        self.limits
    }

    open spec fn angle_ok(&self, angle: Value) -> bool {
        true
    }

    open spec fn angle_ok_at(limits: PwmLimits, angle: Value) -> bool {
        true
    }

    open spec fn limits_ok(&self, limits: PwmLimits) -> bool {
        limits.zero.raw <= SIM_COUNTS_PER_PERIOD_RAW && limits.one_eighty.raw
            <= SIM_COUNTS_PER_PERIOD_RAW
    }

    fn set_angle(&mut self, angle: Value) -> (r: Result<(), Error>) {
        self.moves.push(angle);
        Ok(())
    }

    fn set_pwm_limits(&mut self, limits: PwmLimits) -> (r: Result<(), Error>) {
        if limits.zero.raw > SIM_COUNTS_PER_PERIOD_RAW || limits.one_eighty.raw
            > SIM_COUNTS_PER_PERIOD_RAW {
            return Err(Error::PwmValueOutOfRange);
        }
        self.limits = limits;
        Ok(())
    }

    fn get_pwm_limits(&self) -> (r: PwmLimits) {
        self.limits
    }
}

} // verus!
