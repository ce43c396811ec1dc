//! The top-level command dispatcher.
//!
//! One `GCodeHandler` consumes connection and line events, parses each
//! command line's arguments, routes requests to the right feeder, and
//! writes exactly one reply line — `ok` or `error: <message>` — for
//! every processed command line.  On connect it reports every feeder's
//! configuration; on disconnect it disables every feeder.

use vstd::prelude::*;

use crate::client::FeederClient;
use crate::error::spec_message;
use crate::error::Error;
use crate::feeder::advance_post;
use crate::feeder::FeederConfig;
use crate::gcode::Line;
use crate::gcode::Word;
use crate::input::Input;
use crate::servo::PwmLimits;
use crate::servo::Servo;
use crate::sink::OutputSink;
use crate::store::ConfigStore;
use crate::text::dec_str;
use crate::text::spec_fmt_value;
use crate::value::spec_to_index;
use crate::value::spec_to_u32;
use crate::value::Value;

verus! {

/// One event of the connection lifecycle.
pub enum GCodeEvent {
    /// The host link came up.
    Connect,
    /// The host link went away.
    Disconnect,
    /// One parsed command line arrived.
    Line(Line),
}

/// Whether `w` is the command word `M<n>`.
pub open spec fn is_cmd(w: Word, n: int) -> bool {
    w.letter == 'M' && w.value.raw == n * 65536
}

/// The reply written for a handled line.
pub open spec fn reply_of(r: Result<(), Error>) -> Seq<char> {
    match r {
        Ok(_) => "ok\n"@,
        Err(e) => "error: "@ + spec_message(e) + "\n"@,
    }
}

/// `1` or `0`, the text of a flag in a configuration report.
pub open spec fn bit_text(b: bool) -> Seq<char> {
    if b {
        "1"@
    } else {
        "0"@
    }
}

/// The status line reporting feeder `index`'s configuration, in the
/// shape of the set-configuration command that would restore it.
#[verifier::opaque]
pub open spec fn config_line_text(index: int, cfg: FeederConfig) -> Seq<char> {
    "M620 N"@ + dec_str(index) + " A"@ + spec_fmt_value(cfg.advanced_angle.raw as int) + " B"@
        + spec_fmt_value(cfg.half_advanced_angle.raw as int) + " C"@ + spec_fmt_value(
        cfg.retract_angle.raw as int,
    ) + " F"@ + spec_fmt_value(cfg.feed_length.raw as int) + " U"@ + dec_str(
        cfg.settle_time as int,
    ) + " V"@ + spec_fmt_value(cfg.pwm_0.raw as int) + " W"@ + spec_fmt_value(
        cfg.pwm_180.raw as int,
    ) + " X"@ + bit_text(cfg.ignore_feeback_pin) + " Y"@ + bit_text(cfg.always_retract) + "\n"@
}

/// What one sink went through: it kept its health, and it holds the old
/// text plus `text` when healthy, the old text alone when not.
pub open spec fn wrote<O: OutputSink>(pre: O, post: O, text: Seq<char>) -> bool {
    &&& post.sink_ok() == pre.sink_ok()
    &&& (pre.sink_ok() ==> post.written() == pre.written() + text)
    &&& (!pre.sink_ok() ==> post.written() == pre.written())
}

/// Which feeder an optional index argument names: no argument is
/// `NoIndex`, a negative or too-large one is `InvalidIndex`.
pub open spec fn resolve_spec(index: Option<Value>, n: int) -> Result<int, Error> {
    match index {
        None => Err(Error::NoIndex),
        Some(v) => match spec_to_index(v.raw as int) {
            None => Err(Error::InvalidIndex(0)),
            Some(i) => if i as int >= n {
                Err(Error::InvalidIndex(i))
            } else {
                Ok(i as int)
            },
        },
    }
}

/// The arguments of a feed command.
#[derive(Clone, Copy)]
pub struct M600Args {
    /// `N`: which feeder.
    pub index: Option<Value>,
    /// `F`: feed length override.
    pub feed_length: Option<Value>,
    /// `X`: bypass the feedback gate.
    pub override_error: bool,
}

/// Reads the first `n` argument words of a feed command; the first
/// unknown letter fails the whole line.
pub open spec fn m600_fold(args: Seq<Word>, n: int) -> Result<M600Args, char>
    decreases n,
{
    if n <= 0 {
        Ok(M600Args { index: None, feed_length: None, override_error: false })
    } else {
        match m600_fold(args, n - 1) {
            Err(c) => Err(c),
            Ok(a) => {
                let w = args[n - 1];
                if w.letter == 'N' {
                    Ok(M600Args { index: Some(w.value), ..a })
                } else if w.letter == 'F' {
                    Ok(M600Args { feed_length: Some(w.value), ..a })
                } else if w.letter == 'X' {
                    Ok(M600Args { override_error: w.value.raw != 0, ..a })
                } else {
                    Err(w.letter)
                }
            },
        }
    }
}

/// The arguments of a move command.
#[derive(Clone, Copy)]
pub struct M603Args {
    /// `N`: which feeder.
    pub index: Option<Value>,
    /// `A`: the target angle.
    pub angle: Option<Value>,
}

/// Reads the first `n` argument words of a move command.
pub open spec fn m603_fold(args: Seq<Word>, n: int) -> Result<M603Args, char>
    decreases n,
{
    if n <= 0 {
        Ok(M603Args { index: None, angle: None })
    } else {
        match m603_fold(args, n - 1) {
            Err(c) => Err(c),
            Ok(a) => {
                let w = args[n - 1];
                if w.letter == 'N' {
                    Ok(M603Args { index: Some(w.value), ..a })
                } else if w.letter == 'A' {
                    Ok(M603Args { angle: Some(w.value), ..a })
                } else {
                    Err(w.letter)
                }
            },
        }
    }
}

/// Reads the first `n` argument words of an enable command: `S`
/// non-zero enables, zero disables.
pub open spec fn m610_fold(args: Seq<Word>, n: int) -> Result<Option<bool>, char>
    decreases n,
{
    if n <= 0 {
        Ok(None)
    } else {
        match m610_fold(args, n - 1) {
            Err(c) => Err(c),
            Ok(a) => {
                let w = args[n - 1];
                if w.letter == 'S' {
                    Ok(Some(w.value.raw != 0))
                } else {
                    Err(w.letter)
                }
            },
        }
    }
}

/// Reads the first `n` argument words of a report command: `N` names
/// the feeder.
pub open spec fn m621_fold(args: Seq<Word>, n: int) -> Result<Option<Value>, char>
    decreases n,
{
    if n <= 0 {
        Ok(None)
    } else {
        match m621_fold(args, n - 1) {
            Err(c) => Err(c),
            Ok(a) => {
                let w = args[n - 1];
                if w.letter == 'N' {
                    Ok(Some(w.value))
                } else {
                    Err(w.letter)
                }
            },
        }
    }
}

/// The arguments of a set-configuration command; every field is
/// optional and missing ones keep their current value.
#[derive(Clone, Copy)]
pub struct M620Args {
    /// `N`: which feeder.
    pub index: Option<Value>,
    /// `A`: full-advance angle.
    pub advanced_angle: Option<Value>,
    /// `B`: half-advance angle.
    pub half_advanced_angle: Option<Value>,
    /// `C`: retract angle.
    pub retract_angle: Option<Value>,
    /// `F`: default feed length.
    pub feed_length: Option<Value>,
    /// `U`: settle time in milliseconds.
    pub settle_time: Option<Value>,
    /// `V`: PWM count at zero degrees.
    pub pwm_0: Option<Value>,
    /// `W`: PWM count at one hundred eighty degrees.
    pub pwm_180: Option<Value>,
    /// `X`: ignore the feedback pin.
    pub ignore_feeback_pin: Option<bool>,
    /// `Y`: retract after every sub-step.
    pub always_retract: Option<bool>,
}

/// A set-configuration command with nothing given yet.
pub open spec fn m620_empty() -> M620Args {
    M620Args {
        index: None,
        advanced_angle: None,
        half_advanced_angle: None,
        retract_angle: None,
        feed_length: None,
        settle_time: None,
        pwm_0: None,
        pwm_180: None,
        ignore_feeback_pin: None,
        always_retract: None,
    }
}

/// Reads the first `n` argument words of a set-configuration command.
pub open spec fn m620_fold(args: Seq<Word>, n: int) -> Result<M620Args, char>
    decreases n,
{
    if n <= 0 {
        Ok(m620_empty())
    } else {
        match m620_fold(args, n - 1) {
            Err(c) => Err(c),
            Ok(a) => {
                let w = args[n - 1];
                if w.letter == 'N' {
                    Ok(M620Args { index: Some(w.value), ..a })
                } else if w.letter == 'A' {
                    Ok(M620Args { advanced_angle: Some(w.value), ..a })
                } else if w.letter == 'B' {
                    Ok(M620Args { half_advanced_angle: Some(w.value), ..a })
                } else if w.letter == 'C' {
                    Ok(M620Args { retract_angle: Some(w.value), ..a })
                } else if w.letter == 'F' {
                    Ok(M620Args { feed_length: Some(w.value), ..a })
                } else if w.letter == 'U' {
                    Ok(M620Args { settle_time: Some(w.value), ..a })
                } else if w.letter == 'V' {
                    Ok(M620Args { pwm_0: Some(w.value), ..a })
                } else if w.letter == 'W' {
                    Ok(M620Args { pwm_180: Some(w.value), ..a })
                } else if w.letter == 'X' {
                    Ok(M620Args { ignore_feeback_pin: Some(w.value.raw != 0), ..a })
                } else if w.letter == 'Y' {
                    Ok(M620Args { always_retract: Some(w.value.raw != 0), ..a })
                } else {
                    Err(w.letter)
                }
            },
        }
    }
}

/// The configuration after applying the given fields over `cfg`.
pub open spec fn m620_merge(cfg: FeederConfig, a: M620Args) -> FeederConfig {
    FeederConfig {
        advanced_angle: if a.advanced_angle is Some {
            a.advanced_angle->0
        } else {
            cfg.advanced_angle
        },
        half_advanced_angle: if a.half_advanced_angle is Some {
            a.half_advanced_angle->0
        } else {
            cfg.half_advanced_angle
        },
        retract_angle: if a.retract_angle is Some {
            a.retract_angle->0
        } else {
            cfg.retract_angle
        },
        feed_length: if a.feed_length is Some {
            a.feed_length->0
        } else {
            cfg.feed_length
        },
        settle_time: if a.settle_time is Some {
            spec_to_u32(a.settle_time->0.raw as int)
        } else {
            cfg.settle_time
        },
        pwm_0: if a.pwm_0 is Some {
            a.pwm_0->0
        } else {
            cfg.pwm_0
        },
        pwm_180: if a.pwm_180 is Some {
            a.pwm_180->0
        } else {
            cfg.pwm_180
        },
        ignore_feeback_pin: if a.ignore_feeback_pin is Some {
            a.ignore_feeback_pin->0
        } else {
            cfg.ignore_feeback_pin
        },
        always_retract: if a.always_retract is Some {
            a.always_retract->0
        } else {
            cfg.always_retract
        },
    }
}

/// The dispatcher: the sole owner of the feeders, the reply sink and
/// the configuration store.
pub struct GCodeHandler<S: Servo, I: Input, C: ConfigStore, O: OutputSink> {
    /// The feeders, by index.
    pub feeders: Vec<FeederClient<S, I>>,
    /// Where replies and reports go.
    pub output: O,
    /// Where configurations persist.
    pub config_store: C,
}

impl<S: Servo, I: Input, C: ConfigStore, O: OutputSink> GCodeHandler<S, I, C, O> {
    /// Every feeder's structural invariant.
    pub open spec fn feeders_wf(&self) -> bool {
        forall|i: int| 0 <= i < self.feeders@.len() ==> self.feeders@[i].wf()
    }

    /// Wraps the collaborators for dispatch.
    pub fn new(feeders: Vec<FeederClient<S, I>>, output: O, config_store: C) -> (r: GCodeHandler<
        S,
        I,
        C,
        O,
    >)
        ensures
            r.feeders == feeders,
            r.output == output,
            r.config_store == config_store,
    {
        GCodeHandler { feeders, output, config_store }
    }

    /// Turns an optional index argument into a feeder index, as
    /// `resolve_spec` says.
    fn resolve_feeder(&self, index: Option<Value>) -> (r: Result<usize, Error>)
        ensures
            match r {
                Ok(i) => resolve_spec(index, self.feeders@.len() as int) == Ok::<int, Error>(
                    i as int,
                ) && i < self.feeders@.len(),
                Err(e) => resolve_spec(index, self.feeders@.len() as int) == Err::<int, Error>(e),
            },
    {
        let v: Value = match index {
            None => {
                return Err(Error::NoIndex);
            },
            Some(v) => v,
        };
        let i: usize = match v.to_index() {
            None => {
                return Err(Error::InvalidIndex(0));
            },
            Some(i) => i,
        };
        if i >= self.feeders.len() {
            return Err(Error::InvalidIndex(i));
        }
        Ok(i)
    }
}

/// A fold that failed on some prefix fails the same way on the whole.
proof fn lemma_m600_fold_err(args: Seq<Word>, i: int, n: int)
    requires
        0 <= i <= n,
        m600_fold(args, i) is Err,
    ensures
        m600_fold(args, n) == m600_fold(args, i),
    decreases n - i,
{
    if i < n {
        lemma_m600_fold_err(args, i, n - 1);
    }
}

/// A fold that failed on some prefix fails the same way on the whole.
proof fn lemma_m603_fold_err(args: Seq<Word>, i: int, n: int)
    requires
        0 <= i <= n,
        m603_fold(args, i) is Err,
    ensures
        m603_fold(args, n) == m603_fold(args, i),
    decreases n - i,
{
    if i < n {
        lemma_m603_fold_err(args, i, n - 1);
    }
}

/// A fold that failed on some prefix fails the same way on the whole.
proof fn lemma_m610_fold_err(args: Seq<Word>, i: int, n: int)
    requires
        0 <= i <= n,
        m610_fold(args, i) is Err,
    ensures
        m610_fold(args, n) == m610_fold(args, i),
    decreases n - i,
{
    if i < n {
        lemma_m610_fold_err(args, i, n - 1);
    }
}

/// A fold that failed on some prefix fails the same way on the whole.
proof fn lemma_m620_fold_err(args: Seq<Word>, i: int, n: int)
    requires
        0 <= i <= n,
        m620_fold(args, i) is Err,
    ensures
        m620_fold(args, n) == m620_fold(args, i),
    decreases n - i,
{
    if i < n {
        lemma_m620_fold_err(args, i, n - 1);
    }
}

/// A fold that failed on some prefix fails the same way on the whole.
proof fn lemma_m621_fold_err(args: Seq<Word>, i: int, n: int)
    requires
        0 <= i <= n,
        m621_fold(args, i) is Err,
    ensures
        m621_fold(args, n) == m621_fold(args, i),
    decreases n - i,
{
    if i < n {
        lemma_m621_fold_err(args, i, n - 1);
    }
}

/// The untouched parts of one feeder across a command: everything but
/// the servo history.
pub open spec fn same_but_moves<S: Servo, I: Input>(
    pre: FeederClient<S, I>,
    post: FeederClient<S, I>,
) -> bool {
    &&& post.config_spec() == pre.config_spec()
    &&& post.enabled_spec() == pre.enabled_spec()
    &&& post.offset_raw() == pre.offset_raw()
    &&& post.recognizer_last() == pre.recognizer_last()
    &&& post.servo_limits() == pre.servo_limits()
    &&& post.feedback_state() == pre.feedback_state()
    &&& (forall|a: Value| post.angle_ok_spec(a) == pre.angle_ok_spec(a))
    &&& (forall|l: PwmLimits| post.limits_ok_spec(l) == pre.limits_ok_spec(l))
}

/// The untouched parts of one feeder across an enable command:
/// everything but the enabled flag.
pub open spec fn same_after_enable<S: Servo, I: Input>(
    pre: FeederClient<S, I>,
    post: FeederClient<S, I>,
    state: bool,
) -> bool {
    &&& post.enabled_spec() == state
    &&& post.config_spec() == pre.config_spec()
    &&& post.moves() == pre.moves()
    &&& post.offset_raw() == pre.offset_raw()
    &&& post.recognizer_last() == pre.recognizer_last()
    &&& post.servo_limits() == pre.servo_limits()
    &&& post.feedback_state() == pre.feedback_state()
    &&& (forall|a: Value| post.angle_ok_spec(a) == pre.angle_ok_spec(a))
    &&& (forall|l: PwmLimits| post.limits_ok_spec(l) == pre.limits_ok_spec(l))
}

/// The untouched parts of one feeder across a feed: everything a feed
/// leaves alone, whatever its outcome.
pub open spec fn advance_frame<S: Servo, I: Input>(
    pre: FeederClient<S, I>,
    post: FeederClient<S, I>,
) -> bool {
    &&& post.config_spec() == pre.config_spec()
    &&& post.enabled_spec() == pre.enabled_spec()
    &&& post.servo_limits() == pre.servo_limits()
    &&& post.feedback_state() == pre.feedback_state()
    &&& (forall|a: Value| post.angle_ok_spec(a) == pre.angle_ok_spec(a))
    &&& (forall|l: PwmLimits| post.limits_ok_spec(l) == pre.limits_ok_spec(l))
}

/// What the enable-all command does to the feeders.
pub open spec fn m610_post<S: Servo, I: Input>(
    pre: Seq<FeederClient<S, I>>,
    post: Seq<FeederClient<S, I>>,
    line: Line,
    r: Result<(), Error>,
) -> bool {
    match m610_fold(line.arguments@, line.arguments@.len() as int) {
        Err(c) => r == Err::<(), Error>(Error::InvalidArgument(c)) && post == pre,
        Ok(st) => match st {
            None => r is Ok && post == pre,
            Some(s) => {
                &&& r is Ok
                &&& post.len() == pre.len()
                &&& forall|i: int| 0 <= i < pre.len() ==> same_after_enable(pre[i], post[i], s)
            },
        },
    }
}

/// What the move command does to the feeders.
pub open spec fn m603_post<S: Servo, I: Input>(
    pre: Seq<FeederClient<S, I>>,
    post: Seq<FeederClient<S, I>>,
    line: Line,
    r: Result<(), Error>,
) -> bool {
    match m603_fold(line.arguments@, line.arguments@.len() as int) {
        Err(c) => r == Err::<(), Error>(Error::InvalidArgument(c)) && post == pre,
        Ok(a) => match resolve_spec(a.index, pre.len() as int) {
            Err(e) => r == Err::<(), Error>(e) && post == pre,
            Ok(i) => match a.angle {
                None => r is Ok && post == pre,
                Some(angle) => {
                    &&& post.len() == pre.len()
                    &&& (forall|j: int| 0 <= j < pre.len() && j != i ==> post[j] == pre[j])
                    &&& same_but_moves(pre[i], post[i])
                    &&& (!pre[i].enabled_spec() ==> r == Err::<(), Error>(Error::FeederDisabled)
                        && post[i].moves() == pre[i].moves())
                    &&& (pre[i].enabled_spec() ==> {
                        &&& (r is Ok <==> pre[i].angle_ok_spec(angle))
                        &&& (r is Ok ==> post[i].moves() == pre[i].moves().push(angle))
                        &&& (r is Err ==> post[i].moves() == pre[i].moves())
                    })
                },
            },
        },
    }
}

/// What the feed command does to the feeders.
pub open spec fn m600_post<S: Servo, I: Input>(
    pre: Seq<FeederClient<S, I>>,
    post: Seq<FeederClient<S, I>>,
    line: Line,
    r: Result<(), Error>,
) -> bool {
    match m600_fold(line.arguments@, line.arguments@.len() as int) {
        Err(c) => r == Err::<(), Error>(Error::InvalidArgument(c)) && post == pre,
        Ok(a) => match resolve_spec(a.index, pre.len() as int) {
            Err(e) => r == Err::<(), Error>(e) && post == pre,
            Ok(i) => {
                &&& post.len() == pre.len()
                &&& (forall|j: int| 0 <= j < pre.len() && j != i ==> post[j] == pre[j])
                &&& advance_frame(pre[i], post[i])
                &&& (r is Ok ==> advance_post(
                    pre[i].feeder,
                    post[i].feeder,
                    a.feed_length,
                    a.override_error,
                    Ok(()),
                ))
                &&& (r is Err ==> r->Err_0 != Error::InvalidFeederCommandResponse && advance_post(
                    pre[i].feeder,
                    post[i].feeder,
                    a.feed_length,
                    a.override_error,
                    Err(r->Err_0),
                ))
            },
        },
    }
}

/// What the set-configuration command does to the feeders and the
/// store.
pub open spec fn m620_post<S: Servo, I: Input, C: ConfigStore>(
    pre: Seq<FeederClient<S, I>>,
    post: Seq<FeederClient<S, I>>,
    pre_store: C,
    post_store: C,
    line: Line,
    r: Result<(), Error>,
) -> bool {
    match m620_fold(line.arguments@, line.arguments@.len() as int) {
        Err(c) => r == Err::<(), Error>(Error::InvalidArgument(c)) && post == pre && post_store
            == pre_store,
        Ok(a) => match resolve_spec(a.index, pre.len() as int) {
            Err(e) => r == Err::<(), Error>(e) && post == pre && post_store == pre_store,
            Ok(i) => {
                let merged = m620_merge(pre[i].config_spec(), a);
                let lims = PwmLimits { zero: merged.pwm_0, one_eighty: merged.pwm_180 };
                &&& post.len() == pre.len()
                &&& (forall|j: int| 0 <= j < pre.len() && j != i ==> post[j] == pre[j])
                &&& post[i].enabled_spec() == pre[i].enabled_spec()
                &&& post[i].moves() == pre[i].moves()
                &&& post[i].offset_raw() == pre[i].offset_raw()
                &&& post[i].recognizer_last() == pre[i].recognizer_last()
                &&& post[i].feedback_state() == pre[i].feedback_state()
                &&& (forall|l: PwmLimits| post[i].limits_ok_spec(l) == pre[i].limits_ok_spec(l))
                &&& post_store.default_config_spec() == pre_store.default_config_spec()
                &&& if !pre[i].limits_ok_spec(lims) {
                    &&& r == Err::<(), Error>(Error::PwmValueOutOfRange)
                    &&& post[i].config_spec() == pre[i].config_spec()
                    &&& post[i].servo_limits() == pre[i].servo_limits()
                    &&& (forall|a: Value| post[i].angle_ok_spec(a) == pre[i].angle_ok_spec(a))
                    &&& post_store.stored() == pre_store.stored()
                } else if !pre_store.set_ok(i as usize, merged) {
                    &&& r == Err::<(), Error>(Error::ConfigSetError)
                    &&& post[i].config_spec() == merged
                    &&& post[i].servo_limits() == lims
                    &&& (forall|a: Value| post[i].angle_ok_spec(a) == S::angle_ok_at(lims, a))
                    &&& post_store.stored() == pre_store.stored()
                } else {
                    &&& r is Ok
                    &&& post[i].config_spec() == merged
                    &&& post[i].servo_limits() == lims
                    &&& (forall|a: Value| post[i].angle_ok_spec(a) == S::angle_ok_at(lims, a))
                    &&& post_store.stored() == pre_store.stored().insert(i, merged)
                }
            },
        },
    }
}

/// The text the report command emits before its reply: the configuration
/// line on success, nothing on failure.
pub open spec fn m621_report<S: Servo, I: Input>(
    pre: Seq<FeederClient<S, I>>,
    line: Line,
    r: Result<(), Error>,
) -> Seq<char> {
    match m621_fold(line.arguments@, line.arguments@.len() as int) {
        Err(c) => Seq::empty(),
        Ok(opt) => match resolve_spec(opt, pre.len() as int) {
            Err(e) => Seq::empty(),
            Ok(i) => config_line_text(i, pre[i].config_spec()),
        },
    }
}

/// What the report command returns.
pub open spec fn m621_result<S: Servo, I: Input>(
    pre: Seq<FeederClient<S, I>>,
    line: Line,
) -> Result<(), Error> {
    match m621_fold(line.arguments@, line.arguments@.len() as int) {
        Err(c) => Err(Error::InvalidArgument(c)),
        Ok(opt) => match resolve_spec(opt, pre.len() as int) {
            Err(e) => Err(e),
            Ok(i) => Ok(()),
        },
    }
}

/// The configuration report of the first `n` feeders, one line each.
pub open spec fn connect_report<S: Servo, I: Input>(
    feeders: Seq<FeederClient<S, I>>,
    n: int,
) -> Seq<char>
    decreases n,
{
    if n <= 0 {
        Seq::empty()
    } else {
        connect_report(feeders, n - 1) + config_line_text(
            n - 1,
            feeders[n - 1].config_spec(),
        )
    }
}

/// What handling one line does to the whole dispatcher.
pub open spec fn line_post<S: Servo, I: Input, C: ConfigStore, O: OutputSink>(
    pre: GCodeHandler<S, I, C, O>,
    post: GCodeHandler<S, I, C, O>,
    line: Line,
) -> bool {
    match line.command {
        None => post == pre,
        Some(cmd) => if is_cmd(cmd, 600) {
            exists|r: Result<(), Error>|
                #[trigger] m600_post(pre.feeders@, post.feeders@, line, r) && post.config_store
                    == pre.config_store && wrote(pre.output, post.output, reply_of(r))
        } else if is_cmd(cmd, 603) {
            exists|r: Result<(), Error>|
                #[trigger] m603_post(pre.feeders@, post.feeders@, line, r) && post.config_store
                    == pre.config_store && wrote(pre.output, post.output, reply_of(r))
        } else if is_cmd(cmd, 610) {
            exists|r: Result<(), Error>|
                #[trigger] m610_post(pre.feeders@, post.feeders@, line, r) && post.config_store
                    == pre.config_store && wrote(pre.output, post.output, reply_of(r))
        } else if is_cmd(cmd, 620) {
            exists|r: Result<(), Error>|
                #[trigger] m620_post(
                    pre.feeders@,
                    post.feeders@,
                    pre.config_store,
                    post.config_store,
                    line,
                    r,
                ) && wrote(pre.output, post.output, reply_of(r))
        } else if is_cmd(cmd, 621) {
            &&& post.feeders@ == pre.feeders@
            &&& post.config_store == pre.config_store
            &&& wrote(
                pre.output,
                post.output,
                m621_report(pre.feeders@, line, m621_result(pre.feeders@, line)) + reply_of(
                    m621_result(pre.feeders@, line),
                ),
            )
        } else {
            &&& post.feeders@ == pre.feeders@
            &&& post.config_store == pre.config_store
            &&& wrote(
                pre.output,
                post.output,
                reply_of(Err(Error::UnsupportedCommand(cmd))),
            )
        },
    }
}

/// What a connect event does: the saved-settings header, one
/// configuration line per feeder, and the ready marker.
pub open spec fn connect_post<S: Servo, I: Input, C: ConfigStore, O: OutputSink>(
    pre: GCodeHandler<S, I, C, O>,
    post: GCodeHandler<S, I, C, O>,
) -> bool {
    &&& post.feeders@ == pre.feeders@
    &&& post.config_store == pre.config_store
    &&& wrote(
        pre.output,
        post.output,
        "saved settings:\n"@ + connect_report(pre.feeders@, pre.feeders@.len() as int)
            + "ready\n"@,
    )
}

/// What a disconnect event does: every feeder ends up disabled and
/// nothing else changes.
pub open spec fn disconnect_post<S: Servo, I: Input, C: ConfigStore, O: OutputSink>(
    pre: GCodeHandler<S, I, C, O>,
    post: GCodeHandler<S, I, C, O>,
) -> bool {
    &&& post.output == pre.output
    &&& post.config_store == pre.config_store
    &&& post.feeders@.len() == pre.feeders@.len()
    &&& forall|i: int|
        0 <= i < pre.feeders@.len() ==> same_after_enable(pre.feeders@[i], post.feeders@[i], false)
}

/// Builds the text of one configuration report line.
#[verifier::rlimit(100)]
fn config_line_string(index: usize, config: &FeederConfig) -> (s: String)
    ensures
        s@ == config_line_text(index as int, *config),
{
    proof {
        reveal(config_line_text);
    }
    let mut s = String::from_str("M620 N");
    let part = crate::text::fmt_usize(index);
    s.append(part.as_str());
    s.append(" A");
    let part = crate::text::fmt_value(config.advanced_angle);
    s.append(part.as_str());
    s.append(" B");
    let part = crate::text::fmt_value(config.half_advanced_angle);
    s.append(part.as_str());
    s.append(" C");
    let part = crate::text::fmt_value(config.retract_angle);
    s.append(part.as_str());
    s.append(" F");
    let part = crate::text::fmt_value(config.feed_length);
    s.append(part.as_str());
    s.append(" U");
    let part = crate::text::fmt_u32(config.settle_time);
    s.append(part.as_str());
    s.append(" V");
    let part = crate::text::fmt_value(config.pwm_0);
    s.append(part.as_str());
    s.append(" W");
    let part = crate::text::fmt_value(config.pwm_180);
    s.append(part.as_str());
    s.append(" X");
    if config.ignore_feeback_pin {
        s.append("1");
    } else {
        s.append("0");
    }
    s.append(" Y");
    if config.always_retract {
        s.append("1");
    } else {
        s.append("0");
    }
    s.append("\n");
    s
}

impl<S: Servo, I: Input, C: ConfigStore, O: OutputSink> GCodeHandler<S, I, C, O> {
    /// Writes the configuration line of feeder `index`.
    #[verifier::rlimit(100)]
    fn write_config_line(&mut self, index: usize)
        requires
            index < old(self).feeders@.len(),
            old(self).feeders_wf(),
        ensures
            final(self).feeders@ == old(self).feeders@,
            final(self).config_store == old(self).config_store,
            final(self).feeders_wf(),
            wrote(
                old(self).output,
                final(self).output,
                config_line_text(index as int, old(self).feeders@[index as int].config_spec()),
            ),
    {
        let config: FeederConfig = match self.feeders[index].get_config() {
            Ok(config) => config,
            Err(_) => {
                proof {
                    assert(self.feeders@ =~= old(self).feeders@);
                }
                return ;
            },
        };
        proof {
            assert(self.feeders@ =~= old(self).feeders@);
        }
        let s = config_line_string(index, &config);
        let _ = self.output.write_text(s.as_str());
    }

    /// Handles the enable-all command: `S1` enables every feeder, `S0`
    /// disables every feeder, no argument does nothing.
    fn handle_m610(&mut self, line: &Line) -> (r: Result<(), Error>)
        requires
            old(self).feeders_wf(),
        ensures
            final(self).feeders_wf(),
            final(self).output == old(self).output,
            final(self).config_store == old(self).config_store,
            m610_post(old(self).feeders@, final(self).feeders@, *line, r),
    {
        let mut status: Option<bool> = None;
        let n: usize = line.arguments.len();
        let mut i: usize = 0;
        while i < n
            invariant
                i <= n == line.arguments@.len(),
                *self == *old(self),
                old(self).feeders_wf(),
                m610_fold(line.arguments@, i as int) == Ok::<Option<bool>, char>(status),
            decreases n - i,
        {
            let w: Word = line.arguments[i];
            if w.letter == 'S' {
                status = Some(w.value.raw != 0);
            } else {
                proof {
                    lemma_m610_fold_err(line.arguments@, i + 1, n as int);
                }
                return Err(Error::InvalidArgument(w.letter));
            }
            i = i + 1;
        }
        let s: bool = match status {
            None => {
                return Ok(());
            },
            Some(s) => s,
        };
        let mut i: usize = 0;
        let n: usize = self.feeders.len();
        while i < n
            invariant
                i <= n == self.feeders@.len(),
                self.feeders@.len() == old(self).feeders@.len(),
                self.output == old(self).output,
                self.config_store == old(self).config_store,
                self.feeders_wf(),
                old(self).feeders_wf(),
                forall|j: int| i <= j < n ==> self.feeders@[j] == old(self).feeders@[j],
                forall|j: int|
                    0 <= j < i ==> same_after_enable(old(self).feeders@[j], self.feeders@[j], s),
            decreases n - i,
        {
            let _ = self.feeders[i].enable(s);
            i = i + 1;
        }
        Ok(())
    }

    /// Handles the move command: moves the named feeder's servo to the
    /// given angle.
    fn handle_m603(&mut self, line: &Line) -> (r: Result<(), Error>)
        requires
            old(self).feeders_wf(),
        ensures
            final(self).feeders_wf(),
            final(self).output == old(self).output,
            final(self).config_store == old(self).config_store,
            m603_post(old(self).feeders@, final(self).feeders@, *line, r),
    {
        let mut index: Option<Value> = None;
        let mut angle: Option<Value> = None;
        let n: usize = line.arguments.len();
        let mut i: usize = 0;
        while i < n
            invariant
                i <= n == line.arguments@.len(),
                *self == *old(self),
                old(self).feeders_wf(),
                m603_fold(line.arguments@, i as int) == Ok::<M603Args, char>(
                    M603Args { index, angle },
                ),
            decreases n - i,
        {
            let w: Word = line.arguments[i];
            if w.letter == 'N' {
                index = Some(w.value);
            } else if w.letter == 'A' {
                angle = Some(w.value);
            } else {
                proof {
                    lemma_m603_fold_err(line.arguments@, i + 1, n as int);
                }
                return Err(Error::InvalidArgument(w.letter));
            }
            i = i + 1;
        }
        let fi: usize = match self.resolve_feeder(index) {
            Ok(fi) => fi,
            Err(e) => {
                return Err(e);
            },
        };
        match angle {
            None => Ok(()),
            Some(a) => self.feeders[fi].set_servo_angle(a),
        }
    }

    /// Handles the feed command: advances the named feeder.
    fn handle_m600(&mut self, line: &Line) -> (r: Result<(), Error>)
        requires
            old(self).feeders_wf(),
        ensures
            final(self).feeders_wf(),
            final(self).output == old(self).output,
            final(self).config_store == old(self).config_store,
            m600_post(old(self).feeders@, final(self).feeders@, *line, r),
    {
        let mut index: Option<Value> = None;
        let mut feed_length: Option<Value> = None;
        let mut override_error: bool = false;
        let n: usize = line.arguments.len();
        let mut i: usize = 0;
        while i < n
            invariant
                i <= n == line.arguments@.len(),
                *self == *old(self),
                old(self).feeders_wf(),
                m600_fold(line.arguments@, i as int) == Ok::<M600Args, char>(
                    M600Args { index, feed_length, override_error },
                ),
            decreases n - i,
        {
            let w: Word = line.arguments[i];
            if w.letter == 'N' {
                index = Some(w.value);
            } else if w.letter == 'F' {
                feed_length = Some(w.value);
            } else if w.letter == 'X' {
                override_error = w.value.raw != 0;
            } else {
                proof {
                    lemma_m600_fold_err(line.arguments@, i + 1, n as int);
                }
                return Err(Error::InvalidArgument(w.letter));
            }
            i = i + 1;
        }
        let fi: usize = match self.resolve_feeder(index) {
            Ok(fi) => fi,
            Err(e) => {
                return Err(e);
            },
        };
        self.feeders[fi].advance(feed_length, override_error)
    }

    /// Handles the set-configuration command: applies the given fields
    /// over the feeder's current configuration, pushes the result to the
    /// feeder, and persists it only after the feeder accepted it.
    fn handle_m620(&mut self, line: &Line) -> (r: Result<(), Error>)
        requires
            old(self).feeders_wf(),
        ensures
            final(self).feeders_wf(),
            final(self).output == old(self).output,
            m620_post(
                old(self).feeders@,
                final(self).feeders@,
                old(self).config_store,
                final(self).config_store,
                *line,
                r,
            ),
    {
        let mut args = M620Args {
            index: None,
            advanced_angle: None,
            half_advanced_angle: None,
            retract_angle: None,
            feed_length: None,
            settle_time: None,
            pwm_0: None,
            pwm_180: None,
            ignore_feeback_pin: None,
            always_retract: None,
        };
        let n: usize = line.arguments.len();
        let mut i: usize = 0;
        while i < n
            invariant
                i <= n == line.arguments@.len(),
                *self == *old(self),
                old(self).feeders_wf(),
                m620_fold(line.arguments@, i as int) == Ok::<M620Args, char>(args),
            decreases n - i,
        {
            let w: Word = line.arguments[i];
            if w.letter == 'N' {
                args.index = Some(w.value);
            } else if w.letter == 'A' {
                args.advanced_angle = Some(w.value);
            } else if w.letter == 'B' {
                args.half_advanced_angle = Some(w.value);
            } else if w.letter == 'C' {
                args.retract_angle = Some(w.value);
            } else if w.letter == 'F' {
                args.feed_length = Some(w.value);
            } else if w.letter == 'U' {
                args.settle_time = Some(w.value);
            } else if w.letter == 'V' {
                args.pwm_0 = Some(w.value);
            } else if w.letter == 'W' {
                args.pwm_180 = Some(w.value);
            } else if w.letter == 'X' {
                args.ignore_feeback_pin = Some(w.value.raw != 0);
            } else if w.letter == 'Y' {
                args.always_retract = Some(w.value.raw != 0);
            } else {
                proof {
                    lemma_m620_fold_err(line.arguments@, i + 1, n as int);
                }
                return Err(Error::InvalidArgument(w.letter));
            }
            i = i + 1;
        }
        let fi: usize = match self.resolve_feeder(args.index) {
            Ok(fi) => fi,
            Err(e) => {
                return Err(e);
            },
        };
        let current: FeederConfig = match self.feeders[fi].get_config() {
            Ok(config) => config,
            Err(e) => {
                return Err(e);
            },
        };
        let mut config: FeederConfig = current;
        if let Some(v) = args.advanced_angle {
            config.advanced_angle = v;
        }
        if let Some(v) = args.half_advanced_angle {
            config.half_advanced_angle = v;
        }
        if let Some(v) = args.retract_angle {
            config.retract_angle = v;
        }
        if let Some(v) = args.feed_length {
            config.feed_length = v;
        }
        if let Some(v) = args.settle_time {
            config.settle_time = v.to_u32_clamped();
        }
        if let Some(v) = args.pwm_0 {
            config.pwm_0 = v;
        }
        if let Some(v) = args.pwm_180 {
            config.pwm_180 = v;
        }
        if let Some(v) = args.ignore_feeback_pin {
            config.ignore_feeback_pin = v;
        }
        if let Some(v) = args.always_retract {
            config.always_retract = v;
        }
        proof {
            assert(config == m620_merge(
                old(self).feeders@[fi as int].config_spec(),
                args,
            ));
        }
        match self.feeders[fi].set_config(config) {
            Ok(()) => {
            },
            Err(e) => {
                return Err(e);
            },
        }
        self.config_store.set(fi, &config)
    }

    /// Handles the report command: echoes the named feeder's
    /// configuration as a set-configuration line.
    fn handle_m621(&mut self, line: &Line) -> (r: Result<(), Error>)
        requires
            old(self).feeders_wf(),
        ensures
            final(self).feeders_wf(),
            final(self).feeders@ == old(self).feeders@,
            final(self).config_store == old(self).config_store,
            r == m621_result(old(self).feeders@, *line),
            wrote(
                old(self).output,
                final(self).output,
                m621_report(old(self).feeders@, *line, r),
            ),
    {
        let mut index: Option<Value> = None;
        let n: usize = line.arguments.len();
        let mut i: usize = 0;
        while i < n
            invariant
                i <= n == line.arguments@.len(),
                *self == *old(self),
                old(self).feeders_wf(),
                m621_fold(line.arguments@, i as int) == Ok::<Option<Value>, char>(index),
            decreases n - i,
        {
            let w: Word = line.arguments[i];
            if w.letter == 'N' {
                index = Some(w.value);
            } else {
                proof {
                    lemma_m621_fold_err(line.arguments@, i + 1, n as int);
                }
                return Err(Error::InvalidArgument(w.letter));
            }
            i = i + 1;
        }
        let fi: usize = match self.resolve_feeder(index) {
            Ok(fi) => fi,
            Err(e) => {
                return Err(e);
            },
        };
        self.write_config_line(fi);
        Ok(())
    }

    /// Handles one parsed command line and writes exactly one reply
    /// line: `ok`, or `error: ` with the failure's text.  A line without
    /// a command does nothing.
    pub fn handle_line(&mut self, line: Line)
        requires
            old(self).feeders_wf(),
        ensures
            final(self).feeders_wf(),
            line_post(*old(self), *final(self), line),
    {
        let cmd: Word = match &line.command {
            None => {
                return ;
            },
            Some(c) => *c,
        };
        let ret: Result<(), Error> = if cmd.letter == 'M' && cmd.value.raw == 600 * 65536 {
            self.handle_m600(&line)
        } else if cmd.letter == 'M' && cmd.value.raw == 603 * 65536 {
            self.handle_m603(&line)
        } else if cmd.letter == 'M' && cmd.value.raw == 610 * 65536 {
            self.handle_m610(&line)
        } else if cmd.letter == 'M' && cmd.value.raw == 620 * 65536 {
            self.handle_m620(&line)
        } else if cmd.letter == 'M' && cmd.value.raw == 621 * 65536 {
            self.handle_m621(&line)
        } else {
            Err(Error::UnsupportedCommand(cmd))
        };
        match &ret {
            Ok(_) => {
                let _ = self.output.write_text("ok\n");
            },
            Err(e) => {
                let mut s = String::from_str("error: ");
                let msg = e.message();
                s.append(msg.as_str());
                s.append("\n");
                proof {
                    assert(s@ == "error: "@ + spec_message(*e) + "\n"@);
                }
                let _ = self.output.write_text(s.as_str());
            },
        }
        proof {
            if old(self).output.sink_ok() {
                if is_cmd(cmd, 621) {
                    assert(self.output.written() =~= old(self).output.written() + (m621_report(
                        old(self).feeders@,
                        line,
                        ret,
                    ) + reply_of(ret)));
                }
            }
            if is_cmd(cmd, 600) {
                assert(m600_post(old(self).feeders@, self.feeders@, line, ret));
                assert(wrote(old(self).output, self.output, reply_of(ret)));
            } else if is_cmd(cmd, 603) {
                assert(m603_post(old(self).feeders@, self.feeders@, line, ret));
                assert(wrote(old(self).output, self.output, reply_of(ret)));
            } else if is_cmd(cmd, 610) {
                assert(m610_post(old(self).feeders@, self.feeders@, line, ret));
                assert(wrote(old(self).output, self.output, reply_of(ret)));
            } else if is_cmd(cmd, 620) {
                assert(m620_post(
                    old(self).feeders@,
                    self.feeders@,
                    old(self).config_store,
                    self.config_store,
                    line,
                    ret,
                ));
                assert(wrote(old(self).output, self.output, reply_of(ret)));
            } else if is_cmd(cmd, 621) {
                assert(ret == m621_result(old(self).feeders@, line));
                assert(wrote(
                    old(self).output,
                    self.output,
                    m621_report(old(self).feeders@, line, ret) + reply_of(ret),
                ));
            } else {
                assert(ret == Err::<(), Error>(Error::UnsupportedCommand(cmd)));
                assert(wrote(old(self).output, self.output, reply_of(ret)));
            }
        }
    }

    /// Dispatches one event of the connection lifecycle.
    pub fn handle_event(&mut self, event: GCodeEvent)
        requires
            old(self).feeders_wf(),
        ensures
            final(self).feeders_wf(),
            match event {
                GCodeEvent::Connect => connect_post(*old(self), *final(self)),
                GCodeEvent::Disconnect => disconnect_post(*old(self), *final(self)),
                GCodeEvent::Line(line) => line_post(*old(self), *final(self), line),
            },
    {
        match event {
            GCodeEvent::Connect => self.handle_connect(),
            GCodeEvent::Disconnect => self.handle_disconnect(),
            GCodeEvent::Line(line) => self.handle_line(line),
        }
    }

    /// Reports every feeder's configuration, framed by a header line and
    /// a ready marker, so the host can tell when the report is complete.
    pub fn handle_connect(&mut self)
        requires
            old(self).feeders_wf(),
        ensures
            final(self).feeders_wf(),
            connect_post(*old(self), *final(self)),
    {
        let _ = self.output.write_text("saved settings:\n");
        let n: usize = self.feeders.len();
        let mut i: usize = 0;
        while i < n
            invariant
                i <= n == self.feeders@.len(),
                self.feeders@ == old(self).feeders@,
                self.config_store == old(self).config_store,
                self.feeders_wf(),
                wrote(
                    old(self).output,
                    self.output,
                    "saved settings:\n"@ + connect_report(old(self).feeders@, i as int),
                ),
            decreases n - i,
        {
            self.write_config_line(i);
            proof {
                if old(self).output.sink_ok() {
                    assert(self.output.written() =~= old(self).output.written() + (
                    "saved settings:\n"@ + connect_report(old(self).feeders@, i + 1)));
                }
            }
            i = i + 1;
        }
        let _ = self.output.write_text("ready\n");
        proof {
            if old(self).output.sink_ok() {
                assert(self.output.written() =~= old(self).output.written() + ("saved settings:\n"@
                    + connect_report(old(self).feeders@, n as int) + "ready\n"@));
            }
        }
    }

    /// Disables every feeder: motion must not continue once the host
    /// link is gone.
    pub fn handle_disconnect(&mut self)
        requires
            old(self).feeders_wf(),
        ensures
            final(self).feeders_wf(),
            disconnect_post(*old(self), *final(self)),
    {
        let n: usize = self.feeders.len();
        let mut i: usize = 0;
        while i < n
            invariant
                i <= n == self.feeders@.len(),
                self.feeders@.len() == old(self).feeders@.len(),
                self.output == old(self).output,
                self.config_store == old(self).config_store,
                self.feeders_wf(),
                old(self).feeders_wf(),
                forall|j: int| i <= j < n ==> self.feeders@[j] == old(self).feeders@[j],
                forall|j: int|
                    0 <= j < i ==> same_after_enable(
                        old(self).feeders@[j],
                        self.feeders@[j],
                        false,
                    ),
            decreases n - i,
        {
            let _ = self.feeders[i].enable(false);
            i = i + 1;
        }
    }

    /// Loads each feeder's persisted configuration and pushes it to the
    /// feeder; a feeder whose load or push fails keeps its defaults.
    pub fn initialize_feeder_configs(&mut self)
        requires
            old(self).feeders_wf(),
        ensures
            final(self).feeders_wf(),
            final(self).output == old(self).output,
            final(self).config_store.stored() == old(self).config_store.stored(),
            final(self).config_store.default_config_spec() == old(
                self,
            ).config_store.default_config_spec(),
            final(self).feeders@.len() == old(self).feeders@.len(),
            forall|j: int|
                0 <= j < old(self).feeders@.len() ==> init_one_post(
                    old(self).feeders@[j],
                    final(self).feeders@[j],
                    old(self).config_store,
                    j,
                ),
    {
        let n: usize = self.feeders.len();
        let mut i: usize = 0;
        while i < n
            invariant
                i <= n == self.feeders@.len(),
                self.feeders@.len() == old(self).feeders@.len(),
                self.output == old(self).output,
                self.config_store.stored() == old(self).config_store.stored(),
                self.config_store.default_config_spec() == old(
                    self,
                ).config_store.default_config_spec(),
                forall|x: usize|
                    self.config_store.get_ok(x) == old(self).config_store.get_ok(x),
                forall|x: usize, c: FeederConfig|
                    self.config_store.set_ok(x, c) == old(self).config_store.set_ok(x, c),
                self.feeders_wf(),
                old(self).feeders_wf(),
                forall|j: int| i <= j < n ==> self.feeders@[j] == old(self).feeders@[j],
                forall|j: int|
                    0 <= j < i ==> init_one_post(
                        old(self).feeders@[j],
                        self.feeders@[j],
                        old(self).config_store,
                        j,
                    ),
            decreases n - i,
        {
            match self.config_store.get(i) {
                Ok(config) => {
                    let _ = self.feeders[i].set_config(config);
                },
                Err(_) => {
                },
            }
            i = i + 1;
        }
    }
}

/// What startup does to one feeder: when its stored configuration can
/// be read and its PWM limits are acceptable, that configuration is in
/// force; otherwise the feeder keeps what it had.  Nothing else moves.
pub open spec fn init_one_post<S: Servo, I: Input, C: ConfigStore>(
    pre: FeederClient<S, I>,
    post: FeederClient<S, I>,
    store: C,
    j: int,
) -> bool {
    let c = if store.stored().contains_key(j) {
        store.stored()[j]
    } else {
        store.default_config_spec()
    };
    let lims = PwmLimits { zero: c.pwm_0, one_eighty: c.pwm_180 };
    &&& post.enabled_spec() == pre.enabled_spec()
    &&& post.moves() == pre.moves()
    &&& post.offset_raw() == pre.offset_raw()
    &&& post.recognizer_last() == pre.recognizer_last()
    &&& post.feedback_state() == pre.feedback_state()
    &&& (forall|l: PwmLimits| post.limits_ok_spec(l) == pre.limits_ok_spec(l))
    &&& (store.get_ok(j as usize) && pre.limits_ok_spec(lims) ==> post.config_spec() == c
        && post.servo_limits() == lims && (forall|a: Value|
        post.angle_ok_spec(a) == S::angle_ok_at(lims, a)))
    &&& (!(store.get_ok(j as usize) && pre.limits_ok_spec(lims)) ==> post.config_spec()
        == pre.config_spec() && post.servo_limits() == pre.servo_limits() && (forall|a: Value|
        post.angle_ok_spec(a) == pre.angle_ok_spec(a)))
}

} // verus!
