//! Finding the lowest duty at which a fan spins: the checks before the
//! test, the ramp of duties it tries, and what it reports.
//!
//! The caller talks to the daemon and waits between steps; the ramp says
//! which duty to set next and when the test is over.
use crate::text::{dec_digits, push_dec, starts_with, str_eq, string_of};
use vstd::prelude::*;

verus! {

/// The ramp's parameters after clamping: the first duty (at most 99), the
/// step (1 to 50), and the settle time per step (at least 500 ms).
#[derive(Clone, Copy, Debug, PartialEq, Eq, Structural)]
pub struct RampSettings {
    pub start: u8,
    pub step: u8,
    pub settle_ms: u64,
}

/// Clamps the parameters given on the command line.
pub fn ramp_settings(start: u8, step: u8, settle_ms: u64) -> (s: RampSettings)
    ensures
        s.start == if start > 99 { 99 } else { start },
        s.step == if step < 1 { 1 } else if step > 50 { 50 } else { step },
        s.settle_ms == if settle_ms < 500 { 500 } else { settle_ms },
{
    RampSettings {
        start: if start > 99 { 99 } else { start },
        step: if step < 1 { 1 } else if step > 50 { 50 } else { step },
        settle_ms: if settle_ms < 500 { 500 } else { settle_ms },
    }
}

/// Why a fan test cannot run.
#[derive(Debug)]
pub enum FanTestError {
    /// The daemon has no such channel; the channels it has, joined by `, `.
    UnknownChannel { channel: String, available: String },
    /// The channel's fan has no tachometer; the channel's number.
    NoTachometer { channel: String, index: String },
}

/// The channel's names joined by `, `, the first `n` of them.
pub open spec fn joined(names: Seq<String>, n: int) -> Seq<char>
    decreases n,
{
    if n <= 0 {
        Seq::empty()
    } else if n == 1 {
        names[0]@
    } else {
        joined(names, n - 1) + ", "@ + names[n - 1]@
    }
}

/// The RPM the daemon reports for the first entry named `channel`.
pub open spec fn rpm_of(rpms: Seq<(String, i32)>, channel: Seq<char>, n: int) -> Option<i32>
    decreases n,
{
    if n <= 0 {
        None
    } else {
        match rpm_of(rpms, channel, n - 1) {
            Some(r) => Some(r),
            None => if rpms[n - 1].0@ == channel {
                Some(rpms[n - 1].1)
            } else {
                None
            },
        }
    }
}

/// The channel's number: what follows `pwm`, or `?`.
pub open spec fn channel_index(channel: Seq<char>) -> Seq<char> {
    if starts_with(channel, "pwm"@) {
        channel.subrange(3, channel.len() as int)
    } else {
        "?"@
    }
}

/// Whether the first reading of the channel is an RPM (not -1).
pub open spec fn has_tachometer(rpms: Seq<(String, i32)>, channel: Seq<char>) -> bool {
    rpm_of(rpms, channel, rpms.len() as int) matches Some(r) && r >= 0
}

pub open spec fn has_name(names: Seq<String>, channel: Seq<char>) -> bool {
    exists|k: int| 0 <= k < names.len() && (#[trigger] names[k])@ == channel
}

fn joined_names(names: &Vec<String>) -> (s: String)
    ensures
        s@ == joined(names@, names@.len() as int),
{
    let mut s = String::new();
    let mut k: usize = 0;
    while k < names.len()
        invariant
            k <= names@.len(),
            s@ == joined(names@, k as int),
        decreases names@.len() - k,
    {
        if k > 0 {
            s.append(", ");
        }
        s.append(names[k].as_str());
        k = k + 1;
        assert(s@ =~= joined(names@, k as int));
    }
    s
}

fn first_rpm(rpms: &Vec<(String, i32)>, channel: &str) -> (r: Option<i32>)
    ensures
        r == rpm_of(rpms@, channel@, rpms@.len() as int),
{
    let mut k: usize = 0;
    while k < rpms.len()
        invariant
            k <= rpms@.len(),
            rpm_of(rpms@, channel@, k as int) is None,
        decreases rpms@.len() - k,
    {
        if str_eq(rpms[k].0.as_str(), channel) {
            proof {
                lemma_rpm_of_stays(rpms@, channel@, k as int + 1, rpms@.len() as int);
            }
            return Some(rpms[k].1);
        }
        k = k + 1;
    }
    None
}

proof fn lemma_rpm_of_stays(rpms: Seq<(String, i32)>, channel: Seq<char>, m: int, n: int)
    requires
        0 <= m <= n,
        rpm_of(rpms, channel, m) is Some,
    ensures
        rpm_of(rpms, channel, n) == rpm_of(rpms, channel, m),
    decreases n - m,
{
    if m < n {
        lemma_rpm_of_stays(rpms, channel, m, n - 1);
    }
}

/// Checks that the daemon has the channel and that its fan reports RPM:
/// the names are those of the daemon's duties, the RPMs its readings (-1
/// where a fan has none).
pub fn check_channel(channel: &str, duty_names: &Vec<String>, rpms: &Vec<(String, i32)>) -> (r: Result<
    (),
    FanTestError,
>)
    ensures
        match r {
            Ok(()) => has_name(duty_names@, channel@) && has_tachometer(rpms@, channel@),
            Err(FanTestError::UnknownChannel { channel: c, available }) => !has_name(
                duty_names@,
                channel@,
            ) && c@ == channel@ && available@ == joined(duty_names@, duty_names@.len() as int),
            Err(FanTestError::NoTachometer { channel: c, index }) => has_name(duty_names@, channel@)
                && !has_tachometer(rpms@, channel@) && c@ == channel@ && index@ == channel_index(channel@),
        },
{
    let mut k: usize = 0;
    let mut found = false;
    while k < duty_names.len()
        invariant
            k <= duty_names@.len(),
            found == exists|j: int| 0 <= j < k && (#[trigger] duty_names@[j])@ == channel@,
        decreases duty_names@.len() - k,
    {
        if str_eq(duty_names[k].as_str(), channel) {
            found = true;
        }
        k = k + 1;
    }
    if !found {
        return Err(
            FanTestError::UnknownChannel {
                channel: string_of(channel),
                available: joined_names(duty_names),
            },
        );
    }
    match first_rpm(rpms, channel) {
        Some(rpm) => if rpm >= 0 {
            return Ok(());
        },
        None => {},
    }
    let cv = crate::text::chars_of(channel);
    let pv = crate::text::chars_of("pwm");
    proof {
        reveal_strlit("pwm");
    }
    let index = if crate::text::seq_starts_with(&cv, &pv) {
        let rest = crate::text::chars_from(&cv, 3);
        let mut s = String::new();
        crate::text::push_chars(&mut s, &rest);
        assert(s@ =~= rest@);
        s
    } else {
        string_of("?")
    };
    Err(FanTestError::NoTachometer { channel: string_of(channel), index })
}

impl FanTestError {
    /// The text of the error.
    pub fn message(&self) -> (s: String)
        ensures
            s@ == match self {
                FanTestError::UnknownChannel { channel, available } => "unknown channel '"@
                    + channel@ + "', available: "@ + available@,
                FanTestError::NoTachometer { channel, index } => channel@
                    + " has no tachometer (RPM reads -1). Enable stall_detect in fan.toml or check that fan"@
                    + index@ + "_input exists in sysfs"@,
            },
    {
        match self {
            FanTestError::UnknownChannel { channel, available } => {
                let mut s = string_of("unknown channel '");
                s.append(channel.as_str());
                s.append("', available: ");
                s.append(available.as_str());
                s
            },
            FanTestError::NoTachometer { channel, index } => {
                let mut s = string_of(channel.as_str());
                s.append(
                    " has no tachometer (RPM reads -1). Enable stall_detect in fan.toml or check that fan",
                );
                s.append(index.as_str());
                s.append("_input exists in sysfs");
                s
            },
        }
    }
}

/// What the ramp does after a reading.
#[derive(Clone, Copy, Debug, PartialEq, Eq, Structural)]
pub enum RampStep {
    /// Set this duty next and read again.
    Next(u8),
    /// The test is over: the lowest duty that spun the fan, if any did.
    Floor(Option<u8>),
}

/// The ramp's progress: the duty being tried and the step to the next.
pub struct Ramp {
    pct: u8,
    step: u8,
    tried: Ghost<nat>,
    start: Ghost<u8>,
}

impl Ramp {
    /// The duty being tried.
    pub closed spec fn duty(&self) -> u8 {
        self.pct
    }

    pub closed spec fn step_size(&self) -> u8 {
        self.step
    }

    /// How many duties were tried before this one.
    pub closed spec fn tried(&self) -> nat {
        self.tried@
    }

    pub closed spec fn first_duty(&self) -> u8 {
        self.start@
    }

    /// The duty being tried is the `tried`-th step up from the first, and
    /// at most 100.
    pub open spec fn wf(&self) -> bool {
        &&& 1 <= self.step_size() <= 50
        &&& self.duty() <= 100
        &&& self.duty() == self.first_duty() + self.tried() * self.step_size()
    }

    /// Starts at the first duty of the settings.
    pub fn new(settings: RampSettings) -> (r: Ramp)
        requires
            settings.start <= 99,
            1 <= settings.step <= 50,
        ensures
            r.wf(),
            r.duty() == settings.start,
            r.step_size() == settings.step,
            r.first_duty() == settings.start,
            r.tried() == 0,
    {
        Ramp { pct: settings.start, step: settings.step, tried: Ghost(0), start: Ghost(settings.start) }
    }

    /// The duty to set now.
    pub fn duty_now(&self) -> (d: u8)
        ensures
            d == self.duty(),
    {
        self.pct
    }

    /// Takes the RPM read at the current duty (`None` when it could not be
    /// read): a spinning fan ends the test at this duty; otherwise the next
    /// duty is a step up, and past 100 the test ends without a floor.
    pub fn observe(&mut self, rpm: Option<u32>) -> (r: RampStep)
        requires
            old(self).wf(),
        ensures
            final(self).wf(),
            final(self).step_size() == old(self).step_size(),
            final(self).first_duty() == old(self).first_duty(),
            rpm matches Some(x) && x > 0 ==> r == RampStep::Floor(Some(old(self).duty())),
            !(rpm matches Some(x) && x > 0) ==> if old(self).duty() + old(self).step_size() <= 100 {
                &&& r == RampStep::Next((old(self).duty() + old(self).step_size()) as u8)
                &&& final(self).duty() == old(self).duty() + old(self).step_size()
                &&& final(self).tried() == old(self).tried() + 1
            } else {
                r == RampStep::Floor(None)
            },
    {
        match rpm {
            Some(x) => if x > 0 {
                return RampStep::Floor(Some(self.pct));
            },
            None => {},
        }
        let next = self.pct as u16 + self.step as u16;
        if next > 100 {
            return RampStep::Floor(None);
        }
        let ghost p0: int = self.pct as int;
        let ghost t0: int = self.tried@ as int;
        let ghost st: int = self.step as int;
        let ghost s0: int = self.start@ as int;
        self.pct = next as u8;
        self.tried = Ghost(self.tried@ + 1);
        assert(p0 + st == s0 + (t0 + 1) * st) by (nonlinear_arith)
            requires
                p0 == s0 + t0 * st,
        ;
        RampStep::Next(self.pct)
    }
}

/// The lines a finished test prints: where the fan spins and the floor to
/// configure, or that it never spun.
pub fn ramp_report(channel: &str, floor: Option<u8>) -> (lines: Vec<String>)
    ensures
        match floor {
            Some(p) => lines@.len() == 2 && lines@[0]@ == channel@ + " spins at "@ + dec_digits(
                p as nat,
            ) + "%"@ && lines@[1]@ == "suggested config: min_duty = "@ + dec_digits(p as nat)
                + ".0"@,
            None => lines@.len() == 2 && lines@[0]@ == channel@ + ": no spin detected up to 100%"@
                && lines@[1]@ == "check that the fan is connected and the tachometer works"@,
        },
{
    let mut lines: Vec<String> = Vec::new();
    match floor {
        Some(p) => {
            let mut a = string_of(channel);
            a.append(" spins at ");
            push_dec(&mut a, p as u64);
            a.append("%");
            let mut b = string_of("suggested config: min_duty = ");
            push_dec(&mut b, p as u64);
            b.append(".0");
            lines.push(a);
            lines.push(b);
        },
        None => {
            let mut a = string_of(channel);
            a.append(": no spin detected up to 100%");
            lines.push(a);
            lines.push(string_of("check that the fan is connected and the tachometer works"));
        },
    }
    lines
}

} // verus!
