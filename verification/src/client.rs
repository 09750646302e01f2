//! The command-line client's own decisions: reading a fan override request
//! and rendering a fan channel's status line.
use crate::text::{dec_digits, fmt_tenths_spec, parse_unsigned, parse_unsigned_str, push_dec, push_tenths, str_eq, string_of};
use vstd::prelude::*;

verus! {

/// A fan override request from the command line.
#[derive(Clone, Copy, Debug, PartialEq, Eq, Structural)]
pub enum FanOverrideRequest {
    /// Return the channel to curve control.
    Clear,
    /// Hold the channel at this duty, in percent.
    Duty(u8),
}

/// Why a fan override request was refused.
#[derive(Clone, Copy, Debug, PartialEq, Eq, Structural)]
pub enum FanOverrideError {
    /// Neither `clear` nor a number that fits a byte.
    NotADuty,
    /// A number above 100.
    AboveFull,
}

impl FanOverrideError {
    pub fn message(&self) -> (s: &'static str)
        ensures
            s@ == match self {
                FanOverrideError::NotADuty => "duty must be 0-100 or 'clear'"@,
                FanOverrideError::AboveFull => "duty must be 0-100"@,
            },
    {
        match self {
            FanOverrideError::NotADuty => "duty must be 0-100 or 'clear'",
            FanOverrideError::AboveFull => "duty must be 0-100",
        }
    }
}

/// Reads the duty argument of `fan`: `clear`, or a percentage 0-100 read as
/// a `u8` is.
pub fn parse_fan_override(duty: &str) -> (r: Result<FanOverrideRequest, FanOverrideError>)
    ensures
        r == if duty@ == "clear"@ {
            Ok(FanOverrideRequest::Clear)
        } else {
            match parse_unsigned(duty@, 255) {
                Some(n) => if n <= 100 {
                    Ok(FanOverrideRequest::Duty(n as u8))
                } else {
                    Err(FanOverrideError::AboveFull)
                },
                None => Err(FanOverrideError::NotADuty),
            }
        },
{
    if str_eq(duty, "clear") {
        return Ok(FanOverrideRequest::Clear);
    }
    match parse_unsigned_str(duty, 255) {
        Some(n) => if n <= 100 {
            Ok(FanOverrideRequest::Duty(n as u8))
        } else {
            Err(FanOverrideError::AboveFull)
        },
        None => Err(FanOverrideError::NotADuty),
    }
}

/// A raw duty byte as a whole percentage of 255, rounded to nearest (a
/// byte value never falls halfway).
pub open spec fn byte_percent(d: int) -> nat {
    ((200 * d + 255) / 510) as nat
}

/// The value of the first entry named `name`.
pub open spec fn first_value<T>(v: Seq<(String, T)>, name: Seq<char>, n: int) -> Option<T>
    decreases n,
{
    if n <= 0 {
        None
    } else {
        match first_value(v, name, n - 1) {
            Some(x) => Some(x),
            None => if v[n - 1].0@ == name {
                Some(v[n - 1].1)
            } else {
                None
            },
        }
    }
}

pub open spec fn lookup<T>(v: Seq<(String, T)>, name: Seq<char>) -> Option<T> {
    first_value(v, name, v.len() as int)
}

pub open spec fn listed(v: Seq<String>, name: Seq<char>) -> bool {
    exists|k: int| 0 <= k < v.len() && (#[trigger] v[k])@ == name
}

proof fn lemma_first_value_stays<T>(v: Seq<(String, T)>, name: Seq<char>, m: int, n: int)
    requires
        0 <= m <= n,
        first_value(v, name, m) is Some,
    ensures
        first_value(v, name, n) == first_value(v, name, m),
    decreases n - m,
{
    if m < n {
        lemma_first_value_stays(v, name, m, n - 1);
    }
}

fn find_u8(v: &Vec<(String, u8)>, name: &str) -> (r: Option<u8>)
    ensures
        r == lookup(v@, name@),
{
    let mut k: usize = 0;
    while k < v.len()
        invariant
            k <= v@.len(),
            first_value(v@, name@, k as int) is None,
        decreases v@.len() - k,
    {
        if str_eq(v[k].0.as_str(), name) {
            proof {
                lemma_first_value_stays(v@, name@, k as int + 1, v@.len() as int);
            }
            return Some(v[k].1);
        }
        k = k + 1;
    }
    None
}

fn find_i32(v: &Vec<(String, i32)>, name: &str) -> (r: Option<i32>)
    ensures
        r == lookup(v@, name@),
{
    let mut k: usize = 0;
    while k < v.len()
        invariant
            k <= v@.len(),
            first_value(v@, name@, k as int) is None,
        decreases v@.len() - k,
    {
        if str_eq(v[k].0.as_str(), name) {
            proof {
                lemma_first_value_stays(v@, name@, k as int + 1, v@.len() as int);
            }
            return Some(v[k].1);
        }
        k = k + 1;
    }
    None
}

fn contains_name(v: &Vec<String>, name: &str) -> (r: bool)
    ensures
        r == listed(v@, name@),
{
    let mut k: usize = 0;
    while k < v.len()
        invariant
            k <= v@.len(),
            forall|j: int| 0 <= j < k ==> (#[trigger] v@[j])@ != name@,
        decreases v@.len() - k,
    {
        if str_eq(v[k].as_str(), name) {
            return true;
        }
        k = k + 1;
    }
    false
}

/// What the daemon reports of its channels, as the status command reads it.
pub struct ChannelReport {
    pub overrides: Vec<(String, u8)>,
    pub floors: Vec<(String, i32)>,
    pub rpms: Vec<(String, i32)>,
    pub stalled: Vec<String>,
    pub passthrough: Vec<String>,
}

pub open spec fn override_tag(r: ChannelReport, name: Seq<char>) -> Seq<char> {
    match lookup(r.overrides@, name) {
        Some(p) => " [override "@ + dec_digits(p as nat) + "%]"@,
        None => Seq::empty(),
    }
}

pub open spec fn floor_tag(r: ChannelReport, name: Seq<char>) -> Seq<char> {
    match lookup(r.floors@, name) {
        Some(d) => if d >= 0 {
            " [floor "@ + dec_digits(byte_percent(d as int)) + "%]"@
        } else {
            Seq::empty()
        },
        None => Seq::empty(),
    }
}

pub open spec fn rpm_tag(r: ChannelReport, name: Seq<char>) -> Seq<char> {
    match lookup(r.rpms@, name) {
        Some(x) => if x >= 0 {
            " ["@ + dec_digits(x as nat) + " RPM]"@
        } else {
            Seq::empty()
        },
        None => Seq::empty(),
    }
}

pub open spec fn stall_tag(r: ChannelReport, name: Seq<char>) -> Seq<char> {
    if listed(r.stalled@, name) {
        " [STALLED]"@
    } else {
        Seq::empty()
    }
}

/// The tags after a channel's duty: its override, its floor, its RPM and
/// whether it stalled.
pub open spec fn tags_text(r: ChannelReport, name: Seq<char>) -> Seq<char> {
    override_tag(r, name) + floor_tag(r, name) + rpm_tag(r, name) + stall_tag(r, name)
}

/// The status line of channel `name` whose raw duty is `duty` (-1 when
/// unknown).
pub open spec fn status_line_text(r: ChannelReport, name: Seq<char>, duty: i32) -> Seq<char> {
    if listed(r.passthrough@, name) {
        name + ": [passthrough]"@
    } else if duty >= 0 {
        name + ": "@ + dec_digits(duty as nat) + "/255 ("@ + dec_digits(byte_percent(duty as int))
            + "%)"@ + tags_text(r, name)
    } else {
        name + ": --"@ + tags_text(r, name)
    }
}

fn push_byte_percent(s: &mut String, d: i32)
    requires
        d >= 0,
    ensures
        final(s)@ == old(s)@ + dec_digits(byte_percent(d as int)),
{
    let p: u64 = ((200 * (d as u64)) + 255) / 510;
    push_dec(s, p);
}

fn push_override_tag(s: &mut String, r: &ChannelReport, name: &str)
    ensures
        final(s)@ == old(s)@ + override_tag(*r, name@),
{
    match find_u8(&r.overrides, name) {
        Some(p) => {
            s.append(" [override ");
            push_dec(s, p as u64);
            s.append("%]");
        },
        None => {},
    }
    assert(s@ =~= old(s)@ + override_tag(*r, name@));
}

fn push_floor_tag(s: &mut String, r: &ChannelReport, name: &str)
    ensures
        final(s)@ == old(s)@ + floor_tag(*r, name@),
{
    match find_i32(&r.floors, name) {
        Some(d) => if d >= 0 {
            s.append(" [floor ");
            push_byte_percent(s, d);
            s.append("%]");
        },
        None => {},
    }
    assert(s@ =~= old(s)@ + floor_tag(*r, name@));
}

fn push_rpm_tag(s: &mut String, r: &ChannelReport, name: &str)
    ensures
        final(s)@ == old(s)@ + rpm_tag(*r, name@),
{
    match find_i32(&r.rpms, name) {
        Some(x) => if x >= 0 {
            s.append(" [");
            push_dec(s, x as u64);
            s.append(" RPM]");
        },
        None => {},
    }
    assert(s@ =~= old(s)@ + rpm_tag(*r, name@));
}

fn push_tags(s: &mut String, r: &ChannelReport, name: &str)
    ensures
        final(s)@ == old(s)@ + tags_text(*r, name@),
{
    push_override_tag(s, r, name);
    push_floor_tag(s, r, name);
    push_rpm_tag(s, r, name);
    if contains_name(&r.stalled, name) {
        s.append(" [STALLED]");
    }
    assert(s@ =~= old(s)@ + tags_text(*r, name@));
}

/// The status line of a channel.
pub fn status_line(r: &ChannelReport, name: &str, duty: i32) -> (s: String)
    ensures
        s@ == status_line_text(*r, name@, duty),
{
    let mut s = string_of(name);
    if contains_name(&r.passthrough, name) {
        s.append(": [passthrough]");
        return s;
    }
    if duty >= 0 {
        s.append(": ");
        push_dec(&mut s, duty as u64);
        s.append("/255 (");
        push_byte_percent(&mut s, duty);
        s.append("%)");
    } else {
        s.append(": --");
    }
    let ghost head = s@;
    push_tags(&mut s, r, name);
    s
}

/// A temperature line of `powercurve status`: the label, then the
/// millidegrees in degrees to one decimal, then `C`.
pub fn temperature_line(label: &str, millideg: i64) -> (s: String)
    ensures
        s@ == label@ + fmt_tenths_spec(millideg as int) + "C"@,
{
    let mut s = string_of(label);
    push_tenths(&mut s, millideg);
    s.append("C");
    s
}

/// The CPU line of `powercurve profile`: the P-state limits and turbo.
pub fn pstate_line(min_perf_pct: u8, max_perf_pct: u8, no_turbo: bool) -> (s: String)
    ensures
        s@ == "CPU: "@ + dec_digits(min_perf_pct as nat) + "% - "@ + dec_digits(max_perf_pct as nat)
            + "%, "@ + if no_turbo {
            "No Turbo"@
        } else {
            "Turbo"@
        },
{
    let mut s = string_of("CPU: ");
    push_dec(&mut s, min_perf_pct as u64);
    s.append("% - ");
    push_dec(&mut s, max_perf_pct as u64);
    s.append("%, ");
    if no_turbo {
        s.append("No Turbo");
    } else {
        s.append("Turbo");
    }
    s
}

} // verus!
