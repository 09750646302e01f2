//! The fan daemon's decisions: building channels from a config, choosing
//! each channel's curve for a profile, and turning one round of sensor
//! readings into the duties to write.
//!
//! Reading and writing hwmon files is left to the caller, which hands in
//! what it read and performs the writes the daemon returns.
use crate::config_check::{count, count_severity, issue_views, validate, config_issues, Issue, Severity};
use crate::curve::{curve_pwm, duty_from_curve, FanCurve, FanPoint, TempSource};
use crate::fan_config::{ChannelConfig, CurvePoint, FanConfig};
use crate::text::{lowercase, str_eq, str_lowercase, string_of};
use vstd::prelude::*;
use vstd::string::*;

verus! {

/// Errors of hwmon discovery.
#[derive(Debug)]
pub enum FanDaemonError {
    /// The hwmon class could not be listed.
    HwmonDevices(std::io::Error),
    PlatformHwmonNotFound,
    CpuHwmonNotFound,
}

/// `std::io::Error`, carried through errors of this library.
#[verifier::external_type_specification]
#[verifier::external_body]
pub struct ExIoError(std::io::Error);

// ---------------------------------------------------------------------
// Conversions from the config's units
// ---------------------------------------------------------------------

/// `m / 10` rounded toward zero.
pub open spec fn trunc_div10(m: int) -> int {
    if m >= 0 {
        m / 10
    } else {
        -((-m) / 10)
    }
}

/// Clamp to the `i16` range.
pub open spec fn sat_i16(x: int) -> i16 {
    if x < -32768 {
        -32768i16
    } else if x > 32767 {
        32767i16
    } else {
        x as i16
    }
}

/// Clamp to the `u16` range.
pub open spec fn sat_u16(x: int) -> u16 {
    if x < 0 {
        0u16
    } else if x > 65535 {
        65535u16
    } else {
        x as u16
    }
}

/// Clamp to the `u32` range.
pub open spec fn sat_u32(x: int) -> u32 {
    if x < 0 {
        0u32
    } else if x > 4294967295 {
        4294967295u32
    } else {
        x as u32
    }
}

/// A config point as a curve point: hundredths, rounded toward zero and
/// clamped to the curve's integer types.
pub open spec fn curve_point_of(p: CurvePoint) -> FanPoint {
    FanPoint { temp: sat_i16(trunc_div10(p.temp as int)), duty: sat_u16(trunc_div10(p.duty as int)) }
}

pub open spec fn curve_points_of(points: Seq<CurvePoint>) -> Seq<FanPoint> {
    points.map_values(|p: CurvePoint| curve_point_of(p))
}

fn point_from_config(p: CurvePoint) -> (r: FanPoint)
    ensures
        r == curve_point_of(p),
{
    let t: i64 = if p.temp >= 0 {
        p.temp / 10
    } else {
        -((-(p.temp as i128)) / 10) as i64
    };
    let d: i64 = if p.duty >= 0 {
        p.duty / 10
    } else {
        -((-(p.duty as i128)) / 10) as i64
    };
    let temp: i16 = if t < -32768 {
        -32768
    } else if t > 32767 {
        32767
    } else {
        t as i16
    };
    let duty: u16 = if d < 0 {
        0
    } else if d > 65535 {
        65535
    } else {
        d as u16
    };
    FanPoint { temp, duty }
}

/// Convert config curve points (thousandths of a degree and of a percent)
/// to the internal curve.
pub fn build_curve(points: &Vec<CurvePoint>) -> (c: FanCurve)
    ensures
        c@ == curve_points_of(points@),
{
    let mut c = FanCurve::empty();
    let mut i: usize = 0;
    while i < points.len()
        invariant
            i <= points@.len(),
            c@ == curve_points_of(points@.subrange(0, i as int)),
        decreases points@.len() - i,
    {
        let p = point_from_config(points[i]);
        c = c.append(p.temp, p.duty);
        i = i + 1;
        assert(c@ =~= curve_points_of(points@.subrange(0, i as int)));
    }
    assert(points@.subrange(0, i as int) =~= points@);
    c
}

/// Parse a temperature source string from config. Defaults to All for
/// unrecognized values so fans never run without a temp signal.
pub open spec fn temp_source_of(s: Seq<char>) -> TempSource {
    if s == "cpu"@ {
        TempSource::Cpu
    } else if s == "gpu"@ {
        TempSource::Gpu
    } else {
        TempSource::All
    }
}

pub fn parse_temp_source(s: &str) -> (t: TempSource)
    ensures
        t == temp_source_of(s@),
{
    if str_eq(s, "cpu") {
        TempSource::Cpu
    } else if str_eq(s, "gpu") {
        TempSource::Gpu
    } else {
        TempSource::All
    }
}

/// A percentage in thousandths as a PWM byte: clamped to 0-100% and rounded
/// to the nearest byte, halves up.
pub open spec fn pwm_of_milli_percent(m: int) -> u8 {
    let c = if m < 0 {
        0
    } else if m > 100000 {
        100000
    } else {
        m
    };
    ((c * 255 + 50000) / 100000) as u8
}

pub fn min_duty_byte(m: i64) -> (b: u8)
    ensures
        b == pwm_of_milli_percent(m as int),
        b as int == pwm_of_milli_percent(m as int) as int,
{
    let c: i64 = if m < 0 {
        0
    } else if m > 100000 {
        100000
    } else {
        m
    };
    assert((c * 255 + 50000) / 100000 <= 255) by (nonlinear_arith)
        requires
            0 <= c <= 100000,
    ;
    ((c * 255 + 50000) / 100000) as u8
}

/// A whole percentage as a PWM byte, rounded to the nearest byte, halves up.
pub open spec fn pwm_of_percent(p: u8) -> u8 {
    let c = if p > 100 {
        100
    } else {
        p as int
    };
    ((c * 255 + 50) / 100) as u8
}

pub fn percent_to_pwm(p: u8) -> (b: u8)
    ensures
        b == pwm_of_percent(p),
{
    let c: u32 = if p > 100 {
        100
    } else {
        p as u32
    };
    assert((c * 255 + 50) / 100 <= 255) by (nonlinear_arith)
        requires
            0 <= c <= 100,
    ;
    ((c * 255 + 50) / 100) as u8
}

fn sat_u32_of(m: i64) -> (r: u32)
    ensures
        r == sat_u32(m as int),
{
    if m < 0 {
        0
    } else if m > 4294967295 {
        4294967295
    } else {
        m as u32
    }
}

// ---------------------------------------------------------------------
// Channels
// ---------------------------------------------------------------------

/// Maps a single PWM output to a temperature source and fan curve.
#[derive(Debug)]
pub struct FanChannel {
    pub pwm: String,
    pub source: TempSource,
    pub curve: FanCurve,
    pub min_duty: Option<u8>,
    pub stall_detect: bool,
    pub stall_threshold: u32,
    pub passthrough: bool,
}

/// Stored per-channel definition from config, used to rebuild curves
/// when the active profile changes.
#[derive(Debug)]
pub struct ChannelDef {
    pub pwm: String,
    pub source: TempSource,
    pub override_curve: Option<FanCurve>,
    /// Per-profile curves, keyed by lowercased profile name.
    pub profile_curves: Vec<(String, FanCurve)>,
    pub min_duty_byte: Option<u8>,
    pub stall_detect: bool,
    pub stall_threshold: u32,
    pub passthrough: bool,
}

/// The curve stored under `key`: the first entry with that name.
pub open spec fn lookup_curve(entries: Seq<(String, FanCurve)>, key: Seq<char>) -> Option<
    Seq<FanPoint>,
>
    decreases entries.len(),
{
    if entries.len() == 0 {
        None
    } else if entries[0].0@ == key {
        Some(entries[0].1@)
    } else {
        lookup_curve(entries.subrange(1, entries.len() as int), key)
    }
}

fn find_curve<'a>(entries: &'a Vec<(String, FanCurve)>, key: &str) -> (r: Option<&'a FanCurve>)
    ensures
        match r {
            Some(c) => lookup_curve(entries@, key@) == Some(c@),
            None => lookup_curve(entries@, key@) is None,
        },
{
    let mut k: usize = 0;
    assert(entries@.subrange(0, entries@.len() as int) =~= entries@);
    while k < entries.len()
        invariant
            k <= entries@.len(),
            lookup_curve(entries@, key@) == lookup_curve(
                entries@.subrange(k as int, entries@.len() as int),
                key@,
            ),
        decreases entries@.len() - k,
    {
        let ghost rest = entries@.subrange(k as int, entries@.len() as int);
        assert(rest[0] == entries@[k as int]);
        if str_eq(entries[k].0.as_str(), key) {
            return Some(&entries[k].1);
        }
        assert(rest.subrange(1, rest.len() as int) =~= entries@.subrange(
            k + 1,
            entries@.len() as int,
        ));
        k = k + 1;
    }
    None
}

/// Lowercased names with the curves built from their points.
pub open spec fn named_curves_of(entries: Seq<(String, Seq<CurvePoint>)>) -> Seq<
    (Seq<char>, Seq<FanPoint>),
> {
    entries.map_values(
        |e: (String, Seq<CurvePoint>)| (str_lowercase(e.0@), curve_points_of(e.1)),
    )
}

pub open spec fn curve_entries_view(entries: Seq<(String, FanCurve)>) -> Seq<
    (Seq<char>, Seq<FanPoint>),
> {
    entries.map_values(|e: (String, FanCurve)| (e.0@, e.1@))
}

/// Some entry carries the name `k`.
pub open spec fn has_name(s: Seq<(Seq<char>, Seq<FanPoint>)>, k: Seq<char>) -> bool {
    exists|i: int| 0 <= i < s.len() && (#[trigger] s[i]).0 == k
}

/// No name is carried by two entries.
pub open spec fn names_unique(s: Seq<(Seq<char>, Seq<FanPoint>)>) -> bool {
    forall|i: int, j: int| 0 <= i < j < s.len() ==> (#[trigger] s[i]).0 != (#[trigger] s[j]).0
}

/// The entries with every later entry of an earlier name left out.
pub open spec fn first_per_name(s: Seq<(Seq<char>, Seq<FanPoint>)>) -> Seq<
    (Seq<char>, Seq<FanPoint>),
>
    decreases s.len(),
{
    if s.len() == 0 {
        s
    } else {
        let d = first_per_name(s.drop_last());
        if has_name(d, s.last().0) {
            d
        } else {
            d.push(s.last())
        }
    }
}

/// The curve of the first entry named `k`.
pub open spec fn lookup_named(s: Seq<(Seq<char>, Seq<FanPoint>)>, k: Seq<char>) -> Option<
    Seq<FanPoint>,
>
    decreases s.len(),
{
    if s.len() == 0 {
        None
    } else if s[0].0 == k {
        Some(s[0].1)
    } else {
        lookup_named(s.subrange(1, s.len() as int), k)
    }
}

/// Looking a name up in stored entries is looking it up in their view.
pub proof fn lemma_lookup_view(e: Seq<(String, FanCurve)>, k: Seq<char>)
    ensures
        lookup_curve(e, k) == lookup_named(curve_entries_view(e), k),
    decreases e.len(),
{
    if e.len() > 0 {
        let rest = e.subrange(1, e.len() as int);
        assert(curve_entries_view(e).subrange(1, e.len() as int) =~= curve_entries_view(rest));
        lemma_lookup_view(rest, k);
    }
}

proof fn lemma_lookup_named_push(
    s: Seq<(Seq<char>, Seq<FanPoint>)>,
    x: (Seq<char>, Seq<FanPoint>),
    k: Seq<char>,
)
    ensures
        lookup_named(s.push(x), k) == match lookup_named(s, k) {
            Some(c) => Some(c),
            None => if x.0 == k {
                Some(x.1)
            } else {
                None
            },
        },
    decreases s.len(),
{
    let sx = s.push(x);
    if s.len() > 0 {
        let rest = s.subrange(1, s.len() as int);
        assert(sx.subrange(1, sx.len() as int) =~= rest.push(x));
        assert(sx[0] == s[0]);
        lemma_lookup_named_push(rest, x, k);
        assert(lookup_named(sx, k) == if s[0].0 == k {
            Some(s[0].1)
        } else {
            lookup_named(rest.push(x), k)
        });
    } else {
        let e = Seq::<(Seq<char>, Seq<FanPoint>)>::empty();
        assert(sx.subrange(1, 1) =~= e);
        assert(lookup_named(e, k) is None);
        assert(sx[0] == x);
        assert(lookup_named(sx, k) == if x.0 == k {
            Some(x.1)
        } else {
            lookup_named(e, k)
        });
    }
}

/// A name is found exactly when some entry carries it.
pub proof fn lemma_lookup_named_none(s: Seq<(Seq<char>, Seq<FanPoint>)>, k: Seq<char>)
    ensures
        lookup_named(s, k) is None <==> !has_name(s, k),
    decreases s.len(),
{
    if s.len() > 0 {
        let rest = s.subrange(1, s.len() as int);
        lemma_lookup_named_none(rest, k);
        if has_name(s, k) && s[0].0 != k {
            let i = choose|i: int| 0 <= i < s.len() && (#[trigger] s[i]).0 == k;
            assert(rest[i - 1].0 == k);
        }
        if has_name(rest, k) {
            let i = choose|i: int| 0 <= i < rest.len() && (#[trigger] rest[i]).0 == k;
            assert(s[i + 1].0 == k);
        }
    }
}

/// Keeping only the first entry of each name leaves no name twice, keeps
/// every name, and leaves what every name looks up unchanged.
pub proof fn lemma_first_per_name(s: Seq<(Seq<char>, Seq<FanPoint>)>, k: Seq<char>)
    ensures
        names_unique(first_per_name(s)),
        has_name(first_per_name(s), k) == has_name(s, k),
        lookup_named(first_per_name(s), k) == lookup_named(s, k),
    decreases s.len(),
{
    if s.len() > 0 {
        let p = s.drop_last();
        let x = s.last();
        let d = first_per_name(p);
        assert(s =~= p.push(x));
        lemma_first_per_name(p, k);
        lemma_first_per_name(p, x.0);
        lemma_lookup_named_push(p, x, k);
        lemma_lookup_named_none(p, k);
        lemma_lookup_named_none(d, k);
        if has_name(p, k) {
            let i = choose|i: int| 0 <= i < p.len() && (#[trigger] p[i]).0 == k;
            assert(s[i].0 == k);
        }
        if has_name(s, k) && x.0 != k {
            let i = choose|i: int| 0 <= i < s.len() && (#[trigger] s[i]).0 == k;
            assert(p[i].0 == k);
        }
        if !has_name(d, x.0) {
            let dx = d.push(x);
            lemma_lookup_named_push(d, x, k);
            assert forall|i: int, j: int| 0 <= i < j < dx.len() implies (#[trigger] dx[i]).0
                != (#[trigger] dx[j]).0 by {
                if j == d.len() {
                    assert(dx[i] == d[i]);
                    if d[i].0 == x.0 {
                        assert(has_name(d, x.0));
                    }
                } else {
                    assert(dx[i] == d[i] && dx[j] == d[j]);
                }
            }
            if has_name(d, k) {
                let i = choose|i: int| 0 <= i < d.len() && (#[trigger] d[i]).0 == k;
                assert(dx[i].0 == k);
            }
            if has_name(dx, k) && x.0 != k {
                let i = choose|i: int| 0 <= i < dx.len() && (#[trigger] dx[i]).0 == k;
                assert(d[i].0 == k);
            }
            assert(dx[d.len() as int] == x);
        }
    }
}

/// The definition a channel config gives: its source, curves, floor as a
/// PWM byte, and stall and passthrough settings with their defaults.
pub open spec fn def_matches(d: ChannelDef, ch: ChannelConfig) -> bool {
    &&& d.pwm@ == ch.pwm@
    &&& d.source == temp_source_of(ch.source@)
    &&& match ch.curve {
        Some(c) => d.override_curve is Some && d.override_curve.unwrap()@ == curve_points_of(c@),
        None => d.override_curve is None,
    }
    &&& curve_entries_view(d.profile_curves@) == match ch.profiles {
        Some(ps) => first_per_name(
            named_curves_of(
                ps@.map_values(
                    |e: (String, crate::fan_config::ChannelProfileConfig)| (e.0, e.1.curve@),
                ),
            ),
        ),
        None => Seq::empty(),
    }
    &&& names_unique(curve_entries_view(d.profile_curves@))
    &&& d.min_duty_byte == match ch.min_duty {
        Some(m) => Some(pwm_of_milli_percent(m as int)),
        None => None,
    }
    &&& d.stall_detect == match ch.stall_detect {
        Some(b) => b,
        None => false,
    }
    &&& d.stall_threshold == match ch.stall_threshold {
        Some(t) => t,
        None => 3u32,
    }
    &&& d.passthrough == match ch.passthrough {
        Some(b) => b,
        None => false,
    }
}

fn clone_curve_entries(
    ps: &Vec<(String, crate::fan_config::ChannelProfileConfig)>,
) -> (r: Vec<(String, FanCurve)>)
    ensures
        curve_entries_view(r@) == first_per_name(
            named_curves_of(
                ps@.map_values(|e: (String, crate::fan_config::ChannelProfileConfig)| (e.0, e.1.curve@)),
            ),
        ),
        names_unique(curve_entries_view(r@)),
{
    let ghost src = ps@.map_values(
        |e: (String, crate::fan_config::ChannelProfileConfig)| (e.0, e.1.curve@),
    );
    let mut r: Vec<(String, FanCurve)> = Vec::new();
    let mut k: usize = 0;
    while k < ps.len()
        invariant
            k <= ps@.len(),
            src == ps@.map_values(
                |e: (String, crate::fan_config::ChannelProfileConfig)| (e.0, e.1.curve@),
            ),
            curve_entries_view(r@) == first_per_name(named_curves_of(src.subrange(0, k as int))),
        decreases ps@.len() - k,
    {
        let name = lowercase(ps[k].0.as_str());
        // Only the first curve of a name is kept: lookups take the first.
        let known = find_curve(&r, name.as_str()).is_some();
        let ghost x = (str_lowercase(src[k as int].0@), curve_points_of(src[k as int].1));
        proof {
            lemma_lookup_view(r@, name@);
            lemma_lookup_named_none(curve_entries_view(r@), name@);
            assert(src[k as int] == (ps@[k as int].0, ps@[k as int].1.curve@));
            assert(named_curves_of(src.subrange(0, k + 1)).drop_last() =~= named_curves_of(
                src.subrange(0, k as int),
            ));
            assert(named_curves_of(src.subrange(0, k + 1)).last() == x);
        }
        if !known {
            let curve = build_curve(&ps[k].1.curve);
            let ghost old_r = r@;
            r.push((name, curve));
            assert(curve_entries_view(r@) =~= curve_entries_view(old_r).push(x));
        }
        k = k + 1;
    }
    assert(src.subrange(0, k as int) =~= src);
    proof {
        lemma_first_per_name(named_curves_of(src), Seq::empty());
    }
    r
}

fn def_from_config(ch: &ChannelConfig) -> (d: ChannelDef)
    ensures
        def_matches(d, *ch),
{
    let profile_curves = match &ch.profiles {
        Some(ps) => clone_curve_entries(ps),
        None => {
            let v: Vec<(String, FanCurve)> = Vec::new();
            assert(curve_entries_view(v@) =~= Seq::empty());
            v
        },
    };
    let min_duty_byte = match ch.min_duty {
        Some(m) => Some(min_duty_byte(m)),
        None => None,
    };
    let override_curve = match &ch.curve {
        Some(c) => Some(build_curve(c)),
        None => None,
    };
    ChannelDef {
        pwm: ch.pwm.clone(),
        source: parse_temp_source(ch.source.as_str()),
        override_curve,
        profile_curves,
        min_duty_byte,
        stall_detect: match ch.stall_detect {
            Some(b) => b,
            None => false,
        },
        stall_threshold: match ch.stall_threshold {
            Some(t) => t,
            None => 3,
        },
        passthrough: match ch.passthrough {
            Some(b) => b,
            None => false,
        },
    }
}

/// The curve a channel runs under a profile, most specific first:
/// 1. per-channel per-profile curve (this channel + this profile)
/// 2. per-channel default curve (this channel, any profile)
/// 3. per-profile global curve (any channel, this profile)
/// 4. shared top-level curve (fallback)
pub open spec fn resolved_curve(
    d: ChannelDef,
    profile: Seq<char>,
    globals: Seq<(String, FanCurve)>,
    shared: Seq<FanPoint>,
) -> Seq<FanPoint> {
    match lookup_curve(d.profile_curves@, profile) {
        Some(c) => c,
        None => match d.override_curve {
            Some(c) => c@,
            None => match lookup_curve(globals, profile) {
                Some(c) => c,
                None => shared,
            },
        },
    }
}

/// The order in which a channel's curve is chosen for a profile: its own
/// curve for the profile, else its own curve, else the profile's global
/// curve, else the shared curve. A channel with a curve of its own never
/// runs a profile's global curve, whatever the global curves are.
pub proof fn lemma_curve_precedence(
    d: ChannelDef,
    profile: Seq<char>,
    globals: Seq<(String, FanCurve)>,
    other_globals: Seq<(String, FanCurve)>,
    shared: Seq<FanPoint>,
)
    ensures
        lookup_curve(d.profile_curves@, profile) matches Some(c) ==> resolved_curve(
            d,
            profile,
            globals,
            shared,
        ) == c,
        lookup_curve(d.profile_curves@, profile) is None && d.override_curve is Some
            ==> resolved_curve(d, profile, globals, shared) == d.override_curve.unwrap()@,
        d.override_curve is Some ==> resolved_curve(d, profile, globals, shared) == resolved_curve(
            d,
            profile,
            other_globals,
            shared,
        ),
        lookup_curve(d.profile_curves@, profile) is None && d.override_curve is None
            && lookup_curve(globals, profile) is Some ==> resolved_curve(d, profile, globals, shared)
            == lookup_curve(globals, profile).unwrap(),
        lookup_curve(d.profile_curves@, profile) is None && d.override_curve is None
            && lookup_curve(globals, profile) is None ==> resolved_curve(d, profile, globals, shared)
            == shared,
{
}

/// The channel a definition gives, running the given curve.
pub open spec fn channel_matches(ch: FanChannel, d: ChannelDef, curve: Seq<FanPoint>) -> bool {
    &&& ch.pwm@ == d.pwm@
    &&& ch.source == d.source
    &&& ch.curve@ == curve
    &&& ch.min_duty == d.min_duty_byte
    &&& ch.stall_detect == d.stall_detect
    &&& ch.stall_threshold == d.stall_threshold
    &&& ch.passthrough == d.passthrough
}

fn channel_from_def(d: &ChannelDef, curve: &FanCurve) -> (ch: FanChannel)
    ensures
        channel_matches(ch, *d, curve@),
{
    FanChannel {
        pwm: d.pwm.clone(),
        source: d.source,
        curve: curve.clone(),
        min_duty: d.min_duty_byte,
        stall_detect: d.stall_detect,
        stall_threshold: d.stall_threshold,
        passthrough: d.passthrough,
    }
}

// ---------------------------------------------------------------------
// Status shared with D-Bus handlers
// ---------------------------------------------------------------------

/// Snapshot of the fan daemon's current state, shared with D-Bus handlers.
#[derive(Debug)]
pub struct FanStatus {
    pub cpu_temp: Option<u32>,
    pub gpu_temp: Option<u32>,
    pub channel_duties: Vec<(String, Option<u8>)>,
    /// Curves of the channels under curve control, for display.
    pub channel_curves: Vec<(String, FanCurve)>,
    /// Temporary duty overrides as whole percentages, by channel.
    pub overrides: Vec<(String, u8)>,
    pub min_duties: Vec<(String, Option<u8>)>,
    pub rpms: Vec<(String, Option<u32>)>,
    pub stalled: Vec<String>,
    pub passthrough: Vec<String>,
    pub critical: bool,
    pub config_loaded: bool,
}

/// The override percentage stored for a channel: the first entry for it.
pub open spec fn override_of(ov: Seq<(String, u8)>, pwm: Seq<char>) -> Option<u8>
    decreases ov.len(),
{
    if ov.len() == 0 {
        None
    } else if ov[0].0@ == pwm {
        Some(ov[0].1)
    } else {
        override_of(ov.subrange(1, ov.len() as int), pwm)
    }
}

/// No channel has two override entries.
pub open spec fn override_names_unique(ov: Seq<(String, u8)>) -> bool {
    forall|i: int, j: int| 0 <= i < j < ov.len() ==> (#[trigger] ov[i]).0@ != (#[trigger] ov[j]).0@
}

/// A channel without an override has no entry at all.
proof fn lemma_override_of_none(ov: Seq<(String, u8)>, pwm: Seq<char>)
    requires
        override_of(ov, pwm) is None,
    ensures
        forall|i: int| 0 <= i < ov.len() ==> (#[trigger] ov[i]).0@ != pwm,
    decreases ov.len(),
{
    if ov.len() > 0 {
        let rest = ov.subrange(1, ov.len() as int);
        lemma_override_of_none(rest, pwm);
        assert forall|i: int| 0 <= i < ov.len() implies (#[trigger] ov[i]).0@ != pwm by {
            if i > 0 {
                assert(ov[i] == rest[i - 1]);
            }
        }
    }
}

/// The channels that have an override, in order, with their percentages.
pub open spec fn overrides_view(ov: Seq<(String, u8)>) -> Seq<(Seq<char>, u8)> {
    ov.map_values(|e: (String, u8)| (e.0@, e.1))
}

fn find_override(ov: &Vec<(String, u8)>, pwm: &str) -> (r: Option<u8>)
    ensures
        r == override_of(ov@, pwm@),
{
    let mut k: usize = 0;
    assert(ov@.subrange(0, ov@.len() as int) =~= ov@);
    while k < ov.len()
        invariant
            k <= ov@.len(),
            override_of(ov@, pwm@) == override_of(ov@.subrange(k as int, ov@.len() as int), pwm@),
        decreases ov@.len() - k,
    {
        let ghost rest = ov@.subrange(k as int, ov@.len() as int);
        assert(rest[0] == ov@[k as int]);
        if str_eq(ov[k].0.as_str(), pwm) {
            return Some(ov[k].1);
        }
        assert(rest.subrange(1, rest.len() as int) =~= ov@.subrange(k + 1, ov@.len() as int));
        k = k + 1;
    }
    None
}

impl FanStatus {
    pub fn new() -> (s: Self)
        ensures
            s.overrides@.len() == 0,
            override_names_unique(s.overrides@),
            !s.config_loaded,
            !s.critical,
            s.cpu_temp is None,
            s.gpu_temp is None,
            s.channel_duties@.len() == 0,
            s.channel_curves@.len() == 0,
            s.min_duties@.len() == 0,
            s.rpms@.len() == 0,
            s.stalled@.len() == 0,
            s.passthrough@.len() == 0,
    {
        FanStatus {
            cpu_temp: None,
            gpu_temp: None,
            channel_duties: Vec::new(),
            channel_curves: Vec::new(),
            overrides: Vec::new(),
            min_duties: Vec::new(),
            rpms: Vec::new(),
            stalled: Vec::new(),
            passthrough: Vec::new(),
            critical: false,
            config_loaded: false,
        }
    }

    /// The override percentage of a channel, if one is set.
    pub fn override_for(&self, pwm: &str) -> (r: Option<u8>)
        ensures
            r == override_of(self.overrides@, pwm@),
    {
        find_override(&self.overrides, pwm)
    }

    /// Set a channel's override to a percentage, replacing an earlier one.
    /// No channel ever gets a second entry.
    pub fn set_override(&mut self, pwm: &str, percent: u8)
        ensures
            *final(self) == (FanStatus { overrides: final(self).overrides, ..*old(self) }),
            override_of(final(self).overrides@, pwm@) == Some(percent),
            override_names_unique(old(self).overrides@) ==> override_names_unique(
                final(self).overrides@,
            ),
            forall|other: Seq<char>|
                other != pwm@ ==> override_of(final(self).overrides@, other) == override_of(
                    old(self).overrides@,
                    other,
                ),
    {
        self.clear_override(pwm);
        let ghost before = self.overrides@;
        let mut v: Vec<(String, u8)> = Vec::new();
        v.push((string_of(pwm), percent));
        let mut k: usize = 0;
        while k < self.overrides.len()
            invariant
                k <= self.overrides@.len(),
                self.overrides@ == before,
                v@.len() == k + 1,
                v@[0].0@ == pwm@,
                v@[0].1 == percent,
                v@.subrange(1, v@.len() as int) =~= before.subrange(0, k as int),
            decreases self.overrides@.len() - k,
        {
            v.push((self.overrides[k].0.clone(), self.overrides[k].1));
            k = k + 1;
            assert(v@.subrange(1, v@.len() as int) =~= before.subrange(0, k as int));
        }
        assert(v@.subrange(1, v@.len() as int) =~= before);
        proof {
            lemma_override_of_none(before, pwm@);
            if override_names_unique(old(self).overrides@) {
                assert forall|i: int, j: int| 0 <= i < j < v@.len() implies (#[trigger] v@[i]).0@
                    != (#[trigger] v@[j]).0@ by {
                    assert(v@[j] == before[j - 1]);
                    if i > 0 {
                        assert(v@[i] == before[i - 1]);
                    }
                }
            }
        }
        self.overrides = v;
        assert forall|other: Seq<char>| other != pwm@ implies override_of(self.overrides@, other)
            == override_of(before, other) by {
            assert(self.overrides@.subrange(1, self.overrides@.len() as int) == before);
        }
    }

    /// Remove a channel's override.
    pub fn clear_override(&mut self, pwm: &str)
        ensures
            *final(self) == (FanStatus { overrides: final(self).overrides, ..*old(self) }),
            override_of(final(self).overrides@, pwm@) is None,
            override_names_unique(old(self).overrides@) ==> override_names_unique(
                final(self).overrides@,
            ),
            forall|other: Seq<char>|
                other != pwm@ ==> override_of(final(self).overrides@, other) == override_of(
                    old(self).overrides@,
                    other,
                ),
    {
        let ghost before = self.overrides@;
        let mut v: Vec<(String, u8)> = Vec::new();
        // Where each kept entry came from, in increasing order.
        let ghost mut idx: Seq<int> = Seq::empty();
        let mut k: usize = 0;
        while k < self.overrides.len()
            invariant
                k <= self.overrides@.len(),
                self.overrides@ == before,
                idx.len() == v@.len(),
                forall|i: int|
                    0 <= i < v@.len() ==> 0 <= #[trigger] idx[i] < k && v@[i].0@ == before[idx[i]].0@,
                forall|i: int, j: int| 0 <= i < j < idx.len() ==> #[trigger] idx[i] < #[trigger] idx[j],
                override_of(v@, pwm@) is None,
                forall|other: Seq<char>|
                    other != pwm@ ==> #[trigger] override_of(v@, other) == override_of(
                        before.subrange(0, k as int),
                        other,
                    ),
            decreases self.overrides@.len() - k,
        {
            let ghost old_v = v@;
            let keep = !str_eq(self.overrides[k].0.as_str(), pwm);
            if keep {
                v.push((self.overrides[k].0.clone(), self.overrides[k].1));
                proof {
                    idx = idx.push(k as int);
                }
            }
            proof {
                lemma_override_of_push(old_v, before[k as int], pwm@);
                lemma_override_of_push(before.subrange(0, k as int), before[k as int], pwm@);
                assert(before.subrange(0, k as int).push(before[k as int]) =~= before.subrange(
                    0,
                    k + 1,
                ));
                assert forall|other: Seq<char>| other != pwm@ implies #[trigger] override_of(
                    v@,
                    other,
                ) == override_of(before.subrange(0, k + 1), other) by {
                    lemma_override_of_push(old_v, before[k as int], other);
                    lemma_override_of_push(before.subrange(0, k as int), before[k as int], other);
                }
            }
            k = k + 1;
        }
        assert(before.subrange(0, k as int) =~= before);
        proof {
            if override_names_unique(before) {
                assert forall|i: int, j: int| 0 <= i < j < v@.len() implies (#[trigger] v@[i]).0@
                    != (#[trigger] v@[j]).0@ by {
                    assert(idx[i] < idx[j]);
                    assert(before[idx[i]].0@ != before[idx[j]].0@);
                }
            }
        }
        self.overrides = v;
    }

    /// Remove every override.
    pub fn clear_overrides(&mut self)
        ensures
            final(self).overrides@.len() == 0,
            override_names_unique(final(self).overrides@),
            *final(self) == (FanStatus { overrides: final(self).overrides, ..*old(self) }),
    {
        self.overrides = Vec::new();
    }
}

proof fn lemma_override_of_push(ov: Seq<(String, u8)>, e: (String, u8), key: Seq<char>)
    ensures
        override_of(ov.push(e), key) == match override_of(ov, key) {
            Some(p) => Some(p),
            None => if e.0@ == key {
                Some(e.1)
            } else {
                None
            },
        },
    decreases ov.len(),
{
    if ov.len() == 0 {
        let s = ov.push(e);
        assert(s[0] == e);
        assert(s.subrange(1, s.len() as int) =~= Seq::<(String, u8)>::empty());
        assert(override_of(Seq::<(String, u8)>::empty(), key) is None);
    } else {
        let s = ov.push(e);
        assert(s[0] == ov[0]);
        assert(s.subrange(1, s.len() as int) =~= ov.subrange(1, ov.len() as int).push(e));
        lemma_override_of_push(ov.subrange(1, ov.len() as int), e, key);
    }
}


// ---------------------------------------------------------------------
// Per-channel decisions
// ---------------------------------------------------------------------

/// Fallback duty for stall recovery and for a lost temperature source when
/// no min_duty is configured (~15%).
pub const STALL_FALLBACK_DUTY: u8 = 38;

/// Steps (one per second) without a reading before a channel whose
/// temperature source is gone goes to full speed.
pub const MISSING_SOURCE_ESCALATION: u32 = 30;

/// What to do with a channel's PWM output this round.
#[derive(Clone, Copy, Debug, PartialEq, Eq, Structural)]
pub enum PwmAction {
    /// Leave the output alone (passthrough channels, firmware control).
    Leave,
    /// Hand the output back to firmware control (`pwmN_enable = 2`).
    Auto,
    /// Take manual control and write this duty (`pwmN_enable = 1`).
    Write(u8),
}

/// What the daemon remembers of a channel between rounds.
#[derive(Clone, Copy, Debug, PartialEq, Eq, Structural)]
pub struct ChannelMemory {
    /// Duty last chosen from the curve, for hysteresis.
    pub last_duty: u8,
    /// Temperature at which `last_duty` was chosen.
    pub last_temp: Option<u32>,
    /// Consecutive rounds spinning with a zero tachometer reading.
    pub stall_count: u32,
    /// Consecutive rounds without a temperature reading.
    pub missing: u32,
    /// Duty last written to the channel (0 before the first write).
    pub written: u8,
}

/// The outcome of one round for one channel.
#[derive(Clone, Copy, Debug, PartialEq, Eq, Structural)]
pub struct ChannelDecision {
    pub action: PwmAction,
    /// The duty reported in the status (`None`: not under manual control).
    pub duty: Option<u8>,
    /// The RPM reported in the status.
    pub rpm: Option<u32>,
    /// The channel is being bumped out of a stall this round.
    pub stalled: bool,
    /// A new stall episode began this round.
    pub stall_started: bool,
    /// The temperature source went missing this round.
    pub source_lost: bool,
    pub memory: ChannelMemory,
}

/// The temperature a source reads, in millidegrees.
pub open spec fn temp_for(source: TempSource, cpu: Option<u32>, gpu: Option<u32>) -> Option<u32> {
    match source {
        TempSource::Cpu => cpu,
        TempSource::Gpu => gpu,
        TempSource::All => match (cpu, gpu) {
            (Some(c), Some(g)) => Some(if c >= g {
                c
            } else {
                g
            }),
            (Some(c), None) => Some(c),
            (None, Some(g)) => Some(g),
            (None, None) => None,
        },
    }
}

pub fn get_temp_for(source: TempSource, cpu: Option<u32>, gpu: Option<u32>) -> (t: Option<u32>)
    ensures
        t == temp_for(source, cpu, gpu),
{
    match source {
        TempSource::Cpu => cpu,
        TempSource::Gpu => gpu,
        TempSource::All => match (cpu, gpu) {
            (Some(c), Some(g)) => Some(if c >= g {
                c
            } else {
                g
            }),
            (Some(c), None) => Some(c),
            (None, Some(g)) => Some(g),
            (None, None) => None,
        },
    }
}

/// The curve duty after hysteresis: a rise is taken at once; a fall is
/// taken only once the temperature has dropped by `hyst` since the last
/// duty was chosen. Gives the duty and the updated memory.
pub open spec fn hysteresis_step(new_duty: u8, temp: u32, mem: ChannelMemory, hyst: u32) -> (
    u8,
    ChannelMemory,
) {
    let taken = ChannelMemory { last_duty: new_duty, last_temp: Some(temp), ..mem };
    if new_duty >= mem.last_duty {
        (new_duty, taken)
    } else {
        match mem.last_temp {
            Some(lt) => if (if lt >= temp {
                lt - temp
            } else {
                0
            }) >= hyst {
                (new_duty, taken)
            } else {
                (mem.last_duty, mem)
            },
            None => (new_duty, taken),
        }
    }
}

/// The duty held while the temperature source is missing: the duty last
/// written, never below the spin-up fallback or the floor, and full speed
/// once the source has been gone for the escalation period.
pub open spec fn missing_source_duty(mem: ChannelMemory, floor: Option<u8>) -> u8 {
    if mem.missing + 1 >= MISSING_SOURCE_ESCALATION {
        255u8
    } else {
        let f: u8 = match floor {
            Some(f) => if f >= STALL_FALLBACK_DUTY {
                f
            } else {
                STALL_FALLBACK_DUTY
            },
            None => STALL_FALLBACK_DUTY,
        };
        if mem.written >= f {
            mem.written
        } else {
            f
        }
    }
}

/// The duty with the channel's floor applied.
pub open spec fn floored(duty: Option<u8>, floor: Option<u8>) -> Option<u8> {
    match (duty, floor) {
        (Some(d), Some(f)) => Some(if d >= f {
            d
        } else {
            f
        }),
        (None, Some(f)) => Some(f),
        (d, None) => d,
    }
}

pub open spec fn sat_inc(x: u32) -> u32 {
    if x == u32::MAX {
        x
    } else {
        (x + 1) as u32
    }
}

/// A decision with the duty it writes remembered as the last one written.
pub open spec fn record_write(dec: ChannelDecision) -> ChannelDecision {
    match dec.action {
        PwmAction::Write(d) => ChannelDecision { memory: ChannelMemory { written: d, ..dec.memory }, ..dec },
        _ => dec,
    }
}

/// The decision of one round for a channel under curve control.
pub open spec fn curve_decision(
    ch: FanChannel,
    mem: ChannelMemory,
    temp: Option<u32>,
    rpm: Option<u32>,
    hyst: u32,
) -> ChannelDecision {
    record_write(curve_round(ch, mem, temp, rpm, hyst))
}

/// A curve round before the written duty is remembered.
pub open spec fn curve_round(
    ch: FanChannel,
    mem: ChannelMemory,
    temp: Option<u32>,
    rpm: Option<u32>,
    hyst: u32,
) -> ChannelDecision {
    // The duty from the curve, or the duty held while the source is missing.
    let (eff, mem1, lost): (Option<u8>, ChannelMemory, bool) = match temp {
        Some(t) => {
            let m0 = ChannelMemory { missing: 0, ..mem };
            match curve_pwm(ch.curve@, t) {
                Some(d) => {
                    let (e, m) = hysteresis_step(d, t, m0, hyst);
                    (Some(e), m, false)
                },
                None => (None, m0, false),
            }
        },
        None => (
            Some(missing_source_duty(mem, ch.min_duty)),
            ChannelMemory { missing: sat_inc(mem.missing), ..mem },
            mem.missing == 0,
        ),
    };
    let fl = floored(eff, ch.min_duty);
    let spinning = match fl {
        Some(d) => d > 0,
        None => false,
    };
    let zero = rpm == Some(0u32);
    let reported_rpm = if ch.stall_detect {
        rpm
    } else {
        None
    };
    if ch.stall_detect && spinning && zero {
        let count = sat_inc(mem1.stall_count);
        let mem2 = ChannelMemory { stall_count: count, ..mem1 };
        if count >= ch.stall_threshold {
            let bump: u8 = match ch.min_duty {
                Some(f) => f,
                None => STALL_FALLBACK_DUTY,
            };
            let d = fl.unwrap();
            let out = if d >= bump {
                d
            } else {
                bump
            };
            ChannelDecision {
                action: PwmAction::Write(out),
                duty: Some(out),
                rpm: reported_rpm,
                stalled: true,
                stall_started: mem1.stall_count < ch.stall_threshold,
                source_lost: lost,
                memory: mem2,
            }
        } else {
            ChannelDecision {
                action: PwmAction::Write(d_of(fl)),
                duty: fl,
                rpm: reported_rpm,
                stalled: false,
                stall_started: false,
                source_lost: lost,
                memory: mem2,
            }
        }
    } else {
        let mem2 = if ch.stall_detect {
            ChannelMemory { stall_count: 0, ..mem1 }
        } else {
            mem1
        };
        ChannelDecision {
            action: match fl {
                Some(d) => PwmAction::Write(d),
                None => PwmAction::Auto,
            },
            duty: fl,
            rpm: reported_rpm,
            stalled: false,
            stall_started: false,
            source_lost: lost,
            memory: mem2,
        }
    }
}

pub open spec fn d_of(d: Option<u8>) -> u8 {
    match d {
        Some(x) => x,
        None => 0,
    }
}

/// The decision of one round for a channel: passthrough channels are left
/// alone; on a critical temperature every other channel runs at full
/// speed; so does a channel fed by an unreadable GPU, override or not; an
/// override sets its percentage; every other channel follows its curve.
pub open spec fn decide(
    ch: FanChannel,
    mem: ChannelMemory,
    cpu: Option<u32>,
    gpu: Option<u32>,
    gpu_blind: bool,
    critical: bool,
    ov: Option<u8>,
    rpm: Option<u32>,
    hyst: u32,
) -> ChannelDecision {
    let forced = |d: u8|
        ChannelDecision {
            action: PwmAction::Write(d),
            duty: Some(d),
            rpm: rpm,
            stalled: false,
            stall_started: false,
            source_lost: false,
            memory: ChannelMemory { stall_count: 0, written: d, ..mem },
        };
    if ch.passthrough {
        ChannelDecision {
            action: PwmAction::Leave,
            duty: None,
            rpm: None,
            stalled: false,
            stall_started: false,
            source_lost: false,
            memory: mem,
        }
    } else if critical {
        forced(255u8)
    } else if gpu_blind && ch.source != TempSource::Cpu {
        forced(255u8)
    } else if ov is Some {
        forced(pwm_of_percent(ov.unwrap()))
    } else {
        curve_decision(ch, mem, temp_for(ch.source, cpu, gpu), rpm, hyst)
    }
}

fn sat_inc_u32(x: u32) -> (r: u32)
    ensures
        r == sat_inc(x),
{
    if x == u32::MAX {
        x
    } else {
        x + 1
    }
}

fn curve_decide(
    ch: &FanChannel,
    mem: ChannelMemory,
    temp: Option<u32>,
    rpm: Option<u32>,
    hyst: u32,
) -> (r: ChannelDecision)
    ensures
        r == curve_decision(*ch, mem, temp, rpm, hyst),
{
    let dec = curve_round_exec(ch, mem, temp, rpm, hyst);
    match dec.action {
        PwmAction::Write(d) => ChannelDecision { memory: ChannelMemory { written: d, ..dec.memory }, ..dec },
        _ => dec,
    }
}

fn curve_round_exec(
    ch: &FanChannel,
    mem: ChannelMemory,
    temp: Option<u32>,
    rpm: Option<u32>,
    hyst: u32,
) -> (r: ChannelDecision)
    ensures
        r == curve_round(*ch, mem, temp, rpm, hyst),
{
    let (eff, mem1, lost): (Option<u8>, ChannelMemory, bool) = match temp {
        Some(t) => {
            let m0 = ChannelMemory { missing: 0, ..mem };
            match duty_from_curve(&ch.curve, t) {
                Some(d) => {
                    let taken = ChannelMemory { last_duty: d, last_temp: Some(t), ..m0 };
                    if d >= m0.last_duty {
                        (Some(d), taken, false)
                    } else {
                        match m0.last_temp {
                            Some(lt) => {
                                let drop: u32 = if lt >= t {
                                    lt - t
                                } else {
                                    0
                                };
                                if drop >= hyst {
                                    (Some(d), taken, false)
                                } else {
                                    (Some(m0.last_duty), m0, false)
                                }
                            },
                            None => (Some(d), taken, false),
                        }
                    }
                },
                None => (None, m0, false),
            }
        },
        None => {
            let held: u8 = if mem.missing >= MISSING_SOURCE_ESCALATION - 1 {
                255
            } else {
                let f: u8 = match ch.min_duty {
                    Some(f) => if f >= STALL_FALLBACK_DUTY {
                        f
                    } else {
                        STALL_FALLBACK_DUTY
                    },
                    None => STALL_FALLBACK_DUTY,
                };
                if mem.written >= f {
                    mem.written
                } else {
                    f
                }
            };
            (
                Some(held),
                ChannelMemory { missing: sat_inc_u32(mem.missing), ..mem },
                mem.missing == 0,
            )
        },
    };
    let fl: Option<u8> = match (eff, ch.min_duty) {
        (Some(d), Some(f)) => Some(if d >= f {
            d
        } else {
            f
        }),
        (None, Some(f)) => Some(f),
        (d, None) => d,
    };
    let spinning = match fl {
        Some(d) => d > 0,
        None => false,
    };
    let zero = match rpm {
        Some(r) => r == 0,
        None => false,
    };
    let reported_rpm = if ch.stall_detect {
        rpm
    } else {
        None
    };
    if ch.stall_detect && spinning && zero {
        let count = sat_inc_u32(mem1.stall_count);
        let mem2 = ChannelMemory { stall_count: count, ..mem1 };
        if count >= ch.stall_threshold {
            let bump: u8 = match ch.min_duty {
                Some(f) => f,
                None => STALL_FALLBACK_DUTY,
            };
            let d = match fl {
                Some(d) => d,
                None => 0,
            };
            let out = if d >= bump {
                d
            } else {
                bump
            };
            ChannelDecision {
                action: PwmAction::Write(out),
                duty: Some(out),
                rpm: reported_rpm,
                stalled: true,
                stall_started: mem1.stall_count < ch.stall_threshold,
                source_lost: lost,
                memory: mem2,
            }
        } else {
            ChannelDecision {
                action: PwmAction::Write(
                    match fl {
                        Some(x) => x,
                        None => 0,
                    },
                ),
                duty: fl,
                rpm: reported_rpm,
                stalled: false,
                stall_started: false,
                source_lost: lost,
                memory: mem2,
            }
        }
    } else {
        let mem2 = if ch.stall_detect {
            ChannelMemory { stall_count: 0, ..mem1 }
        } else {
            mem1
        };
        ChannelDecision {
            action: match fl {
                Some(d) => PwmAction::Write(d),
                None => PwmAction::Auto,
            },
            duty: fl,
            rpm: reported_rpm,
            stalled: false,
            stall_started: false,
            source_lost: lost,
            memory: mem2,
        }
    }
}

/// One round's decision for a channel.
pub fn decide_channel(
    ch: &FanChannel,
    mem: ChannelMemory,
    cpu: Option<u32>,
    gpu: Option<u32>,
    gpu_blind: bool,
    critical: bool,
    ov: Option<u8>,
    rpm: Option<u32>,
    hyst: u32,
) -> (r: ChannelDecision)
    ensures
        r == decide(*ch, mem, cpu, gpu, gpu_blind, critical, ov, rpm, hyst),
{
    if ch.passthrough {
        ChannelDecision {
            action: PwmAction::Leave,
            duty: None,
            rpm: None,
            stalled: false,
            stall_started: false,
            source_lost: false,
            memory: mem,
        }
    } else if critical || ov.is_some() || (gpu_blind && !matches!(ch.source, TempSource::Cpu)) {
        let d: u8 = if critical || (gpu_blind && !matches!(ch.source, TempSource::Cpu)) {
            255
        } else {
            match ov {
                Some(p) => percent_to_pwm(p),
                None => 255,
            }
        };
        ChannelDecision {
            action: PwmAction::Write(d),
            duty: Some(d),
            rpm: rpm,
            stalled: false,
            stall_started: false,
            source_lost: false,
            memory: ChannelMemory { stall_count: 0, written: d, ..mem },
        }
    } else {
        curve_decide(ch, mem, get_temp_for(ch.source, cpu, gpu), rpm, hyst)
    }
}


// ---------------------------------------------------------------------
// Sensor readings
// ---------------------------------------------------------------------

/// What the NVIDIA side of the GPU temperature is this round.
#[derive(Debug)]
pub enum NvidiaReading {
    /// No NVIDIA hardware on the PCI bus.
    Absent,
    /// NVIDIA hardware is present but NVML could not be loaded.
    Unavailable,
    /// NVML is loaded: each device's temperature in degrees, `None` where the
    /// read failed.
    Active(Vec<Option<u32>>),
}

/// One round of sensor readings, in millidegrees unless noted.
#[derive(Debug)]
pub struct Readings {
    /// Every CPU hwmon temperature input read this round.
    pub cpu_temps: Vec<Option<u32>>,
    /// Every amdgpu hwmon temperature input read this round.
    pub amd_gpu_temps: Vec<Option<u32>>,
    pub nvidia: NvidiaReading,
    /// Tachometer readings, by channel index.
    pub rpms: Vec<Option<u32>>,
}

/// The highest of the readings that succeeded.
pub open spec fn max_reading(v: Seq<Option<u32>>) -> Option<u32>
    decreases v.len(),
{
    if v.len() == 0 {
        None
    } else {
        match (max_reading(v.drop_last()), v.last()) {
            (None, x) => x,
            (Some(a), None) => Some(a),
            (Some(a), Some(b)) => Some(if b > a {
                b
            } else {
                a
            }),
        }
    }
}

/// The combined reading is the hottest one: `None` exactly when no reading
/// succeeded, and otherwise one of the readings, at least every other one.
pub proof fn lemma_max_reading(v: Seq<Option<u32>>)
    ensures
        max_reading(v) is None <==> forall|i: int| 0 <= i < v.len() ==> #[trigger] v[i] is None,
        max_reading(v) matches Some(m) ==> exists|i: int| 0 <= i < v.len() && #[trigger] v[i] == Some(m),
        max_reading(v) matches Some(m) ==> forall|i: int|
            0 <= i < v.len() && #[trigger] v[i] is Some ==> v[i].unwrap() <= m,
    decreases v.len(),
{
    if v.len() > 0 {
        let p = v.drop_last();
        lemma_max_reading(p);
        assert forall|i: int| 0 <= i < p.len() implies #[trigger] p[i] == v[i] by {}
        let n = v.len() - 1;
        assert(v.last() == v[n]);
        if max_reading(v) is None {
            assert forall|i: int| 0 <= i < v.len() implies #[trigger] v[i] is None by {
                if i < n {
                    assert(p[i] == v[i]);
                }
            }
        }
        if forall|i: int| 0 <= i < v.len() ==> #[trigger] v[i] is None {
            assert forall|i: int| 0 <= i < p.len() implies #[trigger] p[i] is None by {
                assert(v[i] is None);
            }
        }
        if max_reading(v) is Some {
            let m = max_reading(v).unwrap();
            match max_reading(p) {
                Some(a) => {
                    let i = choose|i: int| 0 <= i < p.len() && #[trigger] p[i] == Some(a);
                    assert(v[i] == Some(a));
                },
                None => {
                    assert(v[n] == Some(m));
                },
            }
            assert forall|i: int| 0 <= i < v.len() && #[trigger] v[i] is Some implies v[i].unwrap()
                <= m by {
                if i < n {
                    assert(p[i] == v[i]);
                }
            }
        }
    }
}

/// Highest temperature among readings, in the order they were read.
pub fn max_temp(v: &Vec<Option<u32>>) -> (r: Option<u32>)
    ensures
        r == max_reading(v@),
        r is None <==> forall|i: int| 0 <= i < v@.len() ==> #[trigger] v@[i] is None,
        r matches Some(m) ==> exists|i: int| 0 <= i < v@.len() && #[trigger] v@[i] == Some(m),
        r matches Some(m) ==> forall|i: int|
            0 <= i < v@.len() && #[trigger] v@[i] is Some ==> v@[i].unwrap() <= m,
{
    proof {
        lemma_max_reading(v@);
    }
    let mut best: Option<u32> = None;
    let mut k: usize = 0;
    while k < v.len()
        invariant
            k <= v@.len(),
            best == max_reading(v@.subrange(0, k as int)),
        decreases v@.len() - k,
    {
        assert(v@.subrange(0, k + 1).drop_last() =~= v@.subrange(0, k as int));
        best = match (best, v[k]) {
            (None, x) => x,
            (Some(a), None) => Some(a),
            (Some(a), Some(b)) => Some(if b > a {
                b
            } else {
                a
            }),
        };
        k = k + 1;
    }
    assert(v@.subrange(0, k as int) =~= v@);
    best
}

/// A degree reading from NVML in millidegrees (saturating).
pub open spec fn nvml_millideg(t: Option<u32>) -> Option<u32> {
    match t {
        Some(x) => Some(if x * 1000 > u32::MAX {
            u32::MAX
        } else {
            (x * 1000) as u32
        }),
        None => None,
    }
}

/// The combined GPU temperature: the hottest amdgpu input and NVIDIA device.
pub open spec fn gpu_temp_of(r: Readings) -> Option<u32> {
    let amd = max_reading(r.amd_gpu_temps@);
    match r.nvidia {
        NvidiaReading::Active(ts) => max_reading(
            seq![amd] + ts@.map_values(|t: Option<u32>| nvml_millideg(t)),
        ),
        _ => amd,
    }
}

/// Whether GPU temperatures cannot be read although NVIDIA hardware exists.
pub open spec fn gpu_blind(r: Readings) -> bool {
    r.nvidia is Unavailable
}

fn gpu_temp(r: &Readings) -> (t: Option<u32>)
    ensures
        t == gpu_temp_of(*r),
{
    let amd = max_temp(&r.amd_gpu_temps);
    match &r.nvidia {
        NvidiaReading::Active(ts) => {
            let mut all: Vec<Option<u32>> = Vec::new();
            all.push(amd);
            let mut k: usize = 0;
            while k < ts.len()
                invariant
                    k <= ts@.len(),
                    all@ == seq![amd] + ts@.subrange(0, k as int).map_values(
                        |t: Option<u32>| nvml_millideg(t),
                    ),
                decreases ts@.len() - k,
            {
                let m = match ts[k] {
                    Some(x) => Some(
                        if x > 4294967 {
                            u32::MAX
                        } else {
                            x * 1000
                        },
                    ),
                    None => None,
                };
                all.push(m);
                k = k + 1;
                assert(all@ =~= seq![amd] + ts@.subrange(0, k as int).map_values(
                    |t: Option<u32>| nvml_millideg(t),
                ));
            }
            assert(ts@.subrange(0, k as int) =~= ts@);
            max_temp(&all)
        },
        _ => amd,
    }
}

/// Whether a reading is at or above a threshold.
pub open spec fn at_or_above(t: Option<u32>, limit: u32) -> bool {
    match t {
        Some(x) => x >= limit,
        None => false,
    }
}

// ---------------------------------------------------------------------
// The daemon
// ---------------------------------------------------------------------

/// Why a reload did not take effect.
#[derive(Debug)]
pub enum ReloadError {
    /// No config could be read or parsed.
    NotLoaded,
    /// The config has errors; the running config is kept.
    Invalid(usize),
}

/// What one round did.
#[derive(Debug)]
pub struct StepOutcome {
    /// A critical temperature was reached.
    pub critical: bool,
    /// Each channel's decision, by channel index.
    pub decisions: Vec<ChannelDecision>,
}

/// The fan daemon: channels built from the config, per-channel memory for
/// hysteresis and stall detection, and the status shown over D-Bus.
#[derive(Debug)]
pub struct FanDaemon {
    pub channels: Vec<FanChannel>,
    pub channel_defs: Vec<ChannelDef>,
    pub shared_curve: FanCurve,
    /// Per-profile global curves, keyed by lowercased profile name.
    pub profile_curves: Vec<(String, FanCurve)>,
    /// Millidegrees.
    pub critical_cpu_temp: u32,
    /// Millidegrees.
    pub critical_gpu_temp: u32,
    /// Millidegrees.
    pub hysteresis: u32,
    pub memory: Vec<ChannelMemory>,
    pub platform_names: Vec<String>,
    pub status: FanStatus,
    pub thermal_fallback: bool,
    pub thermal_cooldown: u32,
    pub current_profile: String,
    /// The last hwmon discovery succeeded.
    pub discovered: bool,
    /// Rounds since the last hwmon discovery.
    pub since_discovery: u32,
    /// Issues found when the config was last loaded.
    pub load_issues: Vec<Issue>,
}

/// Default hysteresis, in millidegrees.
pub const DEFAULT_HYSTERESIS: u32 = 3000;

/// Rounds between hwmon rediscoveries while discovery is healthy.
pub const REDISCOVERY_INTERVAL: u32 = 30;

pub open spec fn fresh_memory() -> ChannelMemory {
    ChannelMemory { last_duty: 0, last_temp: None, stall_count: 0, missing: 0, written: 0 }
}

/// The global curves a config gives: lowercased names and built curves.
pub open spec fn config_profile_curves(c: FanConfig) -> Seq<(Seq<char>, Seq<FanPoint>)> {
    match c.profiles {
        Some(ps) => first_per_name(
            named_curves_of(
                ps@.map_values(|e: (String, crate::fan_config::ProfileConfig)| (e.0, e.1.curve@)),
            ),
        ),
        None => Seq::empty(),
    }
}

/// A config has no errors.
pub open spec fn config_acceptable(c: FanConfig, names: Option<Seq<String>>) -> bool {
    count_severity(config_issues(c, names), Severity::Error) == 0
}

pub open spec fn opt_names(names: Option<&Vec<String>>) -> Option<Seq<String>> {
    match names {
        Some(n) => Some(n@),
        None => None,
    }
}

impl FanDaemon {
    /// Every per-channel list has one entry per channel.
    pub open spec fn wf(&self) -> bool {
        &&& self.channel_defs@.len() == self.channels@.len()
        &&& self.memory@.len() == self.channels@.len()
    }

    /// The daemon runs the given config: the shared curve, one definition
    /// per channel, channels on their own curve or else the shared one, the
    /// global profile curves, and the thermal settings with their defaults.
    pub open spec fn runs_config(&self, c: FanConfig) -> bool {
        &&& self.defines_config(c)
        &&& forall|i: int|
            0 <= i < self.channels@.len() ==> {
                &&& channel_matches(
                    #[trigger] self.channels@[i],
                    self.channel_defs@[i],
                    match self.channel_defs@[i].override_curve {
                        Some(oc) => oc@,
                        None => self.shared_curve@,
                    },
                )
                &&& self.memory@[i] == fresh_memory()
            }
        &&& !self.discovered
    }

    /// The daemon holds the given config: the shared curve, one definition
    /// per channel, the global profile curves, and the thermal settings with
    /// their defaults.
    pub open spec fn defines_config(&self, c: FanConfig) -> bool {
        &&& self.wf()
        &&& self.shared_curve@ == curve_points_of(c.curve@)
        &&& self.channels@.len() == c.channels@.len()
        &&& forall|i: int|
            0 <= i < self.channels@.len() ==> def_matches(
                #[trigger] self.channel_defs@[i],
                c.channels@[i],
            )
        &&& curve_entries_view(self.profile_curves@) == config_profile_curves(c)
        &&& names_unique(curve_entries_view(self.profile_curves@))
        &&& self.critical_cpu_temp == sat_u32(c.critical_cpu_temp as int)
        &&& self.critical_gpu_temp == sat_u32(c.critical_gpu_temp as int)
        &&& self.hysteresis == match c.hysteresis {
            Some(h) => sat_u32(h as int),
            None => DEFAULT_HYSTERESIS,
        }
        &&& self.platform_names@.len() == (if c.platform is Some {
            1int
        } else {
            0int
        })
        &&& (c.platform is Some ==> self.platform_names@[0]@ == c.platform.unwrap()@)
        &&& self.thermal_fallback == match c.thermal_fallback {
            Some(b) => b,
            None => false,
        }
        &&& self.thermal_cooldown == match c.thermal_cooldown {
            Some(t) => t,
            None => 30u32,
        }
        &&& self.status.config_loaded
    }

    /// Every channel runs the curve its definition resolves to for `profile`,
    /// with fresh memory.
    pub open spec fn runs_profile(&self, profile: Seq<char>) -> bool {
        &&& self.wf()
        &&& forall|i: int|
            0 <= i < self.channels@.len() ==> channel_matches(
                #[trigger] self.channels@[i],
                self.channel_defs@[i],
                resolved_curve(
                    self.channel_defs@[i],
                    profile,
                    self.profile_curves@,
                    self.shared_curve@,
                ),
            ) && self.memory@[i] == fresh_memory()
    }

    /// The daemon runs without a config: no channels, no curves, profiles only.
    pub open spec fn runs_no_config(&self) -> bool {
        &&& self.wf()
        &&& self.channels@.len() == 0
        &&& self.profile_curves@.len() == 0
        &&& self.shared_curve@.len() == 0
        &&& self.platform_names@.len() == 0
        &&& self.critical_cpu_temp == 0
        &&& self.critical_gpu_temp == 0
        &&& self.hysteresis == DEFAULT_HYSTERESIS
    }

    /// Channel `i`'s memory.
    pub open spec fn mem(&self, i: int) -> ChannelMemory {
        self.memory@[i]
    }

    fn clear_config(&mut self)
        ensures
            final(self).runs_no_config(),
            final(self).status == old(self).status,
            final(self).thermal_fallback == old(self).thermal_fallback,
            final(self).thermal_cooldown == old(self).thermal_cooldown,
            final(self).current_profile == old(self).current_profile,
    {
        self.channels = Vec::new();
        self.channel_defs = Vec::new();
        self.shared_curve = FanCurve::empty();
        self.profile_curves = Vec::new();
        self.critical_cpu_temp = 0;
        self.critical_gpu_temp = 0;
        self.hysteresis = DEFAULT_HYSTERESIS;
        self.platform_names = Vec::new();
        self.memory = Vec::new();
    }

    /// Apply a validated config. Resets hysteresis tracking and asks for a
    /// fresh hwmon discovery.
    fn apply_config(&mut self, config: &FanConfig)
        ensures
            final(self).runs_config(*config),
            final(self).current_profile == old(self).current_profile,
            final(self).status.overrides == old(self).status.overrides,
            final(self).load_issues == old(self).load_issues,
    {
        let shared = build_curve(&config.curve);
        let mut defs: Vec<ChannelDef> = Vec::new();
        let mut channels: Vec<FanChannel> = Vec::new();
        let mut memory: Vec<ChannelMemory> = Vec::new();
        let mut i: usize = 0;
        while i < config.channels.len()
            invariant
                i <= config.channels@.len(),
                shared@ == curve_points_of(config.curve@),
                defs@.len() == i,
                channels@.len() == i,
                memory@.len() == i,
                forall|j: int|
                    0 <= j < i ==> {
                        &&& def_matches(#[trigger] defs@[j], config.channels@[j])
                        &&& channel_matches(
                            channels@[j],
                            defs@[j],
                            match defs@[j].override_curve {
                                Some(oc) => oc@,
                                None => shared@,
                            },
                        )
                        &&& memory@[j] == fresh_memory()
                    },
            decreases config.channels@.len() - i,
        {
            let def = def_from_config(&config.channels[i]);
            let ch = match &def.override_curve {
                Some(oc) => channel_from_def(&def, oc),
                None => channel_from_def(&def, &shared),
            };
            defs.push(def);
            channels.push(ch);
            memory.push(ChannelMemory { last_duty: 0, last_temp: None, stall_count: 0, missing: 0, written: 0 });
            i = i + 1;
        }
        let profile_curves: Vec<(String, FanCurve)> = match &config.profiles {
            Some(ps) => global_curve_entries(ps),
            None => {
                let v: Vec<(String, FanCurve)> = Vec::new();
                assert(curve_entries_view(v@) =~= Seq::empty());
                v
            },
        };
        let mut platform_names: Vec<String> = Vec::new();
        if let Some(p) = &config.platform {
            platform_names.push(p.clone());
        }
        self.shared_curve = shared;
        self.channel_defs = defs;
        self.channels = channels;
        self.memory = memory;
        self.profile_curves = profile_curves;
        self.critical_cpu_temp = sat_u32_of(config.critical_cpu_temp);
        self.critical_gpu_temp = sat_u32_of(config.critical_gpu_temp);
        self.hysteresis = match config.hysteresis {
            Some(h) => sat_u32_of(h),
            None => DEFAULT_HYSTERESIS,
        };
        self.platform_names = platform_names;
        self.thermal_fallback = match config.thermal_fallback {
            Some(b) => b,
            None => false,
        };
        self.thermal_cooldown = match config.thermal_cooldown {
            Some(t) => t,
            None => 30,
        };
        self.status.config_loaded = true;
        self.discovered = false;
        self.since_discovery = 0;
    }

    /// Build a fan daemon from a parsed config (`None` when there is none).
    /// The config is validated first: one with errors is refused and the
    /// daemon runs profile-only, keeping the issues for the log.
    pub fn new(config: Option<FanConfig>, hwmon_names: Option<&Vec<String>>) -> (d: Self)
        ensures
            d.wf(),
            d.current_profile@.len() == 0,
            d.status.overrides@.len() == 0,
            match config {
                Some(c) => if config_acceptable(c, opt_names(hwmon_names)) {
                    d.runs_config(c) && issue_views(d.load_issues@) == config_issues(
                        c,
                        opt_names(hwmon_names),
                    )
                } else {
                    d.runs_no_config() && !d.status.config_loaded && issue_views(d.load_issues@)
                        == config_issues(c, opt_names(hwmon_names))
                },
                None => d.runs_no_config() && !d.status.config_loaded,
            },
    {
        let mut d = FanDaemon {
            channels: Vec::new(),
            channel_defs: Vec::new(),
            shared_curve: FanCurve::empty(),
            profile_curves: Vec::new(),
            critical_cpu_temp: 0,
            critical_gpu_temp: 0,
            hysteresis: DEFAULT_HYSTERESIS,
            memory: Vec::new(),
            platform_names: Vec::new(),
            status: FanStatus::new(),
            thermal_fallback: false,
            thermal_cooldown: 30,
            current_profile: String::new(),
            discovered: false,
            since_discovery: 0,
            load_issues: Vec::new(),
        };
        if let Some(c) = &config {
            let issues = validate(c, hwmon_names);
            let errors = count(&issues, Severity::Error);
            d.load_issues = issues;
            if errors == 0 {
                d.apply_config(c);
            }
        }
        d
    }

    /// Reload from a newly read config. Validates before applying so a
    /// broken config doesn't take down the running daemon; on success the
    /// current profile's curves are applied again.
    pub fn reload(&mut self, config: Option<FanConfig>, hwmon_names: Option<&Vec<String>>) -> (r:
        Result<(), ReloadError>)
        requires
            old(self).wf(),
        ensures
            final(self).wf(),
            config is None ==> r matches Err(ReloadError::NotLoaded),
            config is None ==> *final(self) == *old(self),
            match config {
                None => true,
                Some(c) => issue_views(final(self).load_issues@) == config_issues(
                    c,
                    opt_names(hwmon_names),
                ) && if config_acceptable(c, opt_names(hwmon_names)) {
                    &&& r is Ok
                    &&& final(self).defines_config(c)
                    &&& old(self).current_profile@.len() == 0 ==> final(self).runs_config(c)
                        && final(self).current_profile == old(self).current_profile
                    &&& old(self).current_profile@.len() > 0 ==> final(self).current_profile@
                        == str_lowercase(old(self).current_profile@) && final(self).runs_profile(
                        final(self).current_profile@,
                    ) && final(self).status.overrides@.len() == 0
                } else {
                    &&& r matches Err(ReloadError::Invalid(n)) && n == count_severity(
                        config_issues(c, opt_names(hwmon_names)),
                        Severity::Error,
                    )
                    &&& *final(self) == (FanDaemon { load_issues: final(self).load_issues, ..*old(self) })
                },
            },
    {
        let c = match &config {
            Some(c) => c,
            None => return Err(ReloadError::NotLoaded),
        };
        let issues = validate(c, hwmon_names);
        let errors = count(&issues, Severity::Error);
        self.load_issues = issues;
        if errors > 0 {
            return Err(ReloadError::Invalid(errors));
        }
        self.apply_config(c);
        if self.current_profile.as_str().unicode_len() > 0 {
            let profile = self.current_profile.clone();
            self.set_profile(profile.as_str());
        }
        Ok(())
    }

    /// Switch the active power profile, rebuilding channel curves (most
    /// specific first: this channel's curve for the profile, this channel's
    /// own curve, the profile's global curve, the shared curve). Hysteresis,
    /// stall tracking and temporary overrides are reset.
    #[verifier::spinoff_prover]
    pub fn set_profile(&mut self, profile: &str)
        requires
            old(self).wf(),
        ensures
            final(self).wf(),
            final(self).current_profile@ == str_lowercase(profile@),
            final(self).channels@.len() == old(self).channels@.len(),
            forall|i: int|
                0 <= i < final(self).channels@.len() ==> channel_matches(
                    #[trigger] final(self).channels@[i],
                    old(self).channel_defs@[i],
                    resolved_curve(
                        old(self).channel_defs@[i],
                        str_lowercase(profile@),
                        old(self).profile_curves@,
                        old(self).shared_curve@,
                    ),
                ) && final(self).memory@[i] == fresh_memory(),
            final(self).status.overrides@.len() == 0,
            forall|i: int|
                0 <= i < final(self).channels@.len() && lookup_curve(
                    old(self).channel_defs@[i].profile_curves@,
                    str_lowercase(profile@),
                ) is None && (#[trigger] old(self).channel_defs@[i].override_curve) is Some
                    ==> final(self).channels@[i].curve@ == old(
                    self,
                ).channel_defs@[i].override_curve.unwrap()@,
            final(self).channel_defs == old(self).channel_defs,
            final(self).shared_curve == old(self).shared_curve,
            final(self).profile_curves == old(self).profile_curves,
            final(self).critical_cpu_temp == old(self).critical_cpu_temp,
            final(self).critical_gpu_temp == old(self).critical_gpu_temp,
            final(self).hysteresis == old(self).hysteresis,
            final(self).platform_names == old(self).platform_names,
            final(self).status.config_loaded == old(self).status.config_loaded,
            final(self).load_issues == old(self).load_issues,
            final(self).thermal_fallback == old(self).thermal_fallback,
            final(self).thermal_cooldown == old(self).thermal_cooldown,
            final(self).discovered == old(self).discovered,
            final(self).since_discovery == old(self).since_discovery,
            final(self).status == (FanStatus { overrides: final(self).status.overrides, ..old(self).status }),
            final(self).runs_profile(final(self).current_profile@),
    {
        let current = lowercase(profile);
        let n = self.channel_defs.len();
        let mut channels: Vec<FanChannel> = Vec::new();
        let mut memory: Vec<ChannelMemory> = Vec::new();
        let mut i: usize = 0;
        while i < n
            invariant
                n == self.channel_defs@.len(),
                *self == *old(self),
                self.wf(),
                i <= n,
                current@ == str_lowercase(profile@),
                channels@.len() == i,
                memory@.len() == i,
                forall|j: int|
                    0 <= j < i ==> channel_matches(
                        #[trigger] channels@[j],
                        self.channel_defs@[j],
                        resolved_curve(
                            self.channel_defs@[j],
                            current@,
                            self.profile_curves@,
                            self.shared_curve@,
                        ),
                    ) && memory@[j] == fresh_memory(),
            decreases n - i,
        {
            let def = &self.channel_defs[i];
            let ch = match find_curve(&def.profile_curves, current.as_str()) {
                Some(c) => channel_from_def(def, c),
                None => match &def.override_curve {
                    Some(c) => channel_from_def(def, c),
                    None => match find_curve(&self.profile_curves, current.as_str()) {
                        Some(c) => channel_from_def(def, c),
                        None => channel_from_def(def, &self.shared_curve),
                    },
                },
            };
            channels.push(ch);
            memory.push(ChannelMemory { last_duty: 0, last_temp: None, stall_count: 0, missing: 0, written: 0 });
            i = i + 1;
        }
        self.channels = channels;
        self.memory = memory;
        self.current_profile = current;
        self.status.clear_overrides();
    }

    /// Whether fans are under control: a platform is configured and the
    /// last hwmon discovery succeeded.
    pub open spec fn active(&self) -> bool {
        self.platform_names@.len() > 0 && self.discovered
    }

    /// Whether hwmon should be scanned before the next round: a platform is
    /// configured and the last scan failed or is due again.
    pub fn needs_discovery(&self) -> (r: bool)
        ensures
            r == (self.platform_names@.len() > 0 && (!self.discovered || self.since_discovery
                >= REDISCOVERY_INTERVAL)),
    {
        self.platform_names.len() > 0 && (!self.discovered || self.since_discovery
            >= REDISCOVERY_INTERVAL)
    }

    /// Record the result of a hwmon scan. Returns whether the previous scan
    /// had succeeded, so that a loss and a recovery can each be told once.
    pub fn record_discovery(&mut self, ok: bool) -> (was_ok: bool)
        requires
            old(self).wf(),
        ensures
            final(self).wf(),
            was_ok == old(self).discovered,
            final(self).discovered == ok,
            final(self).since_discovery == 0,
            *final(self) == (FanDaemon { discovered: ok, since_discovery: 0, ..*old(self) }),
    {
        let was = self.discovered;
        self.discovered = ok;
        self.since_discovery = 0;
        was
    }

    /// Whether thermal fallback is enabled in the config.
    pub fn thermal_fallback_enabled(&self) -> (r: bool)
        ensures
            r == self.thermal_fallback,
    {
        self.thermal_fallback
    }

    /// Cooldown period in seconds before stepping back up after thermal fallback.
    pub fn thermal_cooldown_secs(&self) -> (r: u32)
        ensures
            r == self.thermal_cooldown,
    {
        self.thermal_cooldown
    }

    /// Shared status for D-Bus handlers to read.
    pub fn status_handle(&self) -> (s: &FanStatus)
        ensures
            *s == self.status,
    {
        &self.status
    }

    /// Mutable status, for D-Bus handlers that set or clear overrides.
    pub fn status_mut(&mut self) -> (s: &mut FanStatus)
        ensures
            *s == old(self).status,
            *final(self) == (FanDaemon { status: *final(s), ..*old(self) }),
    {
        &mut self.status
    }
}

fn global_curve_entries(ps: &Vec<(String, crate::fan_config::ProfileConfig)>) -> (r: Vec<
    (String, FanCurve),
>)
    ensures
        curve_entries_view(r@) == first_per_name(
            named_curves_of(
                ps@.map_values(|e: (String, crate::fan_config::ProfileConfig)| (e.0, e.1.curve@)),
            ),
        ),
        names_unique(curve_entries_view(r@)),
{
    let ghost src = ps@.map_values(
        |e: (String, crate::fan_config::ProfileConfig)| (e.0, e.1.curve@),
    );
    let mut r: Vec<(String, FanCurve)> = Vec::new();
    let mut k: usize = 0;
    while k < ps.len()
        invariant
            k <= ps@.len(),
            src == ps@.map_values(
                |e: (String, crate::fan_config::ProfileConfig)| (e.0, e.1.curve@),
            ),
            curve_entries_view(r@) == first_per_name(named_curves_of(src.subrange(0, k as int))),
        decreases ps@.len() - k,
    {
        let name = lowercase(ps[k].0.as_str());
        // Only the first curve of a name is kept: lookups take the first.
        let known = find_curve(&r, name.as_str()).is_some();
        let ghost x = (str_lowercase(src[k as int].0@), curve_points_of(src[k as int].1));
        proof {
            lemma_lookup_view(r@, name@);
            lemma_lookup_named_none(curve_entries_view(r@), name@);
            assert(src[k as int] == (ps@[k as int].0, ps@[k as int].1.curve@));
            assert(named_curves_of(src.subrange(0, k + 1)).drop_last() =~= named_curves_of(
                src.subrange(0, k as int),
            ));
            assert(named_curves_of(src.subrange(0, k + 1)).last() == x);
        }
        if !known {
            let curve = build_curve(&ps[k].1.curve);
            let ghost old_r = r@;
            r.push((name, curve));
            assert(curve_entries_view(r@) =~= curve_entries_view(old_r).push(x));
        }
        k = k + 1;
    }
    assert(src.subrange(0, k as int) =~= src);
    proof {
        lemma_first_per_name(named_curves_of(src), Seq::empty());
    }
    r
}


// ---------------------------------------------------------------------
// One round
// ---------------------------------------------------------------------

/// The tachometer reading of channel `i`, if one was taken.
pub open spec fn rpm_at(rpms: Seq<Option<u32>>, i: int) -> Option<u32> {
    if 0 <= i < rpms.len() {
        rpms[i]
    } else {
        None
    }
}

pub open spec fn named_view<T>(v: Seq<(String, T)>) -> Seq<(Seq<char>, T)> {
    v.map_values(|e: (String, T)| (e.0@, e.1))
}

pub open spec fn names_view(v: Seq<String>) -> Seq<Seq<char>> {
    v.map_values(|e: String| e@)
}

/// Names of the channels, among the first `n`, whose decision was a stall bump.
pub open spec fn stalled_names(chs: Seq<FanChannel>, ds: Seq<ChannelDecision>, n: int) -> Seq<
    Seq<char>,
>
    decreases n,
{
    if n <= 0 {
        Seq::empty()
    } else {
        stalled_names(chs, ds, n - 1) + if ds[n - 1].stalled {
            seq![chs[n - 1].pwm@]
        } else {
            Seq::empty()
        }
    }
}

/// Curves of the first `n` channels under curve control.
pub open spec fn controlled_curves(chs: Seq<FanChannel>, n: int) -> Seq<(Seq<char>, Seq<FanPoint>)>
    decreases n,
{
    if n <= 0 {
        Seq::empty()
    } else {
        controlled_curves(chs, n - 1) + if !chs[n - 1].passthrough {
            seq![(chs[n - 1].pwm@, chs[n - 1].curve@)]
        } else {
            Seq::empty()
        }
    }
}

/// Floors of the first `n` channels under curve control.
pub open spec fn controlled_floors(chs: Seq<FanChannel>, n: int) -> Seq<(Seq<char>, Option<u8>)>
    decreases n,
{
    if n <= 0 {
        Seq::empty()
    } else {
        controlled_floors(chs, n - 1) + if !chs[n - 1].passthrough {
            seq![(chs[n - 1].pwm@, chs[n - 1].min_duty)]
        } else {
            Seq::empty()
        }
    }
}

/// Names of the first `n` channels in passthrough mode.
pub open spec fn passthrough_names(chs: Seq<FanChannel>, n: int) -> Seq<Seq<char>>
    decreases n,
{
    if n <= 0 {
        Seq::empty()
    } else {
        passthrough_names(chs, n - 1) + if chs[n - 1].passthrough {
            seq![chs[n - 1].pwm@]
        } else {
            Seq::empty()
        }
    }
}

/// The decision each channel gets in a round, given the readings.
pub open spec fn round_decision(d: FanDaemon, r: Readings, i: int) -> ChannelDecision {
    let cpu = max_reading(r.cpu_temps@);
    let gpu = gpu_temp_of(r);
    decide(
        d.channels@[i],
        d.memory@[i],
        cpu,
        gpu,
        gpu_blind(r),
        d.round_critical(r),
        override_of(d.status.overrides@, d.channels@[i].pwm@),
        rpm_at(r.rpms@, i),
        d.hysteresis,
    )
}

impl FanDaemon {
    /// Whether a round with these readings is at a critical temperature.
    pub open spec fn round_critical(&self, r: Readings) -> bool {
        at_or_above(max_reading(r.cpu_temps@), self.critical_cpu_temp) || at_or_above(
            gpu_temp_of(r),
            self.critical_gpu_temp,
        )
    }

    /// Evaluate each fan channel against its temperature source.
    ///
    /// If any component crosses the critical threshold, all fans go to max
    /// duty regardless of their individual temperature source. Nothing is
    /// decided while no platform is configured or hwmon discovery has failed.
    pub fn step(&mut self, readings: &Readings) -> (out: StepOutcome)
        requires
            old(self).wf(),
        ensures
            final(self).wf(),
            final(self).since_discovery == sat_inc(old(self).since_discovery),
            *final(self) == (FanDaemon {
                since_discovery: final(self).since_discovery,
                memory: final(self).memory,
                status: final(self).status,
                ..*old(self)
            }),
            final(self).channels == old(self).channels,
            final(self).channel_defs == old(self).channel_defs,
            final(self).discovered == old(self).discovered,
            final(self).platform_names == old(self).platform_names,
            final(self).status.overrides == old(self).status.overrides,
            final(self).status.config_loaded == old(self).status.config_loaded,
            !old(self).active() ==> !out.critical && out.decisions@.len() == 0 && final(self).memory
                == old(self).memory && final(self).status == old(self).status,
            old(self).active() ==> {
                &&& out.critical == old(self).round_critical(*readings)
                &&& out.decisions@.len() == old(self).channels@.len()
                &&& forall|i: int|
                    0 <= i < old(self).channels@.len() ==> #[trigger] out.decisions@[i]
                        == round_decision(*old(self), *readings, i) && final(self).memory@[i]
                        == out.decisions@[i].memory
                &&& named_view(final(self).status.channel_duties@) == Seq::new(
                    old(self).channels@.len(),
                    |i: int| (old(self).channels@[i].pwm@, out.decisions@[i].duty),
                )
                &&& named_view(final(self).status.rpms@) == Seq::new(
                    old(self).channels@.len(),
                    |i: int| (old(self).channels@[i].pwm@, out.decisions@[i].rpm),
                )
                &&& names_view(final(self).status.stalled@) == stalled_names(
                    old(self).channels@,
                    out.decisions@,
                    old(self).channels@.len() as int,
                )
                &&& curve_entries_view(final(self).status.channel_curves@) == controlled_curves(
                    old(self).channels@,
                    old(self).channels@.len() as int,
                )
                &&& named_view(final(self).status.min_duties@) == controlled_floors(
                    old(self).channels@,
                    old(self).channels@.len() as int,
                )
                &&& names_view(final(self).status.passthrough@) == passthrough_names(
                    old(self).channels@,
                    old(self).channels@.len() as int,
                )
                &&& final(self).status.cpu_temp == max_reading(readings.cpu_temps@)
                &&& final(self).status.gpu_temp == gpu_temp_of(*readings)
                &&& final(self).status.critical == out.critical
            },
    {
        self.since_discovery = sat_inc_u32(self.since_discovery);
        if self.platform_names.len() == 0 || !self.discovered {
            return StepOutcome { critical: false, decisions: Vec::new() };
        }
        let cpu = max_temp(&readings.cpu_temps);
        let gpu = gpu_temp(readings);
        let blind = matches!(readings.nvidia, NvidiaReading::Unavailable);
        let critical = (match cpu {
            Some(t) => t >= self.critical_cpu_temp,
            None => false,
        }) || (match gpu {
            Some(t) => t >= self.critical_gpu_temp,
            None => false,
        });
        let n = self.channels.len();
        let ghost old_self = *self;
        let mut decisions: Vec<ChannelDecision> = Vec::new();
        let mut memory: Vec<ChannelMemory> = Vec::new();
        let mut duties: Vec<(String, Option<u8>)> = Vec::new();
        let mut rpms: Vec<(String, Option<u32>)> = Vec::new();
        let mut stalled: Vec<String> = Vec::new();
        let mut curves: Vec<(String, FanCurve)> = Vec::new();
        let mut floors: Vec<(String, Option<u8>)> = Vec::new();
        let mut passthrough: Vec<String> = Vec::new();
        let mut i: usize = 0;
        while i < n
            invariant
                *self == old_self,
                old_self.wf(),
                n == old_self.channels@.len(),
                i <= n,
                cpu == max_reading(readings.cpu_temps@),
                gpu == gpu_temp_of(*readings),
                blind == gpu_blind(*readings),
                critical == old_self.round_critical(*readings),
                decisions@.len() == i,
                memory@.len() == i,
                forall|j: int|
                    0 <= j < i ==> #[trigger] decisions@[j] == round_decision(old_self, *readings, j)
                        && memory@[j] == decisions@[j].memory,
                named_view(duties@) == Seq::new(
                    i as nat,
                    |j: int| (old_self.channels@[j].pwm@, decisions@[j].duty),
                ),
                named_view(rpms@) == Seq::new(
                    i as nat,
                    |j: int| (old_self.channels@[j].pwm@, decisions@[j].rpm),
                ),
                names_view(stalled@) == stalled_names(old_self.channels@, decisions@, i as int),
                curve_entries_view(curves@) == controlled_curves(old_self.channels@, i as int),
                named_view(floors@) == controlled_floors(old_self.channels@, i as int),
                names_view(passthrough@) == passthrough_names(old_self.channels@, i as int),
            decreases n - i,
        {
            let ch = &self.channels[i];
            let ov = self.status.override_for(ch.pwm.as_str());
            let rpm = if i < readings.rpms.len() {
                readings.rpms[i]
            } else {
                None
            };
            let d = decide_channel(
                ch,
                self.memory[i],
                cpu,
                gpu,
                blind,
                critical,
                ov,
                rpm,
                self.hysteresis,
            );
            let ghost ds_old = decisions@;
            let ghost du_old = duties@;
            let ghost rp_old = rpms@;
            decisions.push(d);
            memory.push(d.memory);
            duties.push((ch.pwm.clone(), d.duty));
            rpms.push((ch.pwm.clone(), d.rpm));
            if d.stalled {
                stalled.push(ch.pwm.clone());
            }
            if ch.passthrough {
                passthrough.push(ch.pwm.clone());
            } else {
                curves.push((ch.pwm.clone(), ch.curve.clone()));
                floors.push((ch.pwm.clone(), ch.min_duty));
            }
            proof {
                assert(stalled_names(old_self.channels@, decisions@, i as int) == stalled_names(
                    old_self.channels@,
                    ds_old,
                    i as int,
                )) by {
                    lemma_stalled_names_prefix(old_self.channels@, ds_old, decisions@, i as int);
                }
            }
            assert(forall|j: int| 0 <= j < i ==> decisions@[j] == ds_old[j]);
            assert(named_view(duties@) =~= named_view(du_old).push((old_self.channels@[i as int].pwm@, d.duty)));
            assert(named_view(rpms@) =~= named_view(rp_old).push((old_self.channels@[i as int].pwm@, d.rpm)));
            i = i + 1;
            assert(named_view(duties@) =~= Seq::new(
                i as nat,
                |j: int| (old_self.channels@[j].pwm@, decisions@[j].duty),
            ));
            assert(named_view(rpms@) =~= Seq::new(
                i as nat,
                |j: int| (old_self.channels@[j].pwm@, decisions@[j].rpm),
            ));
            assert(names_view(stalled@) =~= stalled_names(old_self.channels@, decisions@, i as int));
            assert(curve_entries_view(curves@) =~= controlled_curves(old_self.channels@, i as int));
            assert(named_view(floors@) =~= controlled_floors(old_self.channels@, i as int));
            assert(names_view(passthrough@) =~= passthrough_names(old_self.channels@, i as int));
        }
        self.memory = memory;
        self.status.cpu_temp = cpu;
        self.status.gpu_temp = gpu;
        self.status.channel_duties = duties;
        self.status.channel_curves = curves;
        self.status.min_duties = floors;
        self.status.rpms = rpms;
        self.status.stalled = stalled;
        self.status.passthrough = passthrough;
        self.status.critical = critical;
        StepOutcome { critical, decisions }
    }
}

proof fn lemma_stalled_names_prefix(
    chs: Seq<FanChannel>,
    a: Seq<ChannelDecision>,
    b: Seq<ChannelDecision>,
    n: int,
)
    requires
        0 <= n <= a.len(),
        n <= b.len(),
        forall|j: int| 0 <= j < n ==> a[j] == b[j],
    ensures
        stalled_names(chs, a, n) == stalled_names(chs, b, n),
    decreases n,
{
    if n > 0 {
        lemma_stalled_names_prefix(chs, a, b, n - 1);
    }
}


// ---------------------------------------------------------------------
// Laws of a round
// ---------------------------------------------------------------------

/// A channel is under curve control in a round: not passthrough, no
/// critical temperature, no override, and not fed by an unreadable GPU.
pub open spec fn under_curve(ch: FanChannel, blind: bool, critical: bool, ov: Option<u8>) -> bool {
    !ch.passthrough && !critical && ov is None && !(blind && ch.source != TempSource::Cpu)
}

/// Passthrough channels are never written and keep their memory.
pub proof fn lemma_passthrough_untouched(
    ch: FanChannel,
    mem: ChannelMemory,
    cpu: Option<u32>,
    gpu: Option<u32>,
    blind: bool,
    critical: bool,
    ov: Option<u8>,
    rpm: Option<u32>,
    hyst: u32,
)
    requires
        ch.passthrough,
    ensures
        decide(ch, mem, cpu, gpu, blind, critical, ov, rpm, hyst).action == PwmAction::Leave,
        decide(ch, mem, cpu, gpu, blind, critical, ov, rpm, hyst).memory == mem,
{
}

/// At a critical temperature every channel not in passthrough runs at full speed.
pub proof fn lemma_critical_full_speed(
    ch: FanChannel,
    mem: ChannelMemory,
    cpu: Option<u32>,
    gpu: Option<u32>,
    blind: bool,
    ov: Option<u8>,
    rpm: Option<u32>,
    hyst: u32,
)
    requires
        !ch.passthrough,
    ensures
        decide(ch, mem, cpu, gpu, blind, true, ov, rpm, hyst).action == PwmAction::Write(255),
{
}

/// An override, outside a critical temperature and unless the channel is
/// fed by an unreadable GPU, writes its percentage as a byte.
pub proof fn lemma_override_applies(
    ch: FanChannel,
    mem: ChannelMemory,
    cpu: Option<u32>,
    gpu: Option<u32>,
    blind: bool,
    p: u8,
    rpm: Option<u32>,
    hyst: u32,
)
    requires
        !ch.passthrough,
        !(blind && ch.source != TempSource::Cpu),
    ensures
        decide(ch, mem, cpu, gpu, blind, false, Some(p), rpm, hyst).action == PwmAction::Write(
            pwm_of_percent(p),
        ),
        p <= 100 ==> pwm_of_percent(p) as int == (p as int * 255 + 50) / 100,
        pwm_of_percent(100) == 255,
        pwm_of_percent(0) == 0,
{
    if p <= 100 {
        assert((p as int * 255 + 50) / 100 <= 255) by (nonlinear_arith)
            requires
                p <= 100,
        ;
    }
}

/// A channel fed by a GPU whose temperature cannot be read runs at full
/// speed, whether or not it has an override; a CPU channel keeps following
/// its override or its curve.
pub proof fn lemma_blind_gpu_channels(
    ch: FanChannel,
    mem: ChannelMemory,
    cpu: Option<u32>,
    gpu: Option<u32>,
    critical: bool,
    ov: Option<u8>,
    rpm: Option<u32>,
    hyst: u32,
)
    requires
        !ch.passthrough,
    ensures
        ch.source != TempSource::Cpu ==> decide(ch, mem, cpu, gpu, true, critical, ov, rpm, hyst).action
            == PwmAction::Write(255),
        ch.source == TempSource::Cpu ==> decide(ch, mem, cpu, gpu, true, critical, ov, rpm, hyst)
            == decide(ch, mem, cpu, gpu, false, critical, ov, rpm, hyst),
        ch.source == TempSource::Cpu ==> decide(ch, mem, cpu, gpu, true, false, None, rpm, hyst)
            == curve_decision(ch, mem, cpu, rpm, hyst),
{
}

/// Under curve control a channel with a floor never gets less than its floor.
pub proof fn lemma_floor_respected(
    ch: FanChannel,
    mem: ChannelMemory,
    cpu: Option<u32>,
    gpu: Option<u32>,
    blind: bool,
    rpm: Option<u32>,
    hyst: u32,
)
    requires
        under_curve(ch, blind, false, None),
        ch.min_duty is Some,
    ensures
        decide(ch, mem, cpu, gpu, blind, false, None, rpm, hyst).action matches PwmAction::Write(d)
            && d >= ch.min_duty.unwrap(),
{
}

/// Under curve control, a temperature that has fallen by less than the
/// hysteresis since the last duty was chosen never lowers the duty, and a
/// curve duty at or above the last one is applied at once.
pub proof fn lemma_hysteresis(
    ch: FanChannel,
    mem: ChannelMemory,
    cpu: Option<u32>,
    gpu: Option<u32>,
    blind: bool,
    rpm: Option<u32>,
    hyst: u32,
    t: u32,
    nd: u8,
)
    requires
        under_curve(ch, blind, false, None),
        temp_for(ch.source, cpu, gpu) == Some(t),
        curve_pwm(ch.curve@, t) == Some(nd),
    ensures
        ({
            let dec = decide(ch, mem, cpu, gpu, blind, false, None, rpm, hyst);
            &&& (match mem.last_temp {
                Some(lt) => (if lt >= t {
                    lt - t
                } else {
                    0
                }) < hyst,
                None => false,
            }) ==> (dec.action matches PwmAction::Write(d) && d >= mem.last_duty)
            &&& nd >= mem.last_duty ==> (dec.action matches PwmAction::Write(d) && d >= nd)
            &&& nd >= mem.last_duty ==> dec.memory.last_duty == nd && dec.memory.last_temp == Some(t)
        }),
{
}

/// Under curve control, while the temperature source is missing the
/// channel holds the duty last written, never below the spin-up fallback or
/// its floor, and runs at full speed once the source has been gone for the
/// escalation period; the first missing round is reported once.
pub proof fn lemma_missing_source(
    ch: FanChannel,
    mem: ChannelMemory,
    cpu: Option<u32>,
    gpu: Option<u32>,
    blind: bool,
    rpm: Option<u32>,
    hyst: u32,
)
    requires
        under_curve(ch, blind, false, None),
        temp_for(ch.source, cpu, gpu) is None,
    ensures
        ({
            let dec = decide(ch, mem, cpu, gpu, blind, false, None, rpm, hyst);
            &&& dec.action matches PwmAction::Write(d) && d >= mem.written && d
                >= STALL_FALLBACK_DUTY && (ch.min_duty matches Some(f) ==> d >= f)
                && dec.memory.written == d
            &&& !dec.stalled ==> dec.action == PwmAction::Write(
                missing_source_duty(mem, ch.min_duty),
            )
            &&& mem.missing + 1 >= MISSING_SOURCE_ESCALATION ==> dec.action == PwmAction::Write(
                255,
            )
            &&& dec.source_lost == (mem.missing == 0)
            &&& dec.memory.last_duty == mem.last_duty
        }),
{
}

/// Every round that writes a duty remembers it as the last one written;
/// a round that writes nothing keeps what was written before.
pub proof fn lemma_written_remembered(
    ch: FanChannel,
    mem: ChannelMemory,
    cpu: Option<u32>,
    gpu: Option<u32>,
    blind: bool,
    critical: bool,
    ov: Option<u8>,
    rpm: Option<u32>,
    hyst: u32,
)
    ensures
        ({
            let dec = decide(ch, mem, cpu, gpu, blind, critical, ov, rpm, hyst);
            &&& dec.action matches PwmAction::Write(d) ==> dec.memory.written == d
            &&& !(dec.action is Write) ==> dec.memory.written == mem.written
        }),
{
}

/// A channel that loses its temperature source after a round that wrote a
/// duty (from its curve, an override or full speed) never drops below that
/// duty, and runs at full speed once the source has been gone for the
/// escalation period.
pub proof fn lemma_lost_source_holds_written(
    ch: FanChannel,
    mem: ChannelMemory,
    cpu1: Option<u32>,
    gpu1: Option<u32>,
    blind1: bool,
    critical1: bool,
    ov1: Option<u8>,
    rpm1: Option<u32>,
    cpu2: Option<u32>,
    gpu2: Option<u32>,
    blind2: bool,
    rpm2: Option<u32>,
    hyst: u32,
    w: u8,
)
    requires
        decide(ch, mem, cpu1, gpu1, blind1, critical1, ov1, rpm1, hyst).action == PwmAction::Write(
            w,
        ),
        under_curve(ch, blind2, false, None),
        temp_for(ch.source, cpu2, gpu2) is None,
    ensures
        ({
            let m1 = decide(ch, mem, cpu1, gpu1, blind1, critical1, ov1, rpm1, hyst).memory;
            let dec = decide(ch, m1, cpu2, gpu2, blind2, false, None, rpm2, hyst);
            &&& dec.action matches PwmAction::Write(d) && d >= w
            &&& m1.missing + 1 >= MISSING_SOURCE_ESCALATION ==> dec.action == PwmAction::Write(
                255,
            )
        }),
{
    lemma_written_remembered(ch, mem, cpu1, gpu1, blind1, critical1, ov1, rpm1, hyst);
    let m1 = decide(ch, mem, cpu1, gpu1, blind1, critical1, ov1, rpm1, hyst).memory;
    lemma_missing_source(ch, m1, cpu2, gpu2, blind2, rpm2, hyst);
}

/// With stall detection on, a channel that spins at zero RPM for its
/// threshold of rounds is bumped to at least its floor (or the fallback),
/// and the episode is reported only on the round it begins.
pub proof fn lemma_stall_bump(
    ch: FanChannel,
    mem: ChannelMemory,
    cpu: Option<u32>,
    gpu: Option<u32>,
    blind: bool,
    hyst: u32,
)
    requires
        under_curve(ch, blind, false, None),
        ch.stall_detect,
    ensures
        ({
            let dec = decide(ch, mem, cpu, gpu, blind, false, None, Some(0), hyst);
            let bump: u8 = match ch.min_duty {
                Some(f) => f,
                None => STALL_FALLBACK_DUTY,
            };
            dec.stalled ==> (dec.action matches PwmAction::Write(d) && d >= bump && d > 0
                && dec.memory.stall_count >= ch.stall_threshold
                && dec.stall_started == (mem.stall_count < ch.stall_threshold))
        }),
{
}

/// A spinning channel whose tachometer reads non-zero has its stall count reset.
pub proof fn lemma_stall_reset(
    ch: FanChannel,
    mem: ChannelMemory,
    cpu: Option<u32>,
    gpu: Option<u32>,
    blind: bool,
    r: u32,
    hyst: u32,
)
    requires
        under_curve(ch, blind, false, None),
        ch.stall_detect,
        r > 0,
    ensures
        decide(ch, mem, cpu, gpu, blind, false, None, Some(r), hyst).memory.stall_count == 0,
        !decide(ch, mem, cpu, gpu, blind, false, None, Some(r), hyst).stalled,
{
}


impl FanDaemon {
    /// What to do with each channel when the daemon stops: hand every
    /// channel not in passthrough back to firmware control, so fans don't
    /// stay at the last duty written.
    pub fn shutdown_actions(&self) -> (acts: Vec<PwmAction>)
        ensures
            acts@.len() == self.channels@.len(),
            forall|i: int|
                0 <= i < acts@.len() ==> #[trigger] acts@[i] == if self.platform_names@.len() == 0
                    || self.channels@[i].passthrough {
                    PwmAction::Leave
                } else {
                    PwmAction::Auto
                },
    {
        let mut acts: Vec<PwmAction> = Vec::new();
        let mut i: usize = 0;
        while i < self.channels.len()
            invariant
                i <= self.channels@.len(),
                acts@.len() == i,
                forall|j: int|
                    0 <= j < i ==> #[trigger] acts@[j] == if self.platform_names@.len() == 0
                        || self.channels@[j].passthrough {
                        PwmAction::Leave
                    } else {
                        PwmAction::Auto
                    },
            decreases self.channels@.len() - i,
        {
            if self.platform_names.len() == 0 || self.channels[i].passthrough {
                acts.push(PwmAction::Leave);
            } else {
                acts.push(PwmAction::Auto);
            }
            i = i + 1;
        }
        acts
    }
}

} // verus!
