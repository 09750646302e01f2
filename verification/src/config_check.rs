//! Validation of the fan configuration: every problem found, in order, as an
//! error (the config is refused) or a warning (it is applied).
use crate::fan_config::{ChannelConfig, ChannelProfileConfig, CurvePoint, FanConfig, ProfileConfig};
use crate::text::{dec_digits, fmt_tenths_spec, lowercase, push_dec, push_tenths, str_eq, str_lowercase, string_of};
use vstd::prelude::*;
use vstd::string::*;

verus! {

/// Severity level for config validation results.
#[derive(Clone, Copy, Debug, PartialEq, Eq, Structural)]
pub enum Severity {
    Error,
    Warning,
}

/// One problem found in a config.
#[derive(Debug)]
pub struct Issue {
    pub severity: Severity,
    pub message: String,
}

/// An issue as a severity and the characters of its message.
pub type IssueView = (Severity, Seq<char>);

pub open spec fn issue_view(i: Issue) -> IssueView {
    (i.severity, i.message@)
}

pub open spec fn issue_views(v: Seq<Issue>) -> Seq<IssueView> {
    v.map_values(|i: Issue| issue_view(i))
}

impl Issue {
    pub fn error(msg: String) -> (i: Self)
        ensures
            issue_view(i) == (Severity::Error, msg@),
    {
        Issue { severity: Severity::Error, message: msg }
    }

    pub fn warning(msg: String) -> (i: Self)
        ensures
            issue_view(i) == (Severity::Warning, msg@),
    {
        Issue { severity: Severity::Warning, message: msg }
    }
}

fn push_issue(issues: &mut Vec<Issue>, severity: Severity, msg: String)
    ensures
        issue_views(final(issues)@) == issue_views(old(issues)@).push((severity, msg@)),
{
    issues.push(Issue { severity, message: msg });
    assert(issue_views(issues@) =~= issue_views(old(issues)@).push((severity, msg@)));
}

/// The three profile names, compared after lowercasing.
pub open spec fn is_profile_name(s: Seq<char>) -> bool {
    s == "quiet"@ || s == "balanced"@ || s == "performance"@
}

/// Whether a name, lowercased, is one of the three profile names.
pub fn known_profile_name(name: &str) -> (r: bool)
    ensures
        r == is_profile_name(str_lowercase(name@)),
{
    let lower = lowercase(name);
    str_eq(lower.as_str(), "quiet") || str_eq(lower.as_str(), "balanced") || str_eq(
        lower.as_str(),
        "performance",
    )
}

// ---------------------------------------------------------------------
// Curves
// ---------------------------------------------------------------------

pub open spec fn point_prefix(label: Seq<char>, i: int) -> Seq<char> {
    label + " curve point "@ + dec_digits(i as nat) + ": "@
}

pub open spec fn duty_range_msg(label: Seq<char>, i: int, duty: i64) -> Seq<char> {
    point_prefix(label, i) + "duty "@ + fmt_tenths_spec(duty as int) + " is outside 0-100 range"@
}

pub open spec fn temp_order_msg(label: Seq<char>, i: int, temp: i64, prev: i64) -> Seq<char> {
    point_prefix(label, i) + "temp "@ + fmt_tenths_spec(temp as int)
        + "C is not greater than previous "@ + fmt_tenths_spec(prev as int) + "C"@
}

pub open spec fn duty_order_msg(label: Seq<char>, i: int, duty: i64, prev: i64) -> Seq<char> {
    point_prefix(label, i) + "duty "@ + fmt_tenths_spec(duty as int) + " is lower than previous "@
        + fmt_tenths_spec(prev as int)
}

/// The issues of point `i` of a curve: a duty outside 0-100, and a
/// temperature not above the previous point's or else a duty below it.
pub open spec fn point_issues(points: Seq<CurvePoint>, label: Seq<char>, i: int) -> Seq<IssueView> {
    let p = points[i];
    (if p.duty < 0 || p.duty > 100000 {
        seq![(Severity::Error, duty_range_msg(label, i, p.duty))]
    } else {
        Seq::empty()
    }) + (if i > 0 && p.temp <= points[i - 1].temp {
        seq![(Severity::Error, temp_order_msg(label, i, p.temp, points[i - 1].temp))]
    } else if i > 0 && p.duty < points[i - 1].duty {
        seq![(Severity::Error, duty_order_msg(label, i, p.duty, points[i - 1].duty))]
    } else {
        Seq::empty()
    })
}

pub open spec fn curve_issues_upto(points: Seq<CurvePoint>, label: Seq<char>, n: int) -> Seq<
    IssueView,
>
    decreases n,
{
    if n <= 0 {
        Seq::empty()
    } else {
        curve_issues_upto(points, label, n - 1) + point_issues(points, label, n - 1)
    }
}

/// The issues of a curve: none of its points, or each point's in turn.
pub open spec fn curve_issues(points: Seq<CurvePoint>, label: Seq<char>) -> Seq<IssueView> {
    if points.len() == 0 {
        seq![(Severity::Error, label + " curve has no points"@)]
    } else {
        curve_issues_upto(points, label, points.len() as int)
    }
}

/// A curve the checks accept: at least one point, every duty within
/// 0-100%, temperatures strictly increasing and duties never decreasing.
pub open spec fn curve_well_formed(points: Seq<CurvePoint>) -> bool {
    &&& points.len() > 0
    &&& forall|i: int| 0 <= i < points.len() ==> 0 <= (#[trigger] points[i]).duty <= 100000
    &&& forall|i: int|
        0 < i < points.len() ==> points[i - 1].temp < (#[trigger] points[i]).temp && points[i
            - 1].duty <= points[i].duty
}

/// Counting issues of a severity adds up over concatenation.
pub proof fn lemma_count_concat(a: Seq<IssueView>, b: Seq<IssueView>, s: Severity)
    ensures
        count_severity(a + b, s) == count_severity(a, s) + count_severity(b, s),
    decreases b.len(),
{
    if b.len() == 0 {
        assert(a + b =~= a);
    } else {
        assert((a + b).drop_last() =~= a + b.drop_last());
        assert((a + b).last() == b.last());
        lemma_count_concat(a, b.drop_last(), s);
    }
}

proof fn lemma_one_error(m: Seq<char>)
    ensures
        count_severity(seq![(Severity::Error, m)], Severity::Error) == 1,
{
    let v = seq![(Severity::Error, m)];
    let e = Seq::<IssueView>::empty();
    assert(v.drop_last() =~= e);
    assert(count_severity(e, Severity::Error) == 0);
    assert(v.last() == (Severity::Error, m));
    assert(count_severity(v, Severity::Error) == count_severity(e, Severity::Error) + 1);
}

proof fn lemma_point_errors(points: Seq<CurvePoint>, label: Seq<char>, i: int)
    requires
        0 <= i < points.len(),
    ensures
        (count_severity(point_issues(points, label, i), Severity::Error) == 0) <==> (0
            <= points[i].duty <= 100000 && (i > 0 ==> points[i - 1].temp < points[i].temp
            && points[i - 1].duty <= points[i].duty)),
{
    let p = points[i];
    let a: Seq<IssueView> = if p.duty < 0 || p.duty > 100000 {
        seq![(Severity::Error, duty_range_msg(label, i, p.duty))]
    } else {
        Seq::empty()
    };
    let b: Seq<IssueView> = if i > 0 && p.temp <= points[i - 1].temp {
        seq![(Severity::Error, temp_order_msg(label, i, p.temp, points[i - 1].temp))]
    } else if i > 0 && p.duty < points[i - 1].duty {
        seq![(Severity::Error, duty_order_msg(label, i, p.duty, points[i - 1].duty))]
    } else {
        Seq::empty()
    };
    assert(point_issues(points, label, i) == a + b);
    lemma_count_concat(a, b, Severity::Error);
    lemma_one_error(duty_range_msg(label, i, p.duty));
    if i > 0 {
        lemma_one_error(temp_order_msg(label, i, p.temp, points[i - 1].temp));
        lemma_one_error(duty_order_msg(label, i, p.duty, points[i - 1].duty));
    }
}

proof fn lemma_curve_errors_upto(points: Seq<CurvePoint>, label: Seq<char>, n: int)
    requires
        0 <= n <= points.len(),
    ensures
        (count_severity(curve_issues_upto(points, label, n), Severity::Error) == 0) <==> forall|
            i: int,
        |
            0 <= i < n ==> 0 <= (#[trigger] points[i]).duty <= 100000 && (i > 0 ==> points[i
                - 1].temp < points[i].temp && points[i - 1].duty <= points[i].duty),
    decreases n,
{
    if n > 0 {
        lemma_curve_errors_upto(points, label, n - 1);
        lemma_point_errors(points, label, n - 1);
        lemma_count_concat(
            curve_issues_upto(points, label, n - 1),
            point_issues(points, label, n - 1),
            Severity::Error,
        );
    }
}

/// The curve checks raise no error exactly on a well-formed curve: in
/// particular a curve whose temperature ever fails to rise over the point
/// before it is refused.
pub proof fn lemma_curve_checks(points: Seq<CurvePoint>, label: Seq<char>)
    ensures
        (count_severity(curve_issues(points, label), Severity::Error) == 0) <==> curve_well_formed(
            points,
        ),
{
    if points.len() == 0 {
        lemma_one_error(label + " curve has no points"@);
    } else {
        lemma_curve_errors_upto(points, label, points.len() as int);
        if count_severity(curve_issues(points, label), Severity::Error) == 0 {
            assert forall|i: int| 0 < i < points.len() implies points[i - 1].temp < (
            #[trigger] points[i]).temp && points[i - 1].duty <= points[i].duty by {
                assert(0 <= points[i].duty <= 100000);
            }
        }
        if curve_well_formed(points) {
            assert forall|i: int| 0 <= i < points.len() implies 0 <= (
            #[trigger] points[i]).duty <= 100000 && (i > 0 ==> points[i - 1].temp < points[i].temp
                && points[i - 1].duty <= points[i].duty) by {}
        }
    }
}

fn point_prefix_string(label: &str, i: usize) -> (s: String)
    ensures
        s@ == point_prefix(label@, i as int),
{
    let mut s = string_of(label);
    s.append(" curve point ");
    push_dec(&mut s, i as u64);
    s.append(": ");
    s
}

/// Check that curve points have strictly increasing temps, non-decreasing
/// duties and duties within 0-100.
pub fn validate_curve(points: &Vec<CurvePoint>, label: &str, issues: &mut Vec<Issue>)
    ensures
        issue_views(final(issues)@) == issue_views(old(issues)@) + curve_issues(points@, label@),
        count_severity(issue_views(final(issues)@), Severity::Error) == count_severity(
            issue_views(old(issues)@),
            Severity::Error,
        ) <==> curve_well_formed(points@),
{
    proof {
        lemma_curve_checks(points@, label@);
        lemma_count_concat(issue_views(old(issues)@), curve_issues(points@, label@), Severity::Error);
    }
    if points.len() == 0 {
        let mut m = string_of(label);
        m.append(" curve has no points");
        push_issue(issues, Severity::Error, m);
        assert(issue_views(issues@) =~= issue_views(old(issues)@) + curve_issues(points@, label@));
        return;
    }
    let mut i: usize = 0;
    while i < points.len()
        invariant
            i <= points@.len(),
            points@.len() > 0,
            issue_views(issues@) == issue_views(old(issues)@) + curve_issues_upto(
                points@,
                label@,
                i as int,
            ),
        decreases points@.len() - i,
    {
        let ghost before = issue_views(issues@);
        let point = points[i];
        if point.duty < 0 || point.duty > 100000 {
            let mut m = point_prefix_string(label, i);
            m.append("duty ");
            push_tenths(&mut m, point.duty);
            m.append(" is outside 0-100 range");
            push_issue(issues, Severity::Error, m);
        }
        let ghost mid = issue_views(issues@);
        if i > 0 && point.temp <= points[i - 1].temp {
            let mut m = point_prefix_string(label, i);
            m.append("temp ");
            push_tenths(&mut m, point.temp);
            m.append("C is not greater than previous ");
            push_tenths(&mut m, points[i - 1].temp);
            m.append("C");
            push_issue(issues, Severity::Error, m);
        } else if i > 0 && point.duty < points[i - 1].duty {
            let mut m = point_prefix_string(label, i);
            m.append("duty ");
            push_tenths(&mut m, point.duty);
            m.append(" is lower than previous ");
            push_tenths(&mut m, points[i - 1].duty);
            push_issue(issues, Severity::Error, m);
        }
        assert(issue_views(issues@) =~= before + point_issues(points@, label@, i as int));
        i = i + 1;
        assert(issue_views(issues@) =~= issue_views(old(issues)@) + curve_issues_upto(
            points@,
            label@,
            i as int,
        ));
    }
}


// ---------------------------------------------------------------------
// Critical temperatures and global settings
// ---------------------------------------------------------------------

pub open spec fn critical_msg(name: Seq<char>, v: i64) -> Seq<char> {
    name + " "@ + fmt_tenths_spec(v as int) + "C is outside reasonable range (0-120)"@
}

pub open spec fn hysteresis_msg(h: i64) -> Seq<char> {
    "hysteresis "@ + fmt_tenths_spec(h as int) + "C is outside reasonable range (0-20)"@
}

pub open spec fn cooldown_msg(cd: u32) -> Seq<char> {
    "thermal_cooldown "@ + dec_digits(cd as nat) + "s is outside reasonable range (1-300)"@
}

/// The issues of the critical temperatures, hysteresis and cooldown.
pub open spec fn critical_issues(c: FanConfig) -> Seq<IssueView> {
    (if c.critical_cpu_temp <= 0 || c.critical_cpu_temp > 120000 {
        seq![(Severity::Error, critical_msg("critical_cpu_temp"@, c.critical_cpu_temp))]
    } else {
        Seq::empty()
    }) + (if c.critical_gpu_temp <= 0 || c.critical_gpu_temp > 120000 {
        seq![(Severity::Error, critical_msg("critical_gpu_temp"@, c.critical_gpu_temp))]
    } else {
        Seq::empty()
    }) + (match c.hysteresis {
        Some(h) => if !(0 <= h <= 20000) {
            seq![(Severity::Error, hysteresis_msg(h))]
        } else {
            Seq::empty()
        },
        None => Seq::empty(),
    }) + (match c.thermal_cooldown {
        Some(cd) => if cd == 0 || cd > 300 {
            seq![(Severity::Error, cooldown_msg(cd))]
        } else {
            Seq::empty()
        },
        None => Seq::empty(),
    })
}

/// Check critical temperatures, hysteresis and cooldown are in a reasonable range.
pub fn validate_critical_temps(config: &FanConfig, issues: &mut Vec<Issue>)
    ensures
        issue_views(final(issues)@) == issue_views(old(issues)@) + critical_issues(*config),
{
    let ghost s0 = issue_views(issues@);
    if config.critical_cpu_temp <= 0 || config.critical_cpu_temp > 120000 {
        let mut m = string_of("critical_cpu_temp");
        m.append(" ");
        push_tenths(&mut m, config.critical_cpu_temp);
        m.append("C is outside reasonable range (0-120)");
        push_issue(issues, Severity::Error, m);
    }
    let ghost s1 = issue_views(issues@);
    if config.critical_gpu_temp <= 0 || config.critical_gpu_temp > 120000 {
        let mut m = string_of("critical_gpu_temp");
        m.append(" ");
        push_tenths(&mut m, config.critical_gpu_temp);
        m.append("C is outside reasonable range (0-120)");
        push_issue(issues, Severity::Error, m);
    }
    let ghost s2 = issue_views(issues@);
    if let Some(h) = config.hysteresis {
        if !(0 <= h && h <= 20000) {
            let mut m = string_of("hysteresis ");
            push_tenths(&mut m, h);
            m.append("C is outside reasonable range (0-20)");
            push_issue(issues, Severity::Error, m);
        }
    }
    let ghost s3 = issue_views(issues@);
    if let Some(cd) = config.thermal_cooldown {
        if cd == 0 || cd > 300 {
            let mut m = string_of("thermal_cooldown ");
            push_dec(&mut m, cd as u64);
            m.append("s is outside reasonable range (1-300)");
            push_issue(issues, Severity::Error, m);
        }
    }
    assert(issue_views(issues@) =~= issue_views(old(issues)@) + critical_issues(*config));
}

// ---------------------------------------------------------------------
// Channels
// ---------------------------------------------------------------------

pub open spec fn channel_label(i: int, pwm: Seq<char>) -> Seq<char> {
    "channel "@ + dec_digits(i as nat) + " ("@ + pwm + ")"@
}

pub open spec fn channel_profile_label(i: int, pwm: Seq<char>, name: Seq<char>) -> Seq<char> {
    channel_label(i, pwm) + " profile '"@ + name + "'"@
}

pub open spec fn is_source_name(s: Seq<char>) -> bool {
    s == "cpu"@ || s == "gpu"@ || s == "all"@
}

pub open spec fn channel_profiles_upto(
    ps: Seq<(String, ChannelProfileConfig)>,
    i: int,
    pwm: Seq<char>,
    n: int,
) -> Seq<IssueView>
    decreases n,
{
    if n <= 0 {
        Seq::empty()
    } else {
        let name = ps[n - 1].0@;
        channel_profiles_upto(ps, i, pwm, n - 1) + (if !is_profile_name(str_lowercase(name)) {
            seq![
                (
                    Severity::Warning,
                    channel_profile_label(i, pwm, name) + ": unknown profile name"@,
                ),
            ]
        } else {
            Seq::empty()
        }) + curve_issues(ps[n - 1].1.curve@, channel_profile_label(i, pwm, name))
    }
}

pub open spec fn passthrough_issues(ch: ChannelConfig, i: int) -> Seq<IssueView> {
    if ch.curve is Some || ch.profiles is Some || ch.min_duty is Some || ch.stall_detect is Some {
        seq![
            (
                Severity::Warning,
                channel_label(i, ch.pwm@)
                    + ": passthrough is set, curve/profile/min_duty/stall settings are ignored"@,
            ),
        ]
    } else {
        Seq::empty()
    }
}

pub open spec fn source_issues(ch: ChannelConfig, i: int) -> Seq<IssueView> {
    if !is_source_name(ch.source@) {
        seq![
            (
                Severity::Warning,
                channel_label(i, ch.pwm@) + ": unknown source '"@ + ch.source@
                    + "', will default to 'all'"@,
            ),
        ]
    } else {
        Seq::empty()
    }
}

pub open spec fn min_duty_issues(ch: ChannelConfig, i: int) -> Seq<IssueView> {
    match ch.min_duty {
        Some(m) => if !(0 <= m <= 100000) {
            seq![
                (
                    Severity::Error,
                    channel_label(i, ch.pwm@) + ": min_duty "@ + fmt_tenths_spec(m as int)
                        + " is outside 0-100 range"@,
                ),
            ]
        } else {
            Seq::empty()
        },
        None => Seq::empty(),
    }
}

pub open spec fn stall_issues(ch: ChannelConfig, i: int) -> Seq<IssueView> {
    match ch.stall_threshold {
        Some(t) => if t == 0 || t > 10 {
            seq![
                (
                    Severity::Error,
                    channel_label(i, ch.pwm@) + ": stall_threshold "@ + dec_digits(t as nat)
                        + " is outside reasonable range (1-10)"@,
                ),
            ]
        } else {
            Seq::empty()
        },
        None => Seq::empty(),
    }
}

pub open spec fn own_curve_issues(ch: ChannelConfig, i: int) -> Seq<IssueView> {
    match ch.curve {
        Some(c) => curve_issues(c@, channel_label(i, ch.pwm@)),
        None => Seq::empty(),
    }
}

pub open spec fn own_profile_issues(ch: ChannelConfig, i: int) -> Seq<IssueView> {
    match ch.profiles {
        Some(ps) => channel_profiles_upto(ps@, i, ch.pwm@, ps@.len() as int),
        None => Seq::empty(),
    }
}

/// The issues of channel `i`. A passthrough channel only warns about
/// settings it ignores; others check source, floor, stall threshold and
/// their own curves.
pub open spec fn channel_issues(ch: ChannelConfig, i: int) -> Seq<IssueView> {
    if ch.passthrough == Some(true) {
        passthrough_issues(ch, i)
    } else {
        source_issues(ch, i) + min_duty_issues(ch, i) + stall_issues(ch, i) + own_curve_issues(ch, i)
            + own_profile_issues(ch, i)
    }
}

pub open spec fn channels_upto(chs: Seq<ChannelConfig>, n: int) -> Seq<IssueView>
    decreases n,
{
    if n <= 0 {
        Seq::empty()
    } else {
        channels_upto(chs, n - 1) + channel_issues(chs[n - 1], n - 1)
    }
}

/// The issues of the channel list: none defined, then each channel's.
pub open spec fn channels_issues(c: FanConfig) -> Seq<IssueView> {
    (if c.channels@.len() == 0 {
        seq![(Severity::Error, "no channels defined"@)]
    } else {
        Seq::empty()
    }) + channels_upto(c.channels@, c.channels@.len() as int)
}

fn channel_label_string(i: usize, pwm: &str) -> (s: String)
    ensures
        s@ == channel_label(i as int, pwm@),
{
    let mut s = string_of("channel ");
    push_dec(&mut s, i as u64);
    s.append(" (");
    s.append(pwm);
    s.append(")");
    s
}

fn is_source(s: &str) -> (r: bool)
    ensures
        r == is_source_name(s@),
{
    str_eq(s, "cpu") || str_eq(s, "gpu") || str_eq(s, "all")
}

fn validate_channel_profiles(
    ps: &Vec<(String, ChannelProfileConfig)>,
    i: usize,
    pwm: &str,
    issues: &mut Vec<Issue>,
)
    ensures
        issue_views(final(issues)@) == issue_views(old(issues)@) + channel_profiles_upto(
            ps@,
            i as int,
            pwm@,
            ps@.len() as int,
        ),
{
    let mut k: usize = 0;
    while k < ps.len()
        invariant
            k <= ps@.len(),
            issue_views(issues@) == issue_views(old(issues)@) + channel_profiles_upto(
                ps@,
                i as int,
                pwm@,
                k as int,
            ),
        decreases ps@.len() - k,
    {
        let ghost before = issue_views(issues@);
        let name = &ps[k].0;
        let ghost nm = ps@[k as int].0@;
        let ghost warn: Seq<IssueView> = if !is_profile_name(str_lowercase(nm)) {
            seq![(Severity::Warning, channel_profile_label(i as int, pwm@, nm) + ": unknown profile name"@)]
        } else {
            Seq::empty()
        };
        if !known_profile_name(name.as_str()) {
            let mut m = channel_label_string(i, pwm);
            m.append(" profile '");
            m.append(name.as_str());
            m.append("'");
            m.append(": unknown profile name");
            push_issue(issues, Severity::Warning, m);
        }
        assert(issue_views(issues@) =~= before + warn);
        let ghost mid = issue_views(issues@);
        let mut label = channel_label_string(i, pwm);
        label.append(" profile '");
        label.append(name.as_str());
        label.append("'");
        assert(label@ == channel_profile_label(i as int, pwm@, nm));
        validate_curve(&ps[k].1.curve, label.as_str(), issues);
        assert(channel_profiles_upto(ps@, i as int, pwm@, k + 1) == channel_profiles_upto(
            ps@,
            i as int,
            pwm@,
            k as int,
        ) + warn + curve_issues(ps@[k as int].1.curve@, channel_profile_label(i as int, pwm@, nm)));
        k = k + 1;
        assert(issue_views(issues@) =~= issue_views(old(issues)@) + channel_profiles_upto(
            ps@,
            i as int,
            pwm@,
            k as int,
        ));
    }
}

fn check_passthrough(ch: &ChannelConfig, i: usize, issues: &mut Vec<Issue>)
    ensures
        issue_views(final(issues)@) == issue_views(old(issues)@) + passthrough_issues(*ch, i as int),
{
    if ch.curve.is_some() || ch.profiles.is_some() || ch.min_duty.is_some()
        || ch.stall_detect.is_some() {
        let mut m = channel_label_string(i, ch.pwm.as_str());
        m.append(": passthrough is set, curve/profile/min_duty/stall settings are ignored");
        push_issue(issues, Severity::Warning, m);
    }
    assert(issue_views(issues@) =~= issue_views(old(issues)@) + passthrough_issues(*ch, i as int));
}

fn check_source(ch: &ChannelConfig, i: usize, issues: &mut Vec<Issue>)
    ensures
        issue_views(final(issues)@) == issue_views(old(issues)@) + source_issues(*ch, i as int),
{
    if !is_source(ch.source.as_str()) {
        let mut m = channel_label_string(i, ch.pwm.as_str());
        m.append(": unknown source '");
        m.append(ch.source.as_str());
        m.append("', will default to 'all'");
        push_issue(issues, Severity::Warning, m);
    }
    assert(issue_views(issues@) =~= issue_views(old(issues)@) + source_issues(*ch, i as int));
}

fn check_min_duty(ch: &ChannelConfig, i: usize, issues: &mut Vec<Issue>)
    ensures
        issue_views(final(issues)@) == issue_views(old(issues)@) + min_duty_issues(*ch, i as int),
{
    if let Some(min) = ch.min_duty {
        if !(0 <= min && min <= 100000) {
            let mut m = channel_label_string(i, ch.pwm.as_str());
            m.append(": min_duty ");
            push_tenths(&mut m, min);
            m.append(" is outside 0-100 range");
            push_issue(issues, Severity::Error, m);
        }
    }
    assert(issue_views(issues@) =~= issue_views(old(issues)@) + min_duty_issues(*ch, i as int));
}

fn check_stall(ch: &ChannelConfig, i: usize, issues: &mut Vec<Issue>)
    ensures
        issue_views(final(issues)@) == issue_views(old(issues)@) + stall_issues(*ch, i as int),
{
    if let Some(t) = ch.stall_threshold {
        if t == 0 || t > 10 {
            let mut m = channel_label_string(i, ch.pwm.as_str());
            m.append(": stall_threshold ");
            push_dec(&mut m, t as u64);
            m.append(" is outside reasonable range (1-10)");
            push_issue(issues, Severity::Error, m);
        }
    }
    assert(issue_views(issues@) =~= issue_views(old(issues)@) + stall_issues(*ch, i as int));
}

fn check_own_curves(ch: &ChannelConfig, i: usize, issues: &mut Vec<Issue>)
    ensures
        issue_views(final(issues)@) == issue_views(old(issues)@) + own_curve_issues(*ch, i as int)
            + own_profile_issues(*ch, i as int),
{
    if let Some(curve) = &ch.curve {
        let label = channel_label_string(i, ch.pwm.as_str());
        validate_curve(curve, label.as_str(), issues);
    }
    let ghost s1 = issue_views(issues@);
    assert(s1 =~= issue_views(old(issues)@) + own_curve_issues(*ch, i as int));
    if let Some(profiles) = &ch.profiles {
        validate_channel_profiles(profiles, i, ch.pwm.as_str(), issues);
    }
    assert(issue_views(issues@) =~= s1 + own_profile_issues(*ch, i as int));
}

fn validate_channel(ch: &ChannelConfig, i: usize, issues: &mut Vec<Issue>)
    ensures
        issue_views(final(issues)@) == issue_views(old(issues)@) + channel_issues(*ch, i as int),
{
    if ch.passthrough == Some(true) {
        check_passthrough(ch, i, issues);
        return;
    }
    let ghost s0 = issue_views(issues@);
    check_source(ch, i, issues);
    let ghost s1 = issue_views(issues@);
    check_min_duty(ch, i, issues);
    let ghost s2 = issue_views(issues@);
    check_stall(ch, i, issues);
    let ghost s3 = issue_views(issues@);
    check_own_curves(ch, i, issues);
    assert(issue_views(issues@) =~= s0 + channel_issues(*ch, i as int));
}

/// Validate channel configs, including per-channel curves.
pub fn validate_channels(config: &FanConfig, issues: &mut Vec<Issue>)
    ensures
        issue_views(final(issues)@) == issue_views(old(issues)@) + channels_issues(*config),
{
    if config.channels.len() == 0 {
        push_issue(issues, Severity::Error, string_of("no channels defined"));
    }
    let ghost s0 = issue_views(issues@);
    let mut i: usize = 0;
    while i < config.channels.len()
        invariant
            i <= config.channels@.len(),
            issue_views(issues@) == s0 + channels_upto(config.channels@, i as int),
        decreases config.channels@.len() - i,
    {
        validate_channel(&config.channels[i], i, issues);
        i = i + 1;
        assert(issue_views(issues@) =~= s0 + channels_upto(config.channels@, i as int));
    }
    assert(issue_views(issues@) =~= issue_views(old(issues)@) + channels_issues(*config));
}

// ---------------------------------------------------------------------
// Profiles
// ---------------------------------------------------------------------

pub open spec fn profile_label(name: Seq<char>) -> Seq<char> {
    "profile '"@ + name + "'"@
}

pub open spec fn profiles_upto(ps: Seq<(String, ProfileConfig)>, n: int) -> Seq<IssueView>
    decreases n,
{
    if n <= 0 {
        Seq::empty()
    } else {
        let name = ps[n - 1].0@;
        profiles_upto(ps, n - 1) + (if !is_profile_name(str_lowercase(name)) {
            seq![
                (
                    Severity::Warning,
                    profile_label(name)
                        + ": unknown profile name, expected one of: quiet, balanced, performance"@,
                ),
            ]
        } else {
            Seq::empty()
        }) + curve_issues(ps[n - 1].1.curve@, profile_label(name))
    }
}

/// The issues of the per-profile curve overrides.
pub open spec fn profiles_issues(c: FanConfig) -> Seq<IssueView> {
    match c.profiles {
        Some(ps) => profiles_upto(ps@, ps@.len() as int),
        None => Seq::empty(),
    }
}

fn profile_label_string(name: &str) -> (s: String)
    ensures
        s@ == profile_label(name@),
{
    let mut s = string_of("profile '");
    s.append(name);
    s.append("'");
    s
}

/// Validate per-profile curve overrides.
pub fn validate_profiles(config: &FanConfig, issues: &mut Vec<Issue>)
    ensures
        issue_views(final(issues)@) == issue_views(old(issues)@) + profiles_issues(*config),
{
    let ps = match &config.profiles {
        Some(ps) => ps,
        None => {
            assert(issue_views(issues@) =~= issue_views(old(issues)@) + profiles_issues(*config));
            return;
        },
    };
    let mut k: usize = 0;
    while k < ps.len()
        invariant
            k <= ps@.len(),
            issue_views(issues@) == issue_views(old(issues)@) + profiles_upto(ps@, k as int),
        decreases ps@.len() - k,
    {
        let name = &ps[k].0;
        if !known_profile_name(name.as_str()) {
            let mut m = profile_label_string(name.as_str());
            m.append(": unknown profile name, expected one of: quiet, balanced, performance");
            push_issue(issues, Severity::Warning, m);
        }
        let label = profile_label_string(name.as_str());
        validate_curve(&ps[k].1.curve, label.as_str(), issues);
        k = k + 1;
        assert(issue_views(issues@) =~= issue_views(old(issues)@) + profiles_upto(ps@, k as int));
    }
}


// ---------------------------------------------------------------------
// Silent curves at the critical temperature
// ---------------------------------------------------------------------

pub open spec fn quiet_msg(label: Seq<char>, i: int, temp: i64) -> Seq<char> {
    point_prefix(label, i) + "duty 0 at "@ + fmt_tenths_spec(temp as int)
        + "C is at or above the critical temperature"@
}

/// The lower of the two critical temperatures.
pub open spec fn critical_floor(c: FanConfig) -> i64 {
    if c.critical_cpu_temp <= c.critical_gpu_temp {
        c.critical_cpu_temp
    } else {
        c.critical_gpu_temp
    }
}

pub open spec fn quiet_points_upto(points: Seq<CurvePoint>, label: Seq<char>, thr: i64, n: int) -> Seq<
    IssueView,
>
    decreases n,
{
    if n <= 0 {
        Seq::empty()
    } else {
        quiet_points_upto(points, label, thr, n - 1) + (if points[n - 1].temp >= thr
            && points[n - 1].duty == 0 {
            seq![(Severity::Error, quiet_msg(label, n - 1, points[n - 1].temp))]
        } else {
            Seq::empty()
        })
    }
}

/// The points of a curve that stop the fan at or above `thr`.
pub open spec fn quiet_curve_issues(points: Seq<CurvePoint>, label: Seq<char>, thr: i64) -> Seq<
    IssueView,
> {
    quiet_points_upto(points, label, thr, points.len() as int)
}

pub open spec fn quiet_channel_profiles_upto(
    ps: Seq<(String, ChannelProfileConfig)>,
    i: int,
    pwm: Seq<char>,
    thr: i64,
    n: int,
) -> Seq<IssueView>
    decreases n,
{
    if n <= 0 {
        Seq::empty()
    } else {
        quiet_channel_profiles_upto(ps, i, pwm, thr, n - 1) + quiet_curve_issues(
            ps[n - 1].1.curve@,
            channel_profile_label(i, pwm, ps[n - 1].0@),
            thr,
        )
    }
}

pub open spec fn quiet_channel_issues(ch: ChannelConfig, i: int, thr: i64) -> Seq<IssueView> {
    if ch.passthrough == Some(true) {
        Seq::empty()
    } else {
        (match ch.curve {
            Some(c) => quiet_curve_issues(c@, channel_label(i, ch.pwm@), thr),
            None => Seq::empty(),
        }) + (match ch.profiles {
            Some(ps) => quiet_channel_profiles_upto(ps@, i, ch.pwm@, thr, ps@.len() as int),
            None => Seq::empty(),
        })
    }
}

pub open spec fn quiet_channels_upto(chs: Seq<ChannelConfig>, thr: i64, n: int) -> Seq<IssueView>
    decreases n,
{
    if n <= 0 {
        Seq::empty()
    } else {
        quiet_channels_upto(chs, thr, n - 1) + quiet_channel_issues(chs[n - 1], n - 1, thr)
    }
}

pub open spec fn quiet_profiles_upto(ps: Seq<(String, ProfileConfig)>, thr: i64, n: int) -> Seq<
    IssueView,
>
    decreases n,
{
    if n <= 0 {
        Seq::empty()
    } else {
        quiet_profiles_upto(ps, thr, n - 1) + quiet_curve_issues(
            ps[n - 1].1.curve@,
            profile_label(ps[n - 1].0@),
            thr,
        )
    }
}

/// Every curve point, in every curve a channel can use, that stops the fan
/// at or above the lower critical temperature.
pub open spec fn quiet_issues(c: FanConfig) -> Seq<IssueView> {
    let thr = critical_floor(c);
    quiet_curve_issues(c.curve@, "shared"@, thr) + quiet_channels_upto(
        c.channels@,
        thr,
        c.channels@.len() as int,
    ) + (match c.profiles {
        Some(ps) => quiet_profiles_upto(ps@, thr, ps@.len() as int),
        None => Seq::empty(),
    })
}

fn check_quiet_curve(points: &Vec<CurvePoint>, label: &str, thr: i64, issues: &mut Vec<Issue>)
    ensures
        issue_views(final(issues)@) == issue_views(old(issues)@) + quiet_curve_issues(
            points@,
            label@,
            thr,
        ),
{
    let mut i: usize = 0;
    while i < points.len()
        invariant
            i <= points@.len(),
            issue_views(issues@) == issue_views(old(issues)@) + quiet_points_upto(
                points@,
                label@,
                thr,
                i as int,
            ),
        decreases points@.len() - i,
    {
        let p = points[i];
        if p.temp >= thr && p.duty == 0 {
            let mut m = point_prefix_string(label, i);
            m.append("duty 0 at ");
            push_tenths(&mut m, p.temp);
            m.append("C is at or above the critical temperature");
            push_issue(issues, Severity::Error, m);
        }
        i = i + 1;
        assert(issue_views(issues@) =~= issue_views(old(issues)@) + quiet_points_upto(
            points@,
            label@,
            thr,
            i as int,
        ));
    }
}

fn check_quiet_channel(ch: &ChannelConfig, i: usize, thr: i64, issues: &mut Vec<Issue>)
    ensures
        issue_views(final(issues)@) == issue_views(old(issues)@) + quiet_channel_issues(
            *ch,
            i as int,
            thr,
        ),
{
    if ch.passthrough == Some(true) {
        assert(issue_views(issues@) =~= issue_views(old(issues)@) + quiet_channel_issues(
            *ch,
            i as int,
            thr,
        ));
        return;
    }
    if let Some(curve) = &ch.curve {
        let label = channel_label_string(i, ch.pwm.as_str());
        check_quiet_curve(curve, label.as_str(), thr, issues);
    }
    let ghost s1 = issue_views(issues@);
    if let Some(ps) = &ch.profiles {
        let mut k: usize = 0;
        while k < ps.len()
            invariant
                k <= ps@.len(),
                issue_views(issues@) == s1 + quiet_channel_profiles_upto(
                    ps@,
                    i as int,
                    ch.pwm@,
                    thr,
                    k as int,
                ),
            decreases ps@.len() - k,
        {
            let mut label = channel_label_string(i, ch.pwm.as_str());
            label.append(" profile '");
            label.append(ps[k].0.as_str());
            label.append("'");
            check_quiet_curve(&ps[k].1.curve, label.as_str(), thr, issues);
            k = k + 1;
            assert(issue_views(issues@) =~= s1 + quiet_channel_profiles_upto(
                ps@,
                i as int,
                ch.pwm@,
                thr,
                k as int,
            ));
        }
    }
    assert(issue_views(issues@) =~= issue_views(old(issues)@) + quiet_channel_issues(
        *ch,
        i as int,
        thr,
    ));
}

/// Reject curves that go quiet at or above the critical temperature.
pub fn validate_critical_duties(config: &FanConfig, issues: &mut Vec<Issue>)
    ensures
        issue_views(final(issues)@) == issue_views(old(issues)@) + quiet_issues(*config),
{
    let thr = if config.critical_cpu_temp <= config.critical_gpu_temp {
        config.critical_cpu_temp
    } else {
        config.critical_gpu_temp
    };
    check_quiet_curve(&config.curve, "shared", thr, issues);
    let ghost s1 = issue_views(issues@);
    let mut i: usize = 0;
    while i < config.channels.len()
        invariant
            i <= config.channels@.len(),
            issue_views(issues@) == s1 + quiet_channels_upto(config.channels@, thr, i as int),
        decreases config.channels@.len() - i,
    {
        check_quiet_channel(&config.channels[i], i, thr, issues);
        i = i + 1;
        assert(issue_views(issues@) =~= s1 + quiet_channels_upto(
            config.channels@,
            thr,
            i as int,
        ));
    }
    let ghost s2 = issue_views(issues@);
    if let Some(ps) = &config.profiles {
        let mut k: usize = 0;
        while k < ps.len()
            invariant
                k <= ps@.len(),
                issue_views(issues@) == s2 + quiet_profiles_upto(ps@, thr, k as int),
            decreases ps@.len() - k,
        {
            let label = profile_label_string(ps[k].0.as_str());
            check_quiet_curve(&ps[k].1.curve, label.as_str(), thr, issues);
            k = k + 1;
            assert(issue_views(issues@) =~= s2 + quiet_profiles_upto(ps@, thr, k as int));
        }
    }
    assert(issue_views(issues@) =~= issue_views(old(issues)@) + quiet_issues(*config));
}

// ---------------------------------------------------------------------
// Hardware presence
// ---------------------------------------------------------------------

pub open spec fn has_name(names: Seq<String>, n: Seq<char>) -> bool {
    exists|k: int| 0 <= k < names.len() && #[trigger] names[k]@ == n
}

pub open spec fn is_cpu_driver(n: Seq<char>) -> bool {
    n == "coretemp"@ || n == "k10temp"@ || n == "zenpower"@ || n == "apm_xgene"@
}

pub open spec fn has_cpu_hwmon(names: Seq<String>) -> bool {
    exists|k: int| 0 <= k < names.len() && is_cpu_driver(#[trigger] names[k]@)
}

pub open spec fn needs_source(c: FanConfig, a: Seq<char>) -> bool {
    exists|k: int|
        0 <= k < c.channels@.len() && (#[trigger] c.channels@[k].source@ == a
            || c.channels@[k].source@ == "all"@)
}

/// Warnings about hardware the config refers to that this machine lacks;
/// `names` are the hwmon device names, when they could be listed.
pub open spec fn hwmon_issues(c: FanConfig, names: Option<Seq<String>>) -> Seq<IssueView> {
    match names {
        None => seq![(Severity::Warning, "could not enumerate hwmon devices"@)],
        Some(ns) => (match c.platform {
            Some(p) => if !has_name(ns, p@) {
                seq![
                    (
                        Severity::Warning,
                        "platform '"@ + p@ + "' not found in hwmon devices on this machine"@,
                    ),
                ]
            } else {
                Seq::empty()
            },
            None => Seq::empty(),
        }) + (if needs_source(c, "cpu"@) && !has_cpu_hwmon(ns) {
            seq![
                (
                    Severity::Warning,
                    "channels reference cpu temps but no cpu hwmon found (coretemp, k10temp, zenpower)"@,
                ),
            ]
        } else {
            Seq::empty()
        }) + (if needs_source(c, "gpu"@) && !has_name(ns, "amdgpu"@) {
            seq![
                (
                    Severity::Warning,
                    "channels reference gpu temps but no amdgpu hwmon found (NVIDIA uses NVML at runtime)"@,
                ),
            ]
        } else {
            Seq::empty()
        }),
    }
}

fn names_contain(names: &Vec<String>, n: &str) -> (r: bool)
    ensures
        r == has_name(names@, n@),
{
    let mut k: usize = 0;
    while k < names.len()
        invariant
            k <= names@.len(),
            forall|j: int| 0 <= j < k ==> names@[j]@ != n@,
        decreases names@.len() - k,
    {
        if str_eq(names[k].as_str(), n) {
            return true;
        }
        k = k + 1;
    }
    false
}

fn names_have_cpu(names: &Vec<String>) -> (r: bool)
    ensures
        r == has_cpu_hwmon(names@),
{
    let mut k: usize = 0;
    while k < names.len()
        invariant
            k <= names@.len(),
            forall|j: int| 0 <= j < k ==> !is_cpu_driver(#[trigger] names@[j]@),
        decreases names@.len() - k,
    {
        let n = names[k].as_str();
        if str_eq(n, "coretemp") || str_eq(n, "k10temp") || str_eq(n, "zenpower") || str_eq(
            n,
            "apm_xgene",
        ) {
            return true;
        }
        k = k + 1;
    }
    false
}

fn config_needs(config: &FanConfig, a: &str) -> (r: bool)
    ensures
        r == needs_source(*config, a@),
{
    let mut k: usize = 0;
    while k < config.channels.len()
        invariant
            k <= config.channels@.len(),
            forall|j: int|
                0 <= j < k ==> !(#[trigger] config.channels@[j].source@ == a@
                    || config.channels@[j].source@ == "all"@),
        decreases config.channels@.len() - k,
    {
        let src = config.channels[k].source.as_str();
        if str_eq(src, a) || str_eq(src, "all") {
            return true;
        }
        k = k + 1;
    }
    false
}

/// Check that the platform hwmon and relevant temp sources exist on this
/// machine, given the names of its hwmon devices (`None`: they could not be
/// listed).
pub fn validate_hwmon(config: &FanConfig, names: Option<&Vec<String>>, issues: &mut Vec<Issue>)
    ensures
        issue_views(final(issues)@) == issue_views(old(issues)@) + hwmon_issues(
            *config,
            match names {
                Some(n) => Some(n@),
                None => None,
            },
        ),
{
    let ns = match names {
        Some(ns) => ns,
        None => {
            push_issue(issues, Severity::Warning, string_of("could not enumerate hwmon devices"));
            assert(issue_views(issues@) =~= issue_views(old(issues)@) + hwmon_issues(*config, None));
            return;
        },
    };
    if let Some(platform) = &config.platform {
        if !names_contain(ns, platform.as_str()) {
            let mut m = string_of("platform '");
            m.append(platform.as_str());
            m.append("' not found in hwmon devices on this machine");
            push_issue(issues, Severity::Warning, m);
        }
    }
    let ghost s1 = issue_views(issues@);
    if config_needs(config, "cpu") && !names_have_cpu(ns) {
        push_issue(
            issues,
            Severity::Warning,
            string_of(
                "channels reference cpu temps but no cpu hwmon found (coretemp, k10temp, zenpower)",
            ),
        );
    }
    let ghost s2 = issue_views(issues@);
    if config_needs(config, "gpu") && !names_contain(ns, "amdgpu") {
        push_issue(
            issues,
            Severity::Warning,
            string_of(
                "channels reference gpu temps but no amdgpu hwmon found (NVIDIA uses NVML at runtime)",
            ),
        );
    }
    assert(issue_views(issues@) =~= issue_views(old(issues)@) + hwmon_issues(*config, Some(ns@)));
}

// ---------------------------------------------------------------------
// The whole config
// ---------------------------------------------------------------------

/// Every issue of a config, in the order the checks run.
pub open spec fn config_issues(c: FanConfig, names: Option<Seq<String>>) -> Seq<IssueView> {
    curve_issues(c.curve@, "shared"@) + critical_issues(c) + channels_issues(c) + profiles_issues(c)
        + quiet_issues(c) + hwmon_issues(c, names)
}

/// Validate a parsed config and return any issues found. `hwmon_names` are
/// the names of this machine's hwmon devices, `None` when they could not be
/// listed.
pub fn validate(config: &FanConfig, hwmon_names: Option<&Vec<String>>) -> (issues: Vec<Issue>)
    ensures
        issue_views(issues@) == config_issues(
            *config,
            match hwmon_names {
                Some(n) => Some(n@),
                None => None,
            },
        ),
{
    let mut issues: Vec<Issue> = Vec::new();
    validate_curve(&config.curve, "shared", &mut issues);
    validate_critical_temps(config, &mut issues);
    validate_channels(config, &mut issues);
    validate_profiles(config, &mut issues);
    validate_critical_duties(config, &mut issues);
    validate_hwmon(config, hwmon_names, &mut issues);
    assert(issue_views(issues@) =~= config_issues(
        *config,
        match hwmon_names {
            Some(n) => Some(n@),
            None => None,
        },
    ));
    issues
}

/// How many issues of a sequence have a given severity.
pub open spec fn count_severity(v: Seq<IssueView>, s: Severity) -> nat
    decreases v.len(),
{
    if v.len() == 0 {
        0
    } else {
        count_severity(v.drop_last(), s) + (if v.last().0 == s {
            1nat
        } else {
            0nat
        })
    }
}

/// Number of issues with the given severity.
pub fn count(issues: &Vec<Issue>, severity: Severity) -> (n: usize)
    ensures
        n == count_severity(issue_views(issues@), severity),
{
    let mut n: usize = 0;
    let mut k: usize = 0;
    while k < issues.len()
        invariant
            k <= issues@.len(),
            n <= k,
            n == count_severity(issue_views(issues@.subrange(0, k as int)), severity),
        decreases issues@.len() - k,
    {
        assert(issue_views(issues@.subrange(0, k + 1)).drop_last() =~= issue_views(
            issues@.subrange(0, k as int),
        ));
        if issues[k].severity == severity {
            n = n + 1;
        }
        k = k + 1;
    }
    assert(issues@.subrange(0, k as int) =~= issues@);
    n
}

/// The line printed for an issue.
pub open spec fn issue_line(i: IssueView) -> Seq<char> {
    (if i.0 == Severity::Error {
        "error"@
    } else {
        "warning"@
    }) + ": "@ + i.1
}

/// The closing line of a check: all clear, warnings only, or errors.
pub open spec fn summary_line(errors: nat, warnings: nat) -> Seq<char> {
    if errors == 0 && warnings == 0 {
        "config ok"@
    } else if errors == 0 {
        "\n"@ + dec_digits(warnings) + " warning(s), no errors"@
    } else {
        "\n"@ + dec_digits(errors) + " error(s), "@ + dec_digits(warnings) + " warning(s)"@
    }
}

/// What `powercurve config` prints, and whether it fails.
#[derive(Debug)]
pub struct CheckReport {
    pub lines: Vec<String>,
    /// The config has errors: the command exits with a failure.
    pub failed: bool,
}

/// The report of a check: a line per issue, then the summary; it fails
/// when there is an error.
pub fn report(issues: &Vec<Issue>) -> (r: CheckReport)
    ensures
        r.lines@.len() == issues@.len() + 1,
        forall|k: int| 0 <= k < issues@.len() ==> #[trigger] r.lines@[k]@ == issue_line(issue_views(issues@)[k]),
        r.lines@.last()@ == summary_line(
            count_severity(issue_views(issues@), Severity::Error),
            count_severity(issue_views(issues@), Severity::Warning),
        ),
        r.failed == (count_severity(issue_views(issues@), Severity::Error) > 0),
{
    let errors = count(issues, Severity::Error);
    let warnings = count(issues, Severity::Warning);
    let mut lines: Vec<String> = Vec::new();
    let mut k: usize = 0;
    while k < issues.len()
        invariant
            k <= issues@.len(),
            lines@.len() == k,
            forall|j: int| 0 <= j < k ==> #[trigger] lines@[j]@ == issue_line(issue_views(issues@)[j]),
        decreases issues@.len() - k,
    {
        let mut line = match issues[k].severity {
            Severity::Error => string_of("error"),
            Severity::Warning => string_of("warning"),
        };
        line.append(": ");
        line.append(issues[k].message.as_str());
        lines.push(line);
        k = k + 1;
    }
    let summary = if errors == 0 && warnings == 0 {
        string_of("config ok")
    } else if errors == 0 {
        let mut s = string_of("\n");
        push_dec(&mut s, warnings as u64);
        s.append(" warning(s), no errors");
        s
    } else {
        let mut s = string_of("\n");
        push_dec(&mut s, errors as u64);
        s.append(" error(s), ");
        push_dec(&mut s, warnings as u64);
        s.append(" warning(s)");
        s
    };
    lines.push(summary);
    CheckReport { lines, failed: errors > 0 }
}

} // verus!
