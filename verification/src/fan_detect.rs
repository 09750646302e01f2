//! Starting a fan configuration from the hwmon devices found: which device
//! drives the fans, which sensor each fan follows, and the fan.toml text.
//!
//! The caller walks `/sys/class/hwmon` and hands in what it read.
use crate::config_check::is_cpu_driver;
use crate::text::{contains_seq, dec_digits, lowercase, push_dec, str_contains, str_eq, str_lowercase, string_of};
use vstd::prelude::*;

verus! {

/// A temperature input of an hwmon device.
#[derive(Debug)]
pub struct TempInput {
    pub file: String,
    pub label: String,
    pub value: String,
}

/// A PWM output of an hwmon device, with its fan's readings when there are any.
#[derive(Debug)]
pub struct PwmOutput {
    pub file: String,
    pub value: String,
    pub max: String,
    pub rpm: Option<String>,
    pub label: String,
}

/// An hwmon device with its temperature inputs and PWM outputs.
#[derive(Debug)]
pub struct HwmonDevice {
    pub index: String,
    pub name: String,
    pub temps: Vec<TempInput>,
    pub pwms: Vec<PwmOutput>,
}

pub open spec fn is_gpu_driver(n: Seq<char>) -> bool {
    n == "amdgpu"@
}

/// A device that can drive the case fans: one with PWM outputs that is not
/// a CPU or GPU sensor driver.
pub open spec fn is_platform_candidate(d: HwmonDevice) -> bool {
    d.pwms@.len() > 0 && !is_cpu_driver(d.name@) && !is_gpu_driver(d.name@)
}

fn is_cpu_driver_name(n: &str) -> (r: bool)
    ensures
        r == is_cpu_driver(n@),
{
    str_eq(n, "coretemp") || str_eq(n, "k10temp") || str_eq(n, "zenpower") || str_eq(n, "apm_xgene")
}

/// The first device that can drive the case fans.
pub fn pick_platform(devices: &Vec<HwmonDevice>) -> (r: Option<usize>)
    ensures
        match r {
            Some(i) => i < devices@.len() && is_platform_candidate(devices@[i as int]) && forall|k: int|
                0 <= k < i ==> !is_platform_candidate(#[trigger] devices@[k]),
            None => forall|k: int| 0 <= k < devices@.len() ==> !is_platform_candidate(#[trigger] devices@[k]),
        },
{
    let mut i: usize = 0;
    while i < devices.len()
        invariant
            i <= devices@.len(),
            forall|k: int| 0 <= k < i ==> !is_platform_candidate(#[trigger] devices@[k]),
        decreases devices@.len() - i,
    {
        let d = &devices[i];
        if d.pwms.len() > 0 && !is_cpu_driver_name(d.name.as_str()) && !str_eq(d.name.as_str(), "amdgpu") {
            return Some(i);
        }
        i = i + 1;
    }
    None
}

/// The temperature source a fan label suggests: `cpu` or `gpu` when the
/// lowercased label mentions one, `all` otherwise.
pub open spec fn source_for(label: Seq<char>) -> Seq<char> {
    if contains_seq(str_lowercase(label), "cpu"@) {
        "cpu"@
    } else if contains_seq(str_lowercase(label), "gpu"@) {
        "gpu"@
    } else {
        "all"@
    }
}

/// Guesses a temperature source from a fan label.
pub fn source_from_label(label: &str) -> (r: &'static str)
    ensures
        r@ == source_for(label@),
{
    let lower = lowercase(label);
    if str_contains(lower.as_str(), "cpu") {
        "cpu"
    } else if str_contains(lower.as_str(), "gpu") {
        "gpu"
    } else {
        "all"
    }
}

/// The critical CPU temperature to suggest, in degrees: 15 below the CPU's
/// throttle point (given in millidegrees) when it is known and above 15
/// degrees, 80 otherwise.
pub open spec fn suggested_critical(throttle_millideg: Option<u32>) -> nat {
    match throttle_millideg {
        Some(t) => if t / 1000 > 15 {
            (t / 1000 - 15) as nat
        } else {
            80
        },
        None => 80,
    }
}

pub fn critical_cpu_temp(throttle_millideg: Option<u32>) -> (c: u32)
    ensures
        c == suggested_critical(throttle_millideg),
{
    match throttle_millideg {
        Some(t) => if t / 1000 > 15 {
            t / 1000 - 15
        } else {
            80
        },
        None => 80,
    }
}

/// The GPU critical temperature, the curve, and the comment above it.
pub open spec fn curve_section() -> Seq<char> {
    "critical_gpu_temp = 75\n\n# Smooth fan curve with tight steps through the idle range and a\n# gentle ramp into load. Always-on floor at 10% avoids start/stop cycling.\n[[curve]]\ntemp = 30.0\nduty = 10\n\n[[curve]]\ntemp = 36.0\nduty = 12\n\n[[curve]]\ntemp = 40.0\nduty = 18\n\n[[curve]]\ntemp = 43.0\nduty = 22\n\n[[curve]]\ntemp = 46.0\nduty = 26\n\n[[curve]]\ntemp = 50.0\nduty = 30\n\n[[curve]]\ntemp = 54.0\nduty = 38\n\n[[curve]]\ntemp = 58.0\nduty = 45\n\n[[curve]]\ntemp = 62.0\nduty = 55\n\n[[curve]]\ntemp = 66.0\nduty = 68\n\n[[curve]]\ntemp = 70.0\nduty = 80\n\n[[curve]]\ntemp = 75.0\nduty = 100\n"@
}

pub open spec fn header_text(name: Seq<char>, critical: nat) -> Seq<char> {
    "platform = \""@ + name + "\"\n"@ + "critical_cpu_temp = "@ + dec_digits(critical) + "\n"@
        + curve_section()
}

/// Whether any output has a fan label.
pub open spec fn has_labels(pwms: Seq<PwmOutput>) -> bool {
    exists|k: int| 0 <= k < pwms.len() && (#[trigger] pwms[k]).label@.len() > 0
}

/// The `[[channels]]` entry of one output: its label as a comment, its
/// PWM file, and the source its label suggests (`all` when no output has a
/// label).
pub open spec fn channel_text(p: PwmOutput, labelled: bool) -> Seq<char> {
    "\n"@ + (if p.label@.len() > 0 {
        "# "@ + p.label@ + "\n"@
    } else {
        Seq::empty()
    }) + "[[channels]]\n"@ + "pwm = \""@ + p.file@ + "\"\n"@ + "source = \""@ + (if labelled {
        source_for(p.label@)
    } else {
        "all"@
    }) + "\"\n"@
}

pub open spec fn channels_text(pwms: Seq<PwmOutput>, labelled: bool, n: int) -> Seq<char>
    decreases n,
{
    if n <= 0 {
        Seq::empty()
    } else {
        channels_text(pwms, labelled, n - 1) + channel_text(pwms[n - 1], labelled)
    }
}

/// The closing note when no output has a label.
pub open spec fn trailer_text(labelled: bool) -> Seq<char> {
    if labelled {
        Seq::empty()
    } else {
        "\n"@ + "# No fan labels found. All channels default to source = \"all\".\n"@
            + "# Adjust sources to \"cpu\" or \"gpu\" based on your fan layout.\n"@
    }
}

/// The starter fan.toml for a platform device.
pub open spec fn config_text(d: HwmonDevice, throttle_millideg: Option<u32>) -> Seq<char> {
    header_text(d.name@, suggested_critical(throttle_millideg)) + channels_text(
        d.pwms@,
        has_labels(d.pwms@),
        d.pwms@.len() as int,
    ) + trailer_text(has_labels(d.pwms@))
}

fn any_label(pwms: &Vec<PwmOutput>) -> (r: bool)
    ensures
        r == has_labels(pwms@),
{
    let mut k: usize = 0;
    while k < pwms.len()
        invariant
            k <= pwms@.len(),
            forall|j: int| 0 <= j < k ==> (#[trigger] pwms@[j]).label@.len() == 0,
        decreases pwms@.len() - k,
    {
        if pwms[k].label.as_str().unicode_len() > 0 {
            assert(pwms@[k as int].label@.len() > 0);
            return true;
        }
        k = k + 1;
    }
    false
}

fn push_channel(out: &mut String, p: &PwmOutput, labelled: bool)
    ensures
        final(out)@ == old(out)@ + channel_text(*p, labelled),
{
    out.append("\n");
    let ghost a = out@;
    if p.label.as_str().unicode_len() > 0 {
        out.append("# ");
        out.append(p.label.as_str());
        out.append("\n");
    }
    let ghost b = out@;
    out.append("[[channels]]\n");
    out.append("pwm = \"");
    out.append(p.file.as_str());
    out.append("\"\n");
    out.append("source = \"");
    if labelled {
        out.append(source_from_label(p.label.as_str()));
    } else {
        out.append("all");
    }
    out.append("\"\n");
    assert(out@ =~= old(out)@ + channel_text(*p, labelled));
}

/// Generates a starter fan.toml for a platform device. Only the CPU
/// critical temperature follows the throttle point read (15C below it, 80C
/// when none was read); the GPU critical temperature is always written as 75C.
pub fn generate_config(platform: &HwmonDevice, throttle_millideg: Option<u32>) -> (s: String)
    ensures
        s@ == config_text(*platform, throttle_millideg),
{
    let labelled = any_label(&platform.pwms);
    let mut out = string_of("platform = \"");
    out.append(platform.name.as_str());
    out.append("\"\n");
    out.append("critical_cpu_temp = ");
    push_dec(&mut out, critical_cpu_temp(throttle_millideg) as u64);
    out.append("\n");
    out.append("critical_gpu_temp = 75\n\n# Smooth fan curve with tight steps through the idle range and a\n# gentle ramp into load. Always-on floor at 10% avoids start/stop cycling.\n[[curve]]\ntemp = 30.0\nduty = 10\n\n[[curve]]\ntemp = 36.0\nduty = 12\n\n[[curve]]\ntemp = 40.0\nduty = 18\n\n[[curve]]\ntemp = 43.0\nduty = 22\n\n[[curve]]\ntemp = 46.0\nduty = 26\n\n[[curve]]\ntemp = 50.0\nduty = 30\n\n[[curve]]\ntemp = 54.0\nduty = 38\n\n[[curve]]\ntemp = 58.0\nduty = 45\n\n[[curve]]\ntemp = 62.0\nduty = 55\n\n[[curve]]\ntemp = 66.0\nduty = 68\n\n[[curve]]\ntemp = 70.0\nduty = 80\n\n[[curve]]\ntemp = 75.0\nduty = 100\n");
    let ghost head = out@;
    assert(head =~= header_text(platform.name@, suggested_critical(throttle_millideg)));
    let mut i: usize = 0;
    while i < platform.pwms.len()
        invariant
            i <= platform.pwms@.len(),
            labelled == has_labels(platform.pwms@),
            out@ == head + channels_text(platform.pwms@, labelled, i as int),
        decreases platform.pwms@.len() - i,
    {
        push_channel(&mut out, &platform.pwms[i], labelled);
        i = i + 1;
        assert(out@ =~= head + channels_text(platform.pwms@, labelled, i as int));
    }
    let ghost body = out@;
    if !labelled {
        out.append("\n");
        out.append("# No fan labels found. All channels default to source = \"all\".\n");
        out.append("# Adjust sources to \"cpu\" or \"gpu\" based on your fan layout.\n");
    }
    assert(out@ =~= body + trailer_text(labelled));
    out
}

} // verus!
