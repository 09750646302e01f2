use powercurve::curve::{FanCurve, TempSource};
use powercurve::fan::{build_curve, min_duty_byte, parse_temp_source, FanDaemon, DEFAULT_HYSTERESIS};
use powercurve::fan_config::{ChannelConfig, ChannelProfileConfig, CurvePoint, FanConfig, ProfileConfig};

fn pt(temp: i64, duty: i64) -> CurvePoint {
    CurvePoint { temp, duty }
}

fn channel(pwm: &str, source: &str) -> ChannelConfig {
    ChannelConfig {
        pwm: pwm.into(),
        source: source.into(),
        min_duty: None,
        stall_detect: None,
        stall_threshold: None,
        passthrough: None,
        curve: None,
        profiles: None,
    }
}

fn config(platform: Option<&str>, cpu: i64, gpu: i64, curve: Vec<CurvePoint>) -> FanConfig {
    FanConfig {
        platform: platform.map(|p| p.to_string()),
        critical_cpu_temp: cpu,
        critical_gpu_temp: gpu,
        hysteresis: None,
        thermal_fallback: None,
        thermal_cooldown: None,
        curve,
        channels: vec![channel("pwm1", "cpu")],
        profiles: None,
    }
}

fn daemon(c: &FanConfig) -> FanDaemon {
    let names = vec!["nct6775".to_string(), "coretemp".to_string()];
    let d = FanDaemon::new(Some(c.clone()), Some(&names));
    assert!(d.status_handle().config_loaded);
    d
}

fn duty_at(curve: &FanCurve, hundredths: i16) -> u16 {
    curve.get_duty(hundredths).unwrap()
}

#[test]
fn config_with_platform() {
    let c = config(Some("nct6775"), 85_000, 80_000, vec![pt(35_000, 0)]);
    assert_eq!(c.platform.as_deref(), Some("nct6775"));
    let d = daemon(&c);
    assert_eq!(d.platform_names, vec!["nct6775".to_string()]);
}

#[test]
fn config_without_platform() {
    let c = config(None, 79_000, 75_000, vec![pt(40_000, 15_000)]);
    assert!(c.platform.is_none());
    let d = daemon(&c);
    assert!(d.platform_names.is_empty());
}

#[test]
fn config_per_channel_curve() {
    let mut c = config(Some("nct6775"), 85_000, 80_000, vec![pt(35_000, 0), pt(70_000, 100_000)]);
    let mut second = channel("pwm2", "gpu");
    second.curve = Some(vec![pt(40_000, 0), pt(80_000, 100_000)]);
    c.channels.push(second);
    assert_eq!(c.channels.len(), 2);
    assert!(c.channels[0].curve.is_none());
    let ch_curve = c.channels[1].curve.as_ref().unwrap();
    assert_eq!(ch_curve.len(), 2);
    assert_eq!(ch_curve[0].temp, 40_000);
    assert_eq!(ch_curve[1].temp, 80_000);

    let shared = build_curve(&c.curve);
    let override_curve = build_curve(ch_curve);
    assert_ne!(shared, override_curve);

    // The first channel runs the shared curve, the second its own.
    let d = daemon(&c);
    assert_eq!(d.channels[0].curve, shared);
    assert_eq!(d.channels[1].curve, override_curve);
}

#[test]
fn config_parsing() {
    let mut c = config(None, 79_000, 75_000, vec![pt(40_000, 15_000), pt(70_000, 100_000)]);
    c.channels = vec![channel("pwm1", "cpu"), channel("pwm2", "all"), channel("pwm3", "gpu")];
    assert_eq!(c.curve.len(), 2);
    assert_eq!(c.channels.len(), 3);

    let curve = build_curve(&c.curve);
    assert_eq!(curve.get_duty(40_00), Some(15_00));
    assert_eq!(curve.get_duty(70_00), Some(100_00));

    assert_eq!(parse_temp_source("cpu"), TempSource::Cpu);
    assert_eq!(parse_temp_source("gpu"), TempSource::Gpu);
    assert_eq!(parse_temp_source("all"), TempSource::All);
    assert_eq!(parse_temp_source("bogus"), TempSource::All);

    // Critical temperatures in millidegrees.
    let d = daemon(&c);
    assert_eq!(d.critical_cpu_temp, 79_000);
    assert_eq!(d.critical_gpu_temp, 75_000);
    assert_eq!(d.channels[1].source, TempSource::All);
    assert_eq!(d.channels[2].source, TempSource::Gpu);
}

#[test]
fn config_hysteresis_default() {
    let c = config(Some("nct6775"), 85_000, 80_000, vec![pt(35_000, 0)]);
    assert!(c.hysteresis.is_none());
    let d = daemon(&c);
    assert_eq!(d.hysteresis, 3000);
    assert_eq!(DEFAULT_HYSTERESIS, 3000);
}

#[test]
fn config_hysteresis_custom() {
    let mut c = config(Some("nct6775"), 85_000, 80_000, vec![pt(35_000, 0)]);
    c.hysteresis = Some(5_000);
    assert_eq!(c.hysteresis, Some(5_000));
    let d = daemon(&c);
    assert_eq!(d.hysteresis, 5000);
}

#[test]
fn config_per_channel_profile_curves() {
    let mut c = config(Some("nct6775"), 85_000, 80_000, vec![pt(35_000, 10_000), pt(70_000, 100_000)]);
    c.profiles = Some(vec![(
        "quiet".to_string(),
        ProfileConfig { curve: vec![pt(40_000, 5_000), pt(80_000, 60_000)] },
    )]);
    let mut pwm3 = channel("pwm3", "gpu");
    pwm3.curve = Some(vec![pt(30_000, 5_000), pt(80_000, 100_000)]);
    pwm3.profiles = Some(vec![
        ("quiet".to_string(), ChannelProfileConfig { curve: vec![pt(30_000, 3_000), pt(80_000, 80_000)] }),
        (
            "performance".to_string(),
            ChannelProfileConfig { curve: vec![pt(30_000, 10_000), pt(70_000, 100_000)] },
        ),
    ]);
    c.channels.push(pwm3);

    assert!(c.channels[0].curve.is_none());
    assert!(c.channels[0].profiles.is_none());
    assert!(c.channels[1].curve.is_some());
    let ch_profiles = c.channels[1].profiles.as_ref().unwrap();
    assert_eq!(ch_profiles.len(), 2);
    assert_eq!(ch_profiles[0].0, "quiet");
    assert_eq!(ch_profiles[1].0, "performance");

    let shared = build_curve(&c.curve);
    let ch_default = build_curve(c.channels[1].curve.as_ref().unwrap());
    let ch_quiet = build_curve(&ch_profiles[0].1.curve);
    let ch_perf = build_curve(&ch_profiles[1].1.curve);

    let shared_50 = duty_at(&shared, 50_00);
    let ch_default_50 = duty_at(&ch_default, 50_00);
    let ch_quiet_50 = duty_at(&ch_quiet, 50_00);
    let ch_perf_50 = duty_at(&ch_perf, 50_00);
    assert_ne!(shared_50, ch_default_50);
    assert_ne!(ch_default_50, ch_quiet_50);
    assert!(ch_quiet_50 < ch_default_50, "quiet should be lower duty than default");
    assert!(ch_perf_50 > ch_default_50, "performance should be higher duty than default");

    // The daemon picks the most specific curve for each profile.
    let mut d = daemon(&c);
    assert_eq!(d.channels[1].curve, ch_default);
    d.set_profile("Quiet");
    assert_eq!(d.channels[1].curve, ch_quiet);
    assert_eq!(d.channels[0].curve, build_curve(&vec![pt(40_000, 5_000), pt(80_000, 60_000)]));
    d.set_profile("performance");
    assert_eq!(d.channels[1].curve, ch_perf);
    assert_eq!(d.channels[0].curve, shared);
}

#[test]
fn config_min_duty() {
    let mut c = config(Some("nct6775"), 85_000, 80_000, vec![pt(40_000, 15_000)]);
    c.channels[0].min_duty = Some(10_000);
    assert_eq!(c.channels[0].min_duty, Some(10_000));
    let d = daemon(&c);
    assert_eq!(d.channels[0].min_duty, Some(min_duty_byte(10_000)));
    assert_eq!(d.channels[0].min_duty, Some(26));
}

#[test]
fn config_min_duty_absent() {
    let c = config(Some("nct6775"), 85_000, 80_000, vec![pt(40_000, 15_000)]);
    assert!(c.channels[0].min_duty.is_none());
    let d = daemon(&c);
    assert_eq!(d.channels[0].min_duty, None);
}

#[test]
fn config_per_profile_curves() {
    let mut c = config(Some("nct6775"), 85_000, 80_000, vec![pt(35_000, 0), pt(70_000, 100_000)]);
    c.profiles = Some(vec![
        ("quiet".to_string(), ProfileConfig { curve: vec![pt(40_000, 0), pt(80_000, 60_000)] }),
        ("performance".to_string(), ProfileConfig { curve: vec![pt(30_000, 20_000), pt(60_000, 100_000)] }),
    ]);
    let profiles = c.profiles.as_ref().unwrap();
    assert_eq!(profiles.len(), 2);
    assert_eq!(profiles[0].0, "quiet");
    assert_eq!(profiles[1].0, "performance");

    let quiet_curve = build_curve(&profiles[0].1.curve);
    let perf_curve = build_curve(&profiles[1].1.curve);
    let shared_curve = build_curve(&c.curve);
    assert!(duty_at(&quiet_curve, 50_00) < duty_at(&shared_curve, 50_00));
    assert!(duty_at(&perf_curve, 50_00) > duty_at(&shared_curve, 50_00));

    let mut d = daemon(&c);
    d.set_profile("quiet");
    assert_eq!(d.channels[0].curve, quiet_curve);
    d.set_profile("Performance");
    assert_eq!(d.channels[0].curve, perf_curve);
}

#[test]
fn config_stall_detect() {
    let mut c = config(Some("nct6775"), 85_000, 80_000, vec![pt(40_000, 15_000)]);
    c.channels[0].stall_detect = Some(true);
    c.channels[0].stall_threshold = Some(5);
    assert_eq!(c.channels[0].stall_detect, Some(true));
    assert_eq!(c.channels[0].stall_threshold, Some(5));
    let d = daemon(&c);
    assert!(d.channels[0].stall_detect);
    assert_eq!(d.channels[0].stall_threshold, 5);
}

#[test]
fn config_stall_detect_defaults() {
    let c = config(Some("nct6775"), 85_000, 80_000, vec![pt(40_000, 15_000)]);
    assert!(c.channels[0].stall_detect.is_none());
    assert!(c.channels[0].stall_threshold.is_none());
    let d = daemon(&c);
    assert!(!d.channels[0].stall_detect);
    assert_eq!(d.channels[0].stall_threshold, 3);
}

#[test]
fn config_passthrough() {
    let mut c = config(Some("nct6775"), 85_000, 80_000, vec![pt(40_000, 15_000)]);
    let mut pwm4 = channel("pwm4", "all");
    pwm4.passthrough = Some(true);
    c.channels.push(pwm4);
    assert!(c.channels[0].passthrough.is_none());
    assert_eq!(c.channels[1].passthrough, Some(true));
    let d = daemon(&c);
    assert!(!d.channels[0].passthrough);
    assert!(d.channels[1].passthrough);
}

#[test]
fn profile_names_kept_once_first_wins() {
    let mut c = config(Some("nct6775"), 85_000, 80_000, vec![pt(35_000, 0), pt(70_000, 100_000)]);
    c.profiles = Some(vec![
        ("Quiet".to_string(), ProfileConfig { curve: vec![pt(40_000, 0), pt(80_000, 60_000)] }),
        ("quiet".to_string(), ProfileConfig { curve: vec![pt(30_000, 20_000), pt(60_000, 100_000)] }),
    ]);
    let mut d = daemon(&c);
    assert_eq!(d.profile_curves.len(), 1);
    assert_eq!(d.profile_curves[0].0, "quiet");
    d.set_profile("quiet");
    assert_eq!(d.channels[0].curve, build_curve(&vec![pt(40_000, 0), pt(80_000, 60_000)]));
}
