use powercurve::config_check::{
    validate, validate_channels, validate_critical_duties, validate_critical_temps, validate_curve,
    validate_profiles, Issue, Severity,
};
use powercurve::fan_config::{ChannelConfig, ChannelProfileConfig, CurvePoint, FanConfig, ProfileConfig};

/// A point from Celsius and percent, held in thousandths.
fn pt(temp: f64, duty: f64) -> CurvePoint {
    CurvePoint { temp: (temp * 1000.0).round() as i64, duty: (duty * 1000.0).round() as i64 }
}

fn channel(pwm: &str, source: &str) -> ChannelConfig {
    ChannelConfig {
        pwm: pwm.into(),
        source: source.into(),
        min_duty: None,
        stall_detect: None,
        stall_threshold: None,
        passthrough: None,
        curve: None,
        profiles: None,
    }
}

/// Build a minimal valid config for testing.
fn valid_config() -> FanConfig {
    FanConfig {
        platform: None,
        critical_cpu_temp: 80_000,
        critical_gpu_temp: 75_000,
        hysteresis: None,
        thermal_fallback: None,
        thermal_cooldown: None,
        curve: vec![pt(30.0, 10.0), pt(50.0, 50.0), pt(75.0, 100.0)],
        channels: vec![channel("pwm1", "cpu")],
        profiles: None,
    }
}

fn errors(issues: &[Issue]) -> Vec<&str> {
    issues.iter().filter(|i| i.severity == Severity::Error).map(|i| i.message.as_str()).collect()
}

fn warnings(issues: &[Issue]) -> Vec<&str> {
    issues.iter().filter(|i| i.severity == Severity::Warning).map(|i| i.message.as_str()).collect()
}

#[test]
fn valid_config_no_issues() {
    let config = valid_config();
    let mut issues = Vec::new();
    validate_curve(&config.curve, "shared", &mut issues);
    validate_critical_temps(&config, &mut issues);
    validate_channels(&config, &mut issues);
    validate_profiles(&config, &mut issues);
    assert!(errors(&issues).is_empty());
    assert!(warnings(&issues).is_empty());
}

#[test]
fn curve_not_monotonic() {
    let mut config = valid_config();
    config.curve = vec![pt(50.0, 50.0), pt(30.0, 10.0)];
    let mut issues = Vec::new();
    validate_curve(&config.curve, "shared", &mut issues);
    assert_eq!(errors(&issues).len(), 1);
    assert!(errors(&issues)[0].contains("not greater than previous"));
}

#[test]
fn duty_out_of_range() {
    let mut config = valid_config();
    config.curve = vec![pt(30.0, -5.0), pt(50.0, 110.0)];
    let mut issues = Vec::new();
    validate_curve(&config.curve, "shared", &mut issues);
    assert_eq!(errors(&issues).len(), 2);
}

#[test]
fn critical_temp_out_of_range() {
    let mut config = valid_config();
    config.critical_cpu_temp = 150_000;
    config.critical_gpu_temp = -10_000;
    let mut issues = Vec::new();
    validate_critical_temps(&config, &mut issues);
    assert_eq!(errors(&issues).len(), 2);
}

#[test]
fn unknown_profile_name() {
    let mut config = valid_config();
    let profiles = vec![("turbo".to_string(), ProfileConfig { curve: vec![pt(30.0, 80.0)] })];
    config.profiles = Some(profiles);
    let mut issues = Vec::new();
    validate_profiles(&config, &mut issues);
    assert_eq!(warnings(&issues).len(), 1);
    assert!(warnings(&issues)[0].contains("unknown profile name"));
}

#[test]
fn thermal_cooldown_out_of_range() {
    let mut config = valid_config();
    config.thermal_cooldown = Some(0);
    let mut issues = Vec::new();
    validate_critical_temps(&config, &mut issues);
    assert_eq!(errors(&issues).len(), 1);
    assert!(errors(&issues)[0].contains("thermal_cooldown"));

    config.thermal_cooldown = Some(500);
    issues.clear();
    validate_critical_temps(&config, &mut issues);
    assert_eq!(errors(&issues).len(), 1);
}

#[test]
fn hysteresis_out_of_range() {
    let mut config = valid_config();
    config.hysteresis = Some(25_000);
    let mut issues = Vec::new();
    validate_critical_temps(&config, &mut issues);
    assert_eq!(errors(&issues).len(), 1);
    assert!(errors(&issues)[0].contains("hysteresis"));
}

#[test]
fn no_channels_is_error() {
    let mut config = valid_config();
    config.channels.clear();
    let mut issues = Vec::new();
    validate_channels(&config, &mut issues);
    assert_eq!(errors(&issues).len(), 1);
    assert!(errors(&issues)[0].contains("no channels"));
}

#[test]
fn unknown_source_is_warning() {
    let mut config = valid_config();
    config.channels = vec![channel("pwm1", "memory")];
    let mut issues = Vec::new();
    validate_channels(&config, &mut issues);
    assert_eq!(warnings(&issues).len(), 1);
    assert!(warnings(&issues)[0].contains("unknown source"));
}

#[test]
fn channel_profile_unknown_name_is_warning() {
    let mut config = valid_config();
    let profiles =
        vec![("turbo".to_string(), ChannelProfileConfig { curve: vec![pt(30.0, 10.0)] })];
    let mut ch = channel("pwm1", "cpu");
    ch.profiles = Some(profiles);
    config.channels = vec![ch];
    let mut issues = Vec::new();
    validate_channels(&config, &mut issues);
    assert_eq!(warnings(&issues).len(), 1);
    assert!(warnings(&issues)[0].contains("unknown profile name"));
}

#[test]
fn min_duty_out_of_range() {
    let mut config = valid_config();
    let mut ch = channel("pwm1", "cpu");
    ch.min_duty = Some(150_000);
    config.channels = vec![ch];
    let mut issues = Vec::new();
    validate_channels(&config, &mut issues);
    assert_eq!(errors(&issues).len(), 1);
    assert!(errors(&issues)[0].contains("min_duty"));
}

#[test]
fn min_duty_valid() {
    let mut config = valid_config();
    let mut ch = channel("pwm1", "cpu");
    ch.min_duty = Some(15_000);
    config.channels = vec![ch];
    let mut issues = Vec::new();
    validate_channels(&config, &mut issues);
    assert!(errors(&issues).is_empty());
}

#[test]
fn channel_profile_bad_curve_is_error() {
    let mut config = valid_config();
    let profiles = vec![(
        "quiet".to_string(),
        ChannelProfileConfig { curve: vec![pt(50.0, 50.0), pt(30.0, 10.0)] },
    )];
    let mut ch = channel("pwm1", "cpu");
    ch.profiles = Some(profiles);
    config.channels = vec![ch];
    let mut issues = Vec::new();
    validate_channels(&config, &mut issues);
    assert_eq!(errors(&issues).len(), 1);
    assert!(errors(&issues)[0].contains("not greater than previous"));
}

#[test]
fn stall_threshold_out_of_range() {
    let mut config = valid_config();
    let mut ch = channel("pwm1", "cpu");
    ch.stall_detect = Some(true);
    ch.stall_threshold = Some(0);
    config.channels = vec![ch];
    let mut issues = Vec::new();
    validate_channels(&config, &mut issues);
    assert_eq!(errors(&issues).len(), 1);
    assert!(errors(&issues)[0].contains("stall_threshold"));

    config.channels[0].stall_threshold = Some(15);
    issues.clear();
    validate_channels(&config, &mut issues);
    assert_eq!(errors(&issues).len(), 1);
}

#[test]
fn stall_threshold_valid() {
    let mut config = valid_config();
    let mut ch = channel("pwm1", "cpu");
    ch.stall_detect = Some(true);
    ch.stall_threshold = Some(5);
    config.channels = vec![ch];
    let mut issues = Vec::new();
    validate_channels(&config, &mut issues);
    assert!(errors(&issues).is_empty());
}

#[test]
fn passthrough_skips_validation() {
    let mut config = valid_config();
    let mut ch = channel("pwm4", "all");
    ch.passthrough = Some(true);
    config.channels = vec![ch];
    let mut issues = Vec::new();
    validate_channels(&config, &mut issues);
    assert!(errors(&issues).is_empty());
    assert!(warnings(&issues).is_empty());
}

#[test]
fn passthrough_warns_on_ignored_settings() {
    let mut config = valid_config();
    let mut ch = channel("pwm4", "all");
    ch.min_duty = Some(25_000);
    ch.passthrough = Some(true);
    config.channels = vec![ch];
    let mut issues = Vec::new();
    validate_channels(&config, &mut issues);
    assert_eq!(warnings(&issues).len(), 1);
    assert!(warnings(&issues)[0].contains("passthrough"));
}

#[test]
fn curve_error_messages_are_exact() {
    let mut issues = Vec::new();
    validate_curve(&vec![pt(50.0, 50.0), pt(30.0, 10.0)], "shared", &mut issues);
    assert_eq!(
        errors(&issues),
        vec!["shared curve point 1: temp 30.0C is not greater than previous 50.0C"]
    );
    issues.clear();
    validate_curve(&vec![pt(30.0, 50.0), pt(40.0, 20.5)], "shared", &mut issues);
    assert_eq!(errors(&issues), vec!["shared curve point 1: duty 20.5 is lower than previous 50.0"]);
    issues.clear();
    validate_curve(&vec![], "shared", &mut issues);
    assert_eq!(errors(&issues), vec!["shared curve has no points"]);
}

#[test]
fn zero_duty_at_critical_is_rejected() {
    let mut config = valid_config();
    config.curve = vec![pt(30.0, 10.0), pt(80.0, 50.0), pt(90.0, 0.0)];
    let mut issues = Vec::new();
    validate_critical_duties(&config, &mut issues);
    assert_eq!(errors(&issues).len(), 1);

    let config = valid_config();
    let mut issues = Vec::new();
    validate_critical_duties(&config, &mut issues);
    assert!(errors(&issues).is_empty());
}

#[test]
fn full_validation_counts() {
    let issues = validate(&valid_config(), None);
    assert!(errors(&issues).is_empty());
}
