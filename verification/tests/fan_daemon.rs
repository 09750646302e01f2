use powercurve::fan::{FanDaemon, NvidiaReading, PwmAction, Readings, ReloadError};
use powercurve::fan_config::{ChannelConfig, CurvePoint, FanConfig};

fn channel(pwm: &str, source: &str) -> ChannelConfig {
    ChannelConfig {
        pwm: pwm.into(),
        source: source.into(),
        min_duty: None,
        stall_detect: None,
        stall_threshold: None,
        passthrough: None,
        curve: None,
        profiles: None,
    }
}

fn config() -> FanConfig {
    let mut passthrough = channel("pwm3", "all");
    passthrough.passthrough = Some(true);
    let mut floored = channel("pwm4", "cpu");
    floored.min_duty = Some(20_000);
    floored.stall_detect = Some(true);
    floored.stall_threshold = Some(2);
    FanConfig {
        platform: Some("nct6775".into()),
        critical_cpu_temp: 80_000,
        critical_gpu_temp: 75_000,
        hysteresis: None,
        thermal_fallback: None,
        thermal_cooldown: None,
        curve: vec![
            CurvePoint { temp: 30_000, duty: 10_000 },
            CurvePoint { temp: 50_000, duty: 50_000 },
            CurvePoint { temp: 75_000, duty: 100_000 },
        ],
        channels: vec![channel("pwm1", "cpu"), channel("pwm2", "gpu"), passthrough, floored],
        profiles: None,
    }
}

fn names() -> Vec<String> {
    vec!["nct6775".to_string(), "coretemp".to_string()]
}

fn readings(cpu: u32, nvidia: NvidiaReading) -> Readings {
    Readings {
        cpu_temps: vec![Some(cpu)],
        amd_gpu_temps: vec![],
        nvidia,
        rpms: vec![Some(1000), Some(1000), None, Some(0)],
    }
}

fn running() -> FanDaemon {
    let names = names();
    let mut d = FanDaemon::new(Some(config()), Some(&names));
    assert!(d.status_handle().config_loaded);
    assert!(d.needs_discovery());
    d.record_discovery(true);
    assert!(!d.needs_discovery());
    d
}

#[test]
fn nothing_decided_before_discovery() {
    let names = names();
    let mut d = FanDaemon::new(Some(config()), Some(&names));
    let out = d.step(&readings(40_000, NvidiaReading::Absent));
    assert!(out.decisions.is_empty());
    assert!(!out.critical);
}

#[test]
fn curve_floor_passthrough_and_lost_source() {
    let mut d = running();
    let out = d.step(&readings(40_000, NvidiaReading::Absent));
    assert!(!out.critical);
    assert_eq!(out.decisions[0].action, PwmAction::Write(76));
    assert_eq!(out.decisions[1].action, PwmAction::Write(38));
    assert!(out.decisions[1].source_lost);
    assert_eq!(out.decisions[2].action, PwmAction::Leave);
    assert_eq!(out.decisions[3].action, PwmAction::Write(76));
    assert!(!out.decisions[3].stalled);

    let out = d.step(&readings(40_000, NvidiaReading::Absent));
    assert!(!out.decisions[1].source_lost);
    assert!(out.decisions[3].stalled);
    assert!(out.decisions[3].stall_started);
    assert_eq!(d.status_handle().stalled, vec!["pwm4".to_string()]);
    assert_eq!(d.status_handle().passthrough, vec!["pwm3".to_string()]);
    assert_eq!(d.status_handle().cpu_temp, Some(40_000));
}

#[test]
fn floor_applies_below_curve() {
    let mut d = running();
    let out = d.step(&readings(20_000, NvidiaReading::Absent));
    // Below the curve the fan is off, but the floor holds it at 20%.
    assert_eq!(out.decisions[0].action, PwmAction::Write(0));
    assert_eq!(out.decisions[3].action, PwmAction::Write(51));
}

#[test]
fn critical_sends_all_to_full() {
    let mut d = running();
    let out = d.step(&readings(80_000, NvidiaReading::Absent));
    assert!(out.critical);
    assert_eq!(out.decisions[0].action, PwmAction::Write(255));
    assert_eq!(out.decisions[1].action, PwmAction::Write(255));
    assert_eq!(out.decisions[2].action, PwmAction::Leave);
    assert_eq!(out.decisions[3].action, PwmAction::Write(255));
    assert!(d.status_handle().critical);
}

#[test]
fn override_wins_and_reads_back() {
    let mut d = running();
    d.status_mut().set_override("pwm1", 50);
    assert_eq!(d.status_handle().override_for("pwm1"), Some(50));
    let out = d.step(&readings(40_000, NvidiaReading::Absent));
    assert_eq!(out.decisions[0].action, PwmAction::Write(128));
    d.status_mut().clear_override("pwm1");
    assert_eq!(d.status_handle().override_for("pwm1"), None);
}

#[test]
fn profile_switch_clears_overrides() {
    let mut d = running();
    d.status_mut().set_override("pwm1", 50);
    d.set_profile("Quiet");
    assert!(d.status_handle().overrides.is_empty());
    assert_eq!(d.current_profile, "quiet");
}

#[test]
fn hysteresis_holds_small_drops() {
    let mut d = running();
    let out = d.step(&readings(50_000, NvidiaReading::Absent));
    assert_eq!(out.decisions[0].action, PwmAction::Write(127));
    let out = d.step(&readings(49_000, NvidiaReading::Absent));
    assert_eq!(out.decisions[0].action, PwmAction::Write(127));
    let out = d.step(&readings(46_000, NvidiaReading::Absent));
    assert_eq!(out.decisions[0].action, PwmAction::Write(107));
}

#[test]
fn unreadable_nvidia_forces_gpu_channels_only() {
    let mut d = running();
    let out = d.step(&readings(40_000, NvidiaReading::Unavailable));
    assert!(!out.critical);
    assert_eq!(out.decisions[0].action, PwmAction::Write(76));
    assert_eq!(out.decisions[1].action, PwmAction::Write(255));
}

#[test]
fn unreadable_nvidia_overrides_yield_on_gpu_channels() {
    let mut d = running();
    d.status_mut().set_override("pwm1", 50);
    d.status_mut().set_override("pwm2", 20);
    let out = d.step(&readings(40_000, NvidiaReading::Unavailable));
    assert!(!out.critical);
    // The CPU channel keeps its override; the GPU channel runs at full speed.
    assert_eq!(out.decisions[0].action, PwmAction::Write(128));
    assert_eq!(out.decisions[1].action, PwmAction::Write(255));
    let out = d.step(&readings(40_000, NvidiaReading::Absent));
    assert_eq!(out.decisions[1].action, PwmAction::Write(51));
}

#[test]
fn nvidia_temperatures_count_for_gpu() {
    let mut d = running();
    let out = d.step(&readings(40_000, NvidiaReading::Active(vec![Some(50), None])));
    assert_eq!(d.status_handle().gpu_temp, Some(50_000));
    assert_eq!(out.decisions[1].action, PwmAction::Write(127));
}

#[test]
fn invalid_config_is_refused() {
    let names = names();
    let mut bad = config();
    bad.curve = vec![CurvePoint { temp: 30_000, duty: 50_000 }, CurvePoint { temp: 50_000, duty: 10_000 }];
    let d = FanDaemon::new(Some(bad), Some(&names));
    assert!(!d.status_handle().config_loaded);
    assert!(!d.load_issues.is_empty());

    let mut d = running();
    let mut bad = config();
    bad.curve = vec![];
    assert!(matches!(d.reload(Some(bad), Some(&names)), Err(ReloadError::Invalid(_))));
    assert_eq!(d.channels.len(), 4);
    assert!(matches!(d.reload(None, Some(&names)), Err(ReloadError::NotLoaded)));
    assert!(d.reload(Some(config()), Some(&names)).is_ok());
}

#[test]
fn shutdown_returns_fans_to_firmware() {
    let d = running();
    assert_eq!(
        d.shutdown_actions(),
        vec![PwmAction::Auto, PwmAction::Auto, PwmAction::Leave, PwmAction::Auto]
    );
}

#[test]
fn lost_source_escalates_to_full() {
    let mut d = running();
    let mut last = PwmAction::Leave;
    for _ in 0..30 {
        let out = d.step(&readings(40_000, NvidiaReading::Absent));
        last = out.decisions[1].action;
    }
    assert_eq!(last, PwmAction::Write(255));
}

#[test]
fn rediscovery_is_due_after_thirty_rounds() {
    let mut d = running();
    for _ in 0..29 {
        d.step(&readings(40_000, NvidiaReading::Absent));
    }
    assert!(!d.needs_discovery());
    d.step(&readings(40_000, NvidiaReading::Absent));
    assert!(d.needs_discovery());
}

#[test]
fn lost_source_holds_duty_written_at_full_speed() {
    let mut d = running();
    // pwm2 follows the GPU, which never reads here; a critical CPU round
    // writes full speed to every channel.
    let out = d.step(&readings(80_000, NvidiaReading::Absent));
    assert_eq!(out.decisions[1].action, PwmAction::Write(255));
    let out = d.step(&readings(40_000, NvidiaReading::Absent));
    assert!(!out.critical);
    assert_eq!(out.decisions[1].action, PwmAction::Write(255));
}

#[test]
fn lost_source_escalates_to_full_speed() {
    let mut d = running();
    for round in 1..30 {
        let out = d.step(&readings(40_000, NvidiaReading::Absent));
        assert_eq!(out.decisions[1].action, PwmAction::Write(38), "round {}", round);
    }
    let out = d.step(&readings(40_000, NvidiaReading::Absent));
    assert_eq!(out.decisions[1].action, PwmAction::Write(255));
}
