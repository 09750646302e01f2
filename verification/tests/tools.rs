use powercurve::client::{
    parse_fan_override, pstate_line, status_line, temperature_line, ChannelReport, FanOverrideError,
    FanOverrideRequest,
};
use powercurve::config_check::{report, Issue};
use powercurve::fan_detect::{
    critical_cpu_temp, generate_config, pick_platform, source_from_label, HwmonDevice, PwmOutput,
};
use powercurve::fan_test::{check_channel, ramp_report, ramp_settings, FanTestError, Ramp, RampStep};
use powercurve::graphics::{classify, pci_slot, PciFunction};
use powercurve::monitor::{profile_notice, thermal_notice};

fn pwm(file: &str, label: &str) -> PwmOutput {
    PwmOutput {
        file: file.into(),
        value: "128".into(),
        max: "255".into(),
        rpm: None,
        label: label.into(),
    }
}

fn device(name: &str, pwms: Vec<PwmOutput>) -> HwmonDevice {
    HwmonDevice { index: "hwmon0".into(), name: name.into(), temps: vec![], pwms }
}

#[test]
fn labels_suggest_sources() {
    assert_eq!(source_from_label("CPU Fan"), "cpu");
    assert_eq!(source_from_label("gpu fan"), "gpu");
    assert_eq!(source_from_label("Chassis"), "all");
    assert_eq!(source_from_label(""), "all");
}

#[test]
fn platform_is_first_pwm_device_that_is_not_a_sensor_driver() {
    let devices = vec![
        device("coretemp", vec![pwm("pwm1", "")]),
        device("nvme", vec![]),
        device("amdgpu", vec![pwm("pwm1", "")]),
        device("nct6775", vec![pwm("pwm1", "")]),
        device("it87", vec![pwm("pwm1", "")]),
    ];
    assert_eq!(pick_platform(&devices), Some(3));
    assert_eq!(pick_platform(&vec![device("k10temp", vec![pwm("pwm1", "")])]), None);
}

#[test]
fn critical_from_throttle_point() {
    assert_eq!(critical_cpu_temp(Some(100_000)), 85);
    assert_eq!(critical_cpu_temp(Some(95_500)), 80);
    assert_eq!(critical_cpu_temp(None), 80);
    assert_eq!(critical_cpu_temp(Some(10_000)), 80);
}

#[test]
fn generated_config_with_labels() {
    let dev = device("nct6775", vec![pwm("pwm1", "CPU Fan"), pwm("pwm2", "")]);
    let text = generate_config(&dev, Some(100_000));
    assert!(text.starts_with("platform = \"nct6775\"\ncritical_cpu_temp = 85\ncritical_gpu_temp = 75\n\n"));
    assert!(text.contains("[[curve]]\ntemp = 30.0\nduty = 10\n\n[[curve]]\ntemp = 36.0\nduty = 12\n"));
    assert!(text.ends_with(
        "temp = 75.0\nduty = 100\n\n# CPU Fan\n[[channels]]\npwm = \"pwm1\"\nsource = \"cpu\"\n\n[[channels]]\npwm = \"pwm2\"\nsource = \"all\"\n"
    ));
    assert_eq!(text.matches("[[curve]]").count(), 12);
}

#[test]
fn generated_config_without_labels() {
    let dev = device("it87", vec![pwm("pwm3", "")]);
    let text = generate_config(&dev, None);
    assert!(text.starts_with("platform = \"it87\"\ncritical_cpu_temp = 80\n"));
    assert!(text.ends_with(
        "[[channels]]\npwm = \"pwm3\"\nsource = \"all\"\n\n# No fan labels found. All channels default to source = \"all\".\n# Adjust sources to \"cpu\" or \"gpu\" based on your fan layout.\n"
    ));
}

#[test]
fn fan_test_settings_are_clamped() {
    let s = ramp_settings(120, 0, 100);
    assert_eq!((s.start, s.step, s.settle_ms), (99, 1, 500));
    let s = ramp_settings(5, 80, 3000);
    assert_eq!((s.start, s.step, s.settle_ms), (5, 50, 3000));
}

#[test]
fn fan_test_ramp_finds_floor() {
    let mut ramp = Ramp::new(ramp_settings(20, 10, 2000));
    assert_eq!(ramp.duty_now(), 20);
    assert_eq!(ramp.observe(Some(0)), RampStep::Next(30));
    assert_eq!(ramp.observe(None), RampStep::Next(40));
    assert_eq!(ramp.observe(Some(350)), RampStep::Floor(Some(40)));
}

#[test]
fn fan_test_ramp_gives_up_past_full() {
    let mut ramp = Ramp::new(ramp_settings(90, 5, 2000));
    assert_eq!(ramp.observe(Some(0)), RampStep::Next(95));
    assert_eq!(ramp.observe(Some(0)), RampStep::Next(100));
    assert_eq!(ramp.observe(Some(0)), RampStep::Floor(None));
}

#[test]
fn fan_test_reports() {
    assert_eq!(
        ramp_report("pwm2", Some(25)),
        vec!["pwm2 spins at 25%".to_string(), "suggested config: min_duty = 25.0".to_string()]
    );
    assert_eq!(ramp_report("pwm2", None)[0], "pwm2: no spin detected up to 100%");
}

#[test]
fn fan_test_channel_checks() {
    let names = vec!["pwm1".to_string(), "pwm2".to_string()];
    let rpms = vec![("pwm1".to_string(), 800), ("pwm2".to_string(), -1)];
    assert!(check_channel("pwm1", &names, &rpms).is_ok());
    let err = check_channel("pwm9", &names, &rpms).unwrap_err();
    assert_eq!(err.message(), "unknown channel 'pwm9', available: pwm1, pwm2");
    let err = check_channel("pwm2", &names, &rpms).unwrap_err();
    assert!(matches!(err, FanTestError::NoTachometer { .. }));
    assert_eq!(
        err.message(),
        "pwm2 has no tachometer (RPM reads -1). Enable stall_detect in fan.toml or check that fan2_input exists in sysfs"
    );
}

#[test]
fn fan_override_arguments() {
    assert_eq!(parse_fan_override("clear"), Ok(FanOverrideRequest::Clear));
    assert_eq!(parse_fan_override("50"), Ok(FanOverrideRequest::Duty(50)));
    assert_eq!(parse_fan_override("100"), Ok(FanOverrideRequest::Duty(100)));
    assert_eq!(parse_fan_override("101"), Err(FanOverrideError::AboveFull));
    assert_eq!(parse_fan_override("300"), Err(FanOverrideError::NotADuty));
    assert_eq!(parse_fan_override("half"), Err(FanOverrideError::NotADuty));
    assert_eq!(FanOverrideError::AboveFull.message(), "duty must be 0-100");
}

#[test]
fn channel_status_lines() {
    let report = ChannelReport {
        overrides: vec![("pwm1".to_string(), 40)],
        floors: vec![("pwm1".to_string(), 38), ("pwm2".to_string(), -1)],
        rpms: vec![("pwm1".to_string(), 900), ("pwm2".to_string(), -1)],
        stalled: vec!["pwm2".to_string()],
        passthrough: vec!["pwm4".to_string()],
    };
    assert_eq!(
        status_line(&report, "pwm1", 102),
        "pwm1: 102/255 (40%) [override 40%] [floor 15%] [900 RPM]"
    );
    assert_eq!(status_line(&report, "pwm2", -1), "pwm2: -- [STALLED]");
    assert_eq!(status_line(&report, "pwm4", 0), "pwm4: [passthrough]");
    assert_eq!(status_line(&report, "pwm3", 255), "pwm3: 255/255 (100%)");
}

#[test]
fn config_check_report() {
    let r = report(&vec![]);
    assert_eq!(r.lines, vec!["config ok".to_string()]);
    assert!(!r.failed);
    let r = report(&vec![Issue::warning("w1".into())]);
    assert_eq!(r.lines, vec!["warning: w1".to_string(), "\n1 warning(s), no errors".to_string()]);
    assert!(!r.failed);
    let r = report(&vec![Issue::error("e1".into()), Issue::warning("w1".into())]);
    assert_eq!(r.lines[0], "error: e1");
    assert_eq!(r.lines[2], "\n1 error(s), 1 warning(s)");
    assert!(r.failed);
}

#[test]
fn monitor_notices() {
    assert_eq!(profile_notice("Quiet"), "Profile switched to Quiet");
    let (s, b) = thermal_notice("fallback_down", "91.2", "Quiet");
    assert_eq!((s, b.as_str()), ("Thermal Fallback", "High temperature (91.2C), downshifted to Quiet"));
    let (s, b) = thermal_notice("fallback_up", "70.0", "Balanced");
    assert_eq!((s, b.as_str()), ("Thermal Recovery", "Temps stable, restored profile to Balanced"));
    let (s, b) = thermal_notice("critical", "99.5", "Quiet");
    assert_eq!((s, b.as_str()), ("Critical Temperature", "Temperature at 99.5C, all fans at max"));
    let (s, b) = thermal_notice("odd", "1.0", "Quiet");
    assert_eq!((s, b.as_str()), ("PowerCurve", "odd: Quiet"));
}

#[test]
fn graphics_by_vendor() {
    assert_eq!(pci_slot("0000:01:00.1"), "0000:01:00");
    assert_eq!(pci_slot("nodot"), "nodot");
    let f = |id: &str, class: u32, vendor: u16| PciFunction { id: id.into(), class, vendor };
    let devs = vec![
        f("0000:00:02.0", 0x030000, 0x8086),
        f("0000:01:00.0", 0x030000, 0x10de),
        f("0000:01:00.1", 0x040300, 0x10de),
        f("0000:02:00.0", 0x038000, 0x1002),
        f("0000:03:00.0", 0x020000, 0x1002),
        f("0000:04:00.0", 0x030000, 0x1a03),
    ];
    let g = classify(&devs);
    assert_eq!(g.intel.len(), 1);
    assert_eq!(g.nvidia.len(), 1);
    assert_eq!(g.nvidia[0].functions, vec!["0000:01:00.0".to_string(), "0000:01:00.1".to_string()]);
    assert_eq!(g.amd.len(), 1);
    assert_eq!(g.other.len(), 1);
}

#[test]
fn profile_cpu_line() {
    assert_eq!(pstate_line(0, 50, true), "CPU: 0% - 50%, No Turbo");
    assert_eq!(pstate_line(10, 100, false), "CPU: 10% - 100%, Turbo");
}

#[test]
fn temperature_lines_in_tenths() {
    assert_eq!(temperature_line("CPU:     ", 45_250), "CPU:     45.3C");
    assert_eq!(temperature_line("GPU:     ", 61_000), "GPU:     61.0C");
    assert_eq!(temperature_line("CPU:     ", 0), "CPU:     0.0C");
    assert_eq!(temperature_line("CPU:     ", 99_949), "CPU:     99.9C");
}
