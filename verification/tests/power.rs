use powercurve::thermal::{FallbackAction, ThermalFallback};
use powercurve::power::{
    initial_profile, pci_runtime_pm_enabled, profile_settings, profile_to_upp_str, retry_delay_ms,
    saved_profile, HoldError, HoldTarget, Profile, ProfileState,
};

#[test]
fn profile_names_on_each_interface() {
    assert_eq!(Profile::Quiet.name(), "Quiet");
    assert_eq!(Profile::Quiet.upp_name(), "power-saver");
    assert_eq!(Profile::from_name("Performance"), Some(Profile::Performance));
    assert_eq!(Profile::from_name("performance"), None);
    assert_eq!(Profile::from_upp_name("power-saver"), Some(Profile::Quiet));
    assert_eq!(Profile::from_upp_name("quiet"), None);
    assert_eq!(Profile::from_cli_name("balanced"), Some(Profile::Balanced));
    assert_eq!(profile_to_upp_str("Quiet"), "power-saver");
    assert_eq!(profile_to_upp_str("Balanced"), "balanced");
    assert_eq!(profile_to_upp_str("Performance"), "performance");
    assert_eq!(profile_to_upp_str(""), "unknown");
}

#[test]
fn state_file_contents() {
    assert_eq!(saved_profile("Quiet\n").as_deref(), Some("Quiet"));
    assert_eq!(saved_profile("  Performance  ").as_deref(), Some("Performance"));
    assert_eq!(saved_profile("Battery"), None);
    assert_eq!(saved_profile(""), None);
    assert_eq!(saved_profile("Quie"), None);
}

#[test]
fn initial_profile_defaults_to_balanced() {
    assert_eq!(initial_profile(Some("Quiet")), Profile::Quiet);
    assert_eq!(initial_profile(Some("Performance")), Profile::Performance);
    assert_eq!(initial_profile(Some("Balanced")), Profile::Balanced);
    assert_eq!(initial_profile(None), Profile::Balanced);
}

#[test]
fn pci_runtime_pm_env() {
    assert!(pci_runtime_pm_enabled(None));
    assert!(pci_runtime_pm_enabled(Some("1")));
    assert!(pci_runtime_pm_enabled(Some("")));
    assert!(!pci_runtime_pm_enabled(Some("0")));
}

#[test]
fn dbus_backoff() {
    assert_eq!(retry_delay_ms(1), Some(500));
    assert_eq!(retry_delay_ms(2), Some(1000));
    assert_eq!(retry_delay_ms(3), Some(2000));
    assert_eq!(retry_delay_ms(4), Some(4000));
    assert_eq!(retry_delay_ms(5), None);
}

#[test]
fn settings_per_profile() {
    let q = profile_settings(Profile::Quiet);
    assert_eq!(q.radeon.power_profile, "low");
    assert_eq!(q.radeon.dpm_state, "battery");
    assert_eq!(q.scsi_policies, ("min_power", "min_power"));
    assert_eq!(q.cpu_max_percent, 50);
    assert!(q.pstate.no_turbo);
    assert_eq!(q.pstate.max_perf_pct, 50);
    let p = profile_settings(Profile::Performance);
    assert_eq!(p.radeon.power_profile, "high");
    assert!(!p.pci_runtime_pm_on);
    assert_eq!(p.scsi_policies.1, "max_performance");
    let b = profile_settings(Profile::Balanced);
    assert!(b.pci_before_pstate);
    assert_eq!(b.pstate.hwp_dynamic_boost, Some(true));
    assert_eq!(b.dirty_max_lost_work, 15);
}

#[test]
fn apply_profile_records_and_reports() {
    let mut st = ProfileState::new();
    assert!(st.needs_switch("Balanced"));
    assert_eq!(st.finish_apply("Balanced", &vec![]), Ok(()));
    assert_eq!(st.power_profile(), "Balanced");
    assert!(!st.needs_switch("Balanced"));
    assert_eq!(st.active_profile(), "balanced");
    let errs = vec!["first".to_string(), "second".to_string()];
    assert_eq!(
        st.finish_apply("Quiet", &errs),
        Err("Errors found when setting profile:\n    - first\n    - second".to_string())
    );
    assert_eq!(st.active_profile(), "power-saver");
}

#[test]
fn holds_choose_power_saver_first() {
    let mut st = ProfileState::new();
    assert_eq!(st.held_profile(), Profile::Balanced);
    let a = st.hold_profile("performance", "game", "steam").unwrap();
    assert_eq!(st.held_profile(), Profile::Performance);
    let b = st.hold_profile("power-saver", "battery low", "upower").unwrap();
    assert_eq!(st.held_profile(), Profile::Quiet);
    assert_ne!(a, b);
    assert_eq!(st.hold_profile("turbo", "x", "y"), Err(HoldError::UnknownProfile));
    assert_eq!(st.active_holds().len(), 2);
    assert!(st.release_profile(b));
    assert_eq!(st.held_profile(), Profile::Performance);
    assert!(!st.release_profile(b));
    assert!(st.release_profile(a));
    assert_eq!(st.held_profile(), Profile::Balanced);
}

#[test]
fn release_undoes_hold() {
    let mut st = ProfileState::new();
    st.hold_profile("balanced", "r1", "app1").unwrap();
    st.hold_profile("performance", "r2", "app2").unwrap();
    let c = st.hold_profile("power-saver", "r3", "app3").unwrap();
    assert_eq!(c, 2);
    assert!(st.release_profile(c));
    let holds = st.active_holds();
    assert_eq!(holds.len(), 2);
    assert_eq!(holds[0].cookie, 0);
    assert_eq!(holds[0].profile, HoldTarget::Balanced);
    assert_eq!(holds[1].cookie, 1);
    assert_eq!(holds[1].reason, "r2");
    assert_eq!(holds[1].application_id, "app2");
    assert_eq!(holds[1].profile.name(), "performance");
}

#[test]
fn saved_profile_reads_back() {
    for p in [Profile::Quiet, Profile::Balanced, Profile::Performance] {
        let saved = saved_profile(p.name()).unwrap();
        assert_eq!(Profile::from_name(&saved), Some(p));
        assert_eq!(initial_profile(Some(&saved)), p);
    }
}

#[test]
fn give_up_message() {
    assert_eq!(
        powercurve::power::dbus_give_up_message("com.example", "name taken"),
        "failed to acquire com.example after 5 attempts, check if another instance is running: name taken"
    );
}

#[test]
fn thermal_fallback_steps_down_and_back() {
    let mut f = ThermalFallback::new();
    assert_eq!(f.on_round(true, false, Some(Profile::Performance), 3), FallbackAction::Stay);
    assert_eq!(f.on_round(true, true, Some(Profile::Performance), 3), FallbackAction::StepDown);
    assert_eq!(f.on_round(true, true, Some(Profile::Quiet), 3), FallbackAction::Stay);
    assert_eq!(f.on_round(true, false, Some(Profile::Quiet), 3), FallbackAction::Stay);
    assert_eq!(f.on_round(true, false, Some(Profile::Quiet), 3), FallbackAction::Stay);
    assert_eq!(f.on_round(true, false, Some(Profile::Quiet), 3), FallbackAction::Restore(Profile::Performance));
    assert_eq!(f.on_round(true, false, Some(Profile::Performance), 3), FallbackAction::Stay);
    let mut off = ThermalFallback::new();
    assert_eq!(off.on_round(false, true, Some(Profile::Balanced), 3), FallbackAction::Stay);
    let mut quiet = ThermalFallback::new();
    assert_eq!(quiet.on_round(true, true, Some(Profile::Quiet), 3), FallbackAction::Stay);
}

#[test]
fn release_returns_to_profile_before_hold() {
    let mut st = ProfileState::new();
    assert!(st.finish_apply("Quiet", &vec![]).is_ok());
    assert_eq!(st.active_profile(), "power-saver");
    let c = st.hold_profile("performance", "launch", "powerprofilectl").unwrap();
    assert_eq!(st.held_profile(), Profile::Performance);
    assert!(st.finish_apply("Performance", &vec![]).is_ok());
    let d = st.hold_profile("balanced", "second", "app").unwrap();
    assert!(st.release_profile(c));
    assert_eq!(st.held_profile(), Profile::Balanced);
    assert!(st.release_profile(d));
    assert_eq!(st.held_profile(), Profile::Quiet);
}
