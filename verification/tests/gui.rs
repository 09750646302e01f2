use powercurve::gui::{
    display_name, has_controllable, override_input_duty, rebuild_fan_channels, DaemonSnapshot, GuiEvent,
    GuiState, StatusNote,
};

fn snapshot() -> DaemonSnapshot {
    DaemonSnapshot {
        profile: "Balanced".into(),
        cpu_temp: 45_000,
        gpu_temp: -1,
        duties: vec![("pwm1".into(), 128), ("pwm2".into(), -1)],
        rpms: vec![("pwm1".into(), 1200)],
        min_duties: vec![("pwm2".into(), 38)],
        overrides: vec![("pwm2".into(), 60)],
        stalled: vec![],
        passthrough: vec!["pwm2".into()],
        config_loaded: true,
        critical: false,
    }
}

#[test]
fn channels_merge_readings() {
    let labels = vec![("pwm1".to_string(), "CPU Fan".to_string())];
    let chans = rebuild_fan_channels(&snapshot(), &labels);
    assert_eq!(chans.len(), 2);
    assert_eq!(chans[0].rpm, 1200);
    assert_eq!(chans[0].min_duty, -1);
    assert_eq!(chans[0].override_pct, None);
    assert!(!chans[0].passthrough);
    assert_eq!(display_name(&chans[0]), "CPU Fan (pwm1)");
    assert_eq!(chans[1].rpm, -1);
    assert_eq!(chans[1].min_duty, 38);
    assert_eq!(chans[1].override_pct, Some(60));
    assert!(chans[1].passthrough);
    assert_eq!(display_name(&chans[1]), "pwm2");
}

#[test]
fn events_update_state() {
    let mut st = GuiState::new(vec![]);
    st.update(GuiEvent::PollUpdate(snapshot()));
    assert!(st.connected);
    assert_eq!(st.profile, "Balanced");
    assert_eq!(st.cpu_temp, Some(45_000));
    assert_eq!(st.gpu_temp, None);
    assert_eq!(st.fan_channels.len(), 2);
    st.update(GuiEvent::StallEvent { channel: "pwm1".into(), duty: 50 });
    assert!(st.fan_channels[0].stalled);
    assert!(!st.fan_channels[1].stalled);
    st.update(GuiEvent::ThermalEvent {
        event_type: "critical".into(),
        temp_millideg: 99_000,
        profile: "Quiet".into(),
    });
    assert!(st.critical);
    assert_eq!(st.profile, "Quiet");
    st.update(GuiEvent::PollError);
    assert!(!st.connected);
    assert_eq!(st.error_message.as_deref(), Some("Cannot reach daemon"));
    st.update(GuiEvent::DaemonConnected);
    assert!(st.connected);
    assert_eq!(st.error_message, None);
    st.update(GuiEvent::CommandError("boom".into()));
    assert_eq!(st.error_message.as_deref(), Some("boom"));
    st.update(GuiEvent::DaemonDisconnected);
    assert_eq!(st.error_message.as_deref(), Some("Daemon not running"));
}

#[test]
fn override_field_and_notes() {
    assert_eq!(override_input_duty("50"), Some(50));
    assert_eq!(override_input_duty("100"), Some(100));
    assert_eq!(override_input_duty("101"), None);
    assert_eq!(override_input_duty(""), None);
    assert_eq!(override_input_duty("x"), None);

    let mut st = GuiState::new(vec![]);
    assert_eq!(st.status_notes(), vec![StatusNote::DaemonOffline]);
    st.update(GuiEvent::PollUpdate(snapshot()));
    assert!(st.status_notes().is_empty());
    assert!(has_controllable(&st.fan_channels));
    st.update(GuiEvent::CommandError("x".into()));
    assert_eq!(st.status_notes(), vec![StatusNote::CommandError]);
}

#[test]
fn override_inputs_kept_per_channel() {
    let mut st = GuiState::new(vec![]);
    assert_eq!(st.override_input("pwm1"), "");
    st.update(GuiEvent::OverrideInputChanged { channel: "pwm1".into(), value: "4".into() });
    st.update(GuiEvent::OverrideInputChanged { channel: "pwm2".into(), value: "70".into() });
    st.update(GuiEvent::OverrideInputChanged { channel: "pwm1".into(), value: "45".into() });
    assert_eq!(st.override_input("pwm1"), "45");
    assert_eq!(st.override_input("pwm2"), "70");
    assert_eq!(st.override_inputs.len(), 2);
}
