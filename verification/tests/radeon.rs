use powercurve::errors::{PciDeviceError, ProfileError, ScsiHostError};
use powercurve::radeon::{
    card_index, device_path, drm_card_indices, is_amd_vendor, parameter_paths, vendor_id,
    RadeonDevice,
};

#[test]
fn vendor_ids() {
    assert_eq!(vendor_id("0x1002\n"), Some(0x1002));
    assert_eq!(vendor_id("0X10DE"), Some(0x10de));
    assert_eq!(vendor_id("  8086 "), Some(0x8086));
    assert_eq!(vendor_id("0x0x1002"), Some(0x1002));
    assert_eq!(vendor_id("0x"), None);
    assert_eq!(vendor_id("0x10000"), None);
    assert_eq!(vendor_id("zz"), None);
    assert!(is_amd_vendor(Some("0x1002\n")));
    assert!(!is_amd_vendor(Some("0x10de\n")));
    assert!(!is_amd_vendor(None));
}

#[test]
fn card_entries() {
    assert_eq!(card_index("card0"), Some(0));
    assert_eq!(card_index("card12"), Some(12));
    assert_eq!(card_index("card0-DP-1"), None);
    assert_eq!(card_index("renderD128"), None);
    assert_eq!(card_index("card256"), None);
    assert_eq!(card_index("card"), None);
    let names: Vec<String> =
        ["card1", "card0-HDMI-A-1", "version", "card0", "card10"].iter().map(|s| s.to_string()).collect();
    assert_eq!(drm_card_indices(&names), vec![0, 1, 10]);
}

#[test]
fn radeon_device_paths_and_writes() {
    assert_eq!(device_path(1), "/sys/class/drm/card1/device");
    let paths = parameter_paths(0);
    assert_eq!(paths[0], "/sys/class/drm/card0/device/power_dpm_state");
    assert_eq!(paths[3], "/sys/class/drm/card0/device/power_profile");
    assert!(RadeonDevice::new(0, Some("0x10de"), true).is_none());
    assert!(RadeonDevice::new(0, Some("0x1002"), false).is_none());
    let dev = RadeonDevice::new(2, Some("0x1002\n"), true).unwrap();
    assert_eq!(dev.card_index(), 2);
    let writes = dev.set_profiles("low", "battery", "low");
    assert_eq!(
        writes,
        vec![
            ("/sys/class/drm/card2/device/power_dpm_state".to_string(), "battery".to_string()),
            (
                "/sys/class/drm/card2/device/power_dpm_force_performance_level".to_string(),
                "low".to_string()
            ),
            ("/sys/class/drm/card2/device/power_method".to_string(), "profile".to_string()),
            ("/sys/class/drm/card2/device/power_profile".to_string(), "low".to_string()),
        ]
    );
}

#[test]
fn hardware_error_messages() {
    let e = PciDeviceError::SetRuntimePm(
        "0000:00:02.0".into(),
        std::io::Error::new(std::io::ErrorKind::Other, "denied"),
    );
    assert_eq!(e.message(), "failed to set PCI device runtime PM on 0000:00:02.0: denied");
    let e = ScsiHostError::LinkTimePolicy(
        "min_power",
        "host0".into(),
        std::io::Error::new(std::io::ErrorKind::Other, "busy"),
    );
    assert_eq!(e.message(), "failed to set link time power management policy min_power on host0: busy");
    let e = ProfileError::ScsiHost(e);
    assert_eq!(
        e.message(),
        "failed to set scsi host profiles: failed to set link time power management policy min_power on host0: busy"
    );
}

#[test]
fn pstate_error_message() {
    let e = ProfileError::PState(intel_pstate::PStateError::NotFound);
    assert_eq!(e.message(), "failed to set pstate profiles: intel_pstate directory not found");
}
