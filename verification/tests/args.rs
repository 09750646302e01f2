use powercurve::args::{Args, ArgsError};

#[test]
fn parse_daemon() {
    let args = Args::parse_from(&["powercurve", "daemon"]);
    assert!(matches!(args, Args::Daemon { quiet: false, verbose: false }));
}

#[test]
fn parse_daemon_verbose() {
    let args = Args::parse_from(&["powercurve", "daemon", "--verbose"]);
    assert!(matches!(args, Args::Daemon { verbose: true, .. }));
}

#[test]
fn parse_profile_set() {
    let args = Args::parse_from(&["powercurve", "profile", "balanced"]);
    match args {
        Args::Profile { profile } => assert_eq!(profile.as_deref(), Some("balanced")),
        _ => panic!("expected Profile variant"),
    }
}

#[test]
fn parse_profile_query() {
    let args = Args::parse_from(&["powercurve", "profile"]);
    match args {
        Args::Profile { profile } => assert!(profile.is_none()),
        _ => panic!("expected Profile variant"),
    }
}

#[test]
fn parse_status() {
    let args = Args::parse_from(&["powercurve", "status"]);
    assert!(matches!(args, Args::Status));
}

#[test]
fn parse_config() {
    let args = Args::parse_from(&["powercurve", "config"]);
    assert!(matches!(args, Args::Config));
}

#[test]
fn parse_monitor() {
    let args = Args::parse_from(&["powercurve", "monitor"]);
    assert!(matches!(args, Args::Monitor));
}

#[test]
fn parse_fan_detect() {
    let args = Args::parse_from(&["powercurve", "fan-detect"]);
    assert!(matches!(args, Args::FanDetect { generate: false }));
}

#[test]
fn parse_fan_detect_generate() {
    let args = Args::parse_from(&["powercurve", "fan-detect", "--generate"]);
    assert!(matches!(args, Args::FanDetect { generate: true }));
}

#[test]
fn parse_watch() {
    let args = Args::parse_from(&["powercurve", "watch"]);
    assert!(matches!(args, Args::Watch));
}

#[test]
fn parse_version() {
    let args = Args::parse_from(&["powercurve", "version"]);
    assert!(matches!(args, Args::Version));
}

#[test]
fn parse_fan_override() {
    let args = Args::parse_from(&["powercurve", "fan", "pwm3", "50"]);
    match args {
        Args::Fan { channel, duty } => {
            assert_eq!(channel, "pwm3");
            assert_eq!(duty, "50");
        }
        _ => panic!("expected Fan variant"),
    }
}

#[test]
fn parse_fan_clear() {
    let args = Args::parse_from(&["powercurve", "fan", "pwm3", "clear"]);
    match args {
        Args::Fan { channel, duty } => {
            assert_eq!(channel, "pwm3");
            assert_eq!(duty, "clear");
        }
        _ => panic!("expected Fan variant"),
    }
}

#[test]
fn parse_fan_test() {
    let args = Args::parse_from(&["powercurve", "fan-test", "pwm1"]);
    match args {
        Args::FanTest { channel, step, start, settle } => {
            assert_eq!(channel, "pwm1");
            assert_eq!(step, 5);
            assert_eq!(start, 5);
            assert_eq!(settle, 2000);
        }
        _ => panic!("expected FanTest variant"),
    }
}

#[test]
fn parse_fan_test_options() {
    let args = Args::parse_from(&[
        "powercurve",
        "fan-test",
        "pwm3",
        "--step",
        "3",
        "--start",
        "10",
        "--settle",
        "3000",
    ]);
    match args {
        Args::FanTest { channel, step, start, settle } => {
            assert_eq!(channel, "pwm3");
            assert_eq!(step, 3);
            assert_eq!(start, 10);
            assert_eq!(settle, 3000);
        }
        _ => panic!("expected FanTest variant"),
    }
}

#[test]
fn invalid_profile_rejected() {
    let result = Args::try_parse_from(&["powercurve", "profile", "turbo"]);
    assert!(result.is_err());
}

#[test]
fn daemon_quiet_and_verbose_conflict() {
    let result = Args::try_parse_from(&["powercurve", "daemon", "-q", "-v"]);
    assert_eq!(result.err(), Some(ArgsError::Conflict));
    let result = Args::try_parse_from(&["powercurve", "daemon", "--quiet", "--quiet"]);
    assert_eq!(result.err(), Some(ArgsError::Conflict));
}

#[test]
fn daemon_short_quiet() {
    let args = Args::parse_from(&["powercurve", "daemon", "-q"]);
    assert!(matches!(args, Args::Daemon { quiet: true, verbose: false }));
}

#[test]
fn no_command_asks_for_help() {
    assert_eq!(Args::try_parse_from(&["powercurve"]).err(), Some(ArgsError::DisplayHelp));
    assert_eq!(Args::try_parse_from(&["powercurve", "--help"]).err(), Some(ArgsError::DisplayHelp));
    assert_eq!(Args::try_parse_from(&["powercurve", "help", "fan"]).err(), Some(ArgsError::DisplayHelp));
    assert_eq!(Args::try_parse_from(&["powercurve", "fan", "-h"]).err(), Some(ArgsError::DisplayHelp));
}

#[test]
fn version_flag() {
    assert_eq!(Args::try_parse_from(&["powercurve", "-V"]).err(), Some(ArgsError::DisplayVersion));
    assert_eq!(
        Args::try_parse_from(&["powercurve", "--version"]).err(),
        Some(ArgsError::DisplayVersion)
    );
}

#[test]
fn unknown_command_rejected() {
    assert_eq!(Args::try_parse_from(&["powercurve", "turbo"]).err(), Some(ArgsError::Unrecognized));
    assert_eq!(
        Args::try_parse_from(&["powercurve", "status", "extra"]).err(),
        Some(ArgsError::Unrecognized)
    );
}

#[test]
fn fan_needs_both_arguments() {
    assert_eq!(
        Args::try_parse_from(&["powercurve", "fan", "pwm3"]).err(),
        Some(ArgsError::MissingArgument)
    );
    assert_eq!(
        Args::try_parse_from(&["powercurve", "fan-test"]).err(),
        Some(ArgsError::MissingArgument)
    );
}

#[test]
fn fan_test_inline_values() {
    let args = Args::parse_from(&["powercurve", "fan-test", "--settle=500", "pwm2", "--step=+7"]);
    match args {
        Args::FanTest { channel, step, start, settle } => {
            assert_eq!(channel, "pwm2");
            assert_eq!(step, 7);
            assert_eq!(start, 5);
            assert_eq!(settle, 500);
        }
        _ => panic!("expected FanTest variant"),
    }
}

#[test]
fn fan_test_bad_values() {
    assert_eq!(
        Args::try_parse_from(&["powercurve", "fan-test", "pwm1", "--step", "256"]).err(),
        Some(ArgsError::InvalidValue)
    );
    assert_eq!(
        Args::try_parse_from(&["powercurve", "fan-test", "pwm1", "--start"]).err(),
        Some(ArgsError::MissingValue)
    );
    assert_eq!(
        Args::try_parse_from(&["powercurve", "fan-test", "pwm1", "--step", "--start", "3"]).err(),
        Some(ArgsError::MissingValue)
    );
    assert_eq!(
        Args::try_parse_from(&["powercurve", "fan-test", "pwm1", "--step", "2", "--step=3"]).err(),
        Some(ArgsError::Conflict)
    );
}
