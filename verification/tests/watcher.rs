use powercurve::watcher::{
    cmdline_spaces, is_pid_dir, process_info,
    compile_rules, evaluate_rules, effective_poll_interval, first_match, ProcessInfo, RuleDef,
    WatchState, WatcherConfig, WatcherError, WatcherSettings,
};

fn rule(name: &str, exe: Option<&str>, cmd: Option<&str>, profile: &str) -> RuleDef {
    RuleDef {
        name: name.into(),
        match_exe: exe.map(String::from),
        match_cmd: cmd.map(String::from),
        profile: profile.into(),
    }
}

#[test]
fn compile_valid_exe_rule() {
    let config = WatcherConfig {
        watcher: WatcherSettings::default(),
        rule: vec![rule("gaming", Some("steam_app_*"), None, "performance")],
    };
    let (_, rules) = compile_rules(config).expect("should compile");
    assert_eq!(rules.len(), 1);
    assert_eq!(rules[0].name, "gaming");
}

#[test]
fn compile_valid_cmd_rule() {
    let config = WatcherConfig {
        watcher: WatcherSettings::default(),
        rule: vec![rule("encoding", None, Some("ffmpeg.*x265"), "performance")],
    };
    let (_, rules) = compile_rules(config).expect("should compile");
    assert_eq!(rules.len(), 1);
}

#[test]
fn reject_both_matchers() {
    let config = WatcherConfig {
        watcher: WatcherSettings::default(),
        rule: vec![rule("bad", Some("foo"), Some("bar"), "balanced")],
    };
    assert!(compile_rules(config).is_err());
}

#[test]
fn reject_no_matcher() {
    let config = WatcherConfig {
        watcher: WatcherSettings::default(),
        rule: vec![rule("bad", None, None, "balanced")],
    };
    assert!(compile_rules(config).is_err());
}

#[test]
fn reject_invalid_profile() {
    let config = WatcherConfig {
        watcher: WatcherSettings::default(),
        rule: vec![rule("bad", Some("foo"), None, "turbo")],
    };
    assert!(compile_rules(config).is_err());
}

#[test]
fn reject_invalid_default_profile() {
    let config = WatcherConfig {
        watcher: WatcherSettings { poll_interval: 5, default_profile: Some("ultra".into()) },
        rule: vec![],
    };
    assert!(compile_rules(config).is_err());
}

#[test]
fn evaluate_first_match_wins() {
    let (_, rules) = compile_rules(WatcherConfig {
        watcher: WatcherSettings::default(),
        rule: vec![
            rule("first", Some("gameA"), None, "performance"),
            rule("second", Some("gameA"), None, "quiet"),
        ],
    })
    .expect("should compile");

    let procs =
        vec![ProcessInfo { exe_name: "gameA".into(), cmdline: "gameA --fullscreen".into() }];

    assert_eq!(evaluate_rules(&rules, &procs), Some("performance"));
}

#[test]
fn evaluate_no_match_returns_none() {
    let (_, rules) = compile_rules(WatcherConfig {
        watcher: WatcherSettings::default(),
        rule: vec![rule("gaming", Some("gameA"), None, "performance")],
    })
    .expect("should compile");

    let procs = vec![ProcessInfo { exe_name: "firefox".into(), cmdline: "firefox".into() }];

    assert_eq!(evaluate_rules(&rules, &procs), None);
}

#[test]
fn evaluate_glob_pattern() {
    let (_, rules) = compile_rules(WatcherConfig {
        watcher: WatcherSettings::default(),
        rule: vec![rule("steam", Some("steam_app_*"), None, "performance")],
    })
    .expect("should compile");

    let procs = vec![ProcessInfo {
        exe_name: "steam_app_123456".into(),
        cmdline: "steam_app_123456".into(),
    }];

    assert_eq!(evaluate_rules(&rules, &procs), Some("performance"));
}

#[test]
fn evaluate_regex_on_cmdline() {
    let (_, rules) = compile_rules(WatcherConfig {
        watcher: WatcherSettings::default(),
        rule: vec![rule("encode", None, Some("ffmpeg.*x265"), "performance")],
    })
    .expect("should compile");

    let procs = vec![ProcessInfo {
        exe_name: "ffmpeg".into(),
        cmdline: "ffmpeg -i input.mkv -c:v libx265 output.mkv".into(),
    }];

    assert_eq!(evaluate_rules(&rules, &procs), Some("performance"));
}

#[test]
fn poll_interval_floor() {
    let settings = WatcherSettings { poll_interval: 0, default_profile: None };
    let clamped = effective_poll_interval(&settings);
    assert_eq!(clamped, 1);
}

#[test]
fn poll_interval_kept_when_positive() {
    let settings = WatcherSettings { poll_interval: 7, default_profile: None };
    assert_eq!(effective_poll_interval(&settings), 7);
    assert_eq!(WatcherSettings::default().poll_interval, 5);
}

#[test]
fn rule_profile_is_lowercased() {
    let (_, rules) = compile_rules(WatcherConfig {
        watcher: WatcherSettings::default(),
        rule: vec![rule("loud", Some("game"), None, "Performance")],
    })
    .expect("should compile");
    assert_eq!(rules[0].profile, "performance");
}

#[test]
fn watcher_error_messages() {
    let err = compile_rules(WatcherConfig {
        watcher: WatcherSettings { poll_interval: 5, default_profile: Some("ultra".into()) },
        rule: vec![],
    })
    .unwrap_err();
    assert_eq!(
        err.message(),
        "invalid default_profile 'ultra', expected one of: quiet, balanced, performance"
    );

    let err = compile_rules(WatcherConfig {
        watcher: WatcherSettings::default(),
        rule: vec![rule("ok", Some("a"), None, "quiet"), rule("bad", Some("foo"), Some("bar"), "quiet")],
    })
    .unwrap_err();
    assert_eq!(err.message(), "rule 'bad': specify match_exe or match_cmd, not both");

    let err = compile_rules(WatcherConfig {
        watcher: WatcherSettings::default(),
        rule: vec![rule("bad", None, None, "quiet")],
    })
    .unwrap_err();
    assert_eq!(err.message(), "rule 'bad': must specify match_exe or match_cmd");

    let err = compile_rules(WatcherConfig {
        watcher: WatcherSettings::default(),
        rule: vec![rule("bad", Some("foo"), None, "turbo")],
    })
    .unwrap_err();
    assert_eq!(
        err.message(),
        "rule 'bad': invalid profile 'turbo', expected one of: quiet, balanced, performance"
    );
}

#[test]
fn invalid_patterns_rejected() {
    let err = compile_rules(WatcherConfig {
        watcher: WatcherSettings::default(),
        rule: vec![rule("g", Some("[abc"), None, "quiet")],
    })
    .unwrap_err();
    assert!(matches!(err, WatcherError::InvalidGlob { .. }));
    assert_eq!(err.message(), "rule 'g': invalid glob '[abc'");
    assert!(err.cause().is_some_and(|c| !c.is_empty()));

    let err = compile_rules(WatcherConfig {
        watcher: WatcherSettings::default(),
        rule: vec![rule("r", None, Some("(unclosed"), "quiet")],
    })
    .unwrap_err();
    assert!(matches!(err, WatcherError::InvalidRegex { .. }));
    assert_eq!(err.message(), "rule 'r': invalid regex '(unclosed'");
    assert!(err.cause().is_some_and(|c| c.contains("unclosed")));
}

#[test]
fn glob_does_not_match_other_names() {
    let (_, rules) = compile_rules(WatcherConfig {
        watcher: WatcherSettings::default(),
        rule: vec![rule("steam", Some("steam_app_*"), None, "performance")],
    })
    .expect("should compile");
    let procs = vec![ProcessInfo { exe_name: "steam".into(), cmdline: "steam_app_1".into() }];
    assert_eq!(evaluate_rules(&rules, &procs), None);
}

#[test]
fn first_match_positions() {
    assert_eq!(first_match(&vec![false, true, true]), Some(1));
    assert_eq!(first_match(&vec![false, false]), None);
    assert_eq!(first_match(&vec![]), None);
}

#[test]
fn watch_state_switches_once() {
    let settings = WatcherSettings { poll_interval: 5, default_profile: Some("Balanced".into()) };
    let mut state = WatchState::new(Some("Balanced"));
    // The default is already set: nothing to do.
    assert_eq!(state.plan(None, &settings), None);
    // A rule matches: switch once.
    assert_eq!(state.plan(Some("performance"), &settings).as_deref(), Some("performance"));
    state.record("performance", true);
    assert_eq!(state.plan(Some("performance"), &settings), None);
    // A failed request is asked again on the next scan.
    assert_eq!(state.plan(None, &settings).as_deref(), Some("balanced"));
    state.record("balanced", false);
    assert_eq!(state.plan(None, &settings).as_deref(), Some("balanced"));
    // Nothing desired: nothing to do.
    let none = WatcherSettings::default();
    assert_eq!(state.plan(None, &none), None);
}

#[test]
fn process_scan_helpers() {
    assert!(is_pid_dir("1234"));
    assert!(!is_pid_dir("self"));
    assert!(!is_pid_dir("12a"));
    assert_eq!(cmdline_spaces(&b"ffmpeg\0-i\0in.mkv\0".to_vec()), b"ffmpeg -i in.mkv ".to_vec());
    let p = process_info("gameA\n", "gameA --fullscreen ");
    assert_eq!(p.exe_name, "gameA");
    assert_eq!(p.cmdline, "gameA --fullscreen");
}
