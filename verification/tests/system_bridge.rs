use micro_platform::system::{SystemIntent, SystemShell};

#[test]
fn system_intent_parser_has_a_closed_public_surface() {
    assert_eq!(SystemIntent::parse("open-counter"), Some(SystemIntent::OpenCounter));
    assert_eq!(SystemIntent::parse("erase-everything"), None);
}

#[test]
fn configured_boot_reaches_connected_launcher_and_records_actions() {
    let shell = SystemShell::configured_boot();
    let snapshot = shell.snapshot();

    assert_eq!(snapshot.screen, "Launcher");
    assert_eq!(snapshot.wifi, "Connected");
    assert_eq!(snapshot.backlight, "High");
    assert!(snapshot
        .actions
        .iter()
        .any(|action| action.contains("ConnectSavedWifi")));
}

#[test]
fn counter_start_and_stop_use_the_reducer_session() {
    let mut shell = SystemShell::configured_boot();

    let starting = shell.dispatch(SystemIntent::OpenCounter);
    assert_eq!(starting.screen, "AppStarting(Counter, 1)");
    assert_eq!(starting.counter_session, Some(1));

    let running = shell.dispatch(SystemIntent::CounterStarted);
    assert_eq!(running.screen, "AppRunning(Counter, 1)");

    let stopping = shell.dispatch(SystemIntent::Back);
    assert_eq!(stopping.screen, "AppStopping(Counter, 1)");

    assert_eq!(
        shell.dispatch(SystemIntent::CounterStopped).screen,
        "Launcher"
    );
}

#[test]
fn system_shell_delegates_backlight_to_the_os_reducer() {
    let mut shell = SystemShell::configured_boot();

    let snapshot = shell.dispatch(SystemIntent::ToggleBacklight);
    assert_eq!(snapshot.backlight, "Off");
    assert_eq!(snapshot.last_action, "ApplyBacklight(Off)");
}

#[test]
fn every_intent_name_parses_to_its_intent() {
    let names = [
        ("open-counter", SystemIntent::OpenCounter),
        ("counter-started", SystemIntent::CounterStarted),
        ("counter-stopped", SystemIntent::CounterStopped),
        ("open-settings", SystemIntent::OpenSettings),
        ("back", SystemIntent::Back),
        ("wifi-scan", SystemIntent::WifiScan),
        ("wifi-connect", SystemIntent::WifiConnect),
        ("wifi-connected", SystemIntent::WifiConnected),
        ("wifi-persisted", SystemIntent::WifiPersisted),
        ("safe-mode", SystemIntent::SafeMode),
        ("backlight-toggle", SystemIntent::ToggleBacklight),
    ];
    for (name, intent) in names {
        assert_eq!(SystemIntent::parse(name), Some(intent));
    }
    assert_eq!(SystemIntent::parse(""), None);
    assert_eq!(SystemIntent::parse("Back"), None);
}

#[test]
fn configured_boot_records_every_reply_in_order() {
    let snapshot = SystemShell::configured_boot().snapshot();
    assert_eq!(
        snapshot.actions,
        vec![
            "InitializeStorage",
            "ValidateProfile",
            "InitializeDisplay",
            "InitializeSystemUi",
            "LoadNetworkConfig",
            "Actions([ShowLauncher, ConnectSavedWifi { operation: WifiOperationId(1) }])",
            "None",
        ]
    );
    assert_eq!(snapshot.last_action, "None");
    assert_eq!(snapshot.counter_session, None);
}

#[test]
fn callbacks_without_work_in_flight_are_rejected() {
    let mut shell = SystemShell::configured_boot();
    let snapshot = shell.dispatch(SystemIntent::CounterStarted);
    assert_eq!(snapshot.last_action, "Rejected");
    let snapshot = shell.dispatch(SystemIntent::WifiPersisted);
    assert_eq!(snapshot.last_action, "Rejected");
    assert_eq!(snapshot.screen, "Launcher");
}

#[test]
fn action_log_keeps_only_the_newest_entries() {
    let mut shell = SystemShell::configured_boot();
    for _ in 0..40 {
        shell.dispatch(SystemIntent::ToggleBacklight);
    }
    let snapshot = shell.snapshot();
    assert_eq!(snapshot.actions.len(), 24);
    assert_eq!(snapshot.actions.last().unwrap(), &snapshot.last_action);
    assert_eq!(snapshot.backlight, "High");
    assert_eq!(snapshot.last_action, "ApplyBacklight(High)");
}

#[test]
fn safe_mode_restarts_the_reducer() {
    let mut shell = SystemShell::configured_boot();
    shell.dispatch(SystemIntent::OpenCounter);
    let snapshot = shell.dispatch(SystemIntent::SafeMode);
    assert_eq!(snapshot.screen, "SafeMode");
    assert_eq!(snapshot.wifi, "Disconnected");
    assert_eq!(snapshot.counter_session, None);
    assert_eq!(snapshot.last_action, "EnterSafeMode(SafeModeRequested)");
}

#[test]
fn settings_scan_tracks_the_scan_operation() {
    let mut shell = SystemShell::configured_boot();
    let settings = shell.dispatch(SystemIntent::OpenSettings);
    assert_eq!(settings.screen, "Settings");
    let scanned = shell.dispatch(SystemIntent::WifiScan);
    assert!(scanned
        .actions
        .iter()
        .any(|action| action == "StartWifiScan { operation: WifiOperationId(2) }"));
    let back = shell.dispatch(SystemIntent::Back);
    assert_eq!(back.screen, "Launcher");
}

#[test]
fn the_log_shows_the_newest_actions() {
    let mut shell = SystemShell::configured_boot();
    let mut history = shell.snapshot().actions;
    for _ in 0..30 {
        let snapshot = shell.dispatch(SystemIntent::ToggleBacklight);
        history.push(snapshot.last_action.clone());
        let keep = history.len().min(24);
        assert_eq!(snapshot.actions, history[history.len() - keep..].to_vec());
        assert_eq!(snapshot.actions.last(), Some(&snapshot.last_action));
    }
    assert_eq!(shell.snapshot().actions.len(), 24);
}
