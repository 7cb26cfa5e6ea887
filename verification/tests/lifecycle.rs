use micro_platform::os::{
    Action, AppDestination, AppId, ConfirmationId, Event, FailureReason, LiveWifiState, MicroOs,
    ProvisioningState, State, WifiFailure,
};

fn boot_to_system_ui(os: &mut MicroOs) {
    assert_eq!(os.dispatch(Event::BootSampled { safe_mode: false }), Action::InitializeStorage);
    assert_eq!(os.dispatch(Event::StorageInitialized(Ok(()))), Action::ValidateProfile);
    assert_eq!(os.dispatch(Event::ProfileValidated(Ok(()))), Action::InitializeDisplay);
    assert_eq!(os.dispatch(Event::DisplayInitialized(Ok(()))), Action::InitializeSystemUi);
    assert_eq!(os.dispatch(Event::SystemUiInitialized(Ok(()))), Action::LoadNetworkConfig);
    assert_eq!(os.state(), &State::SystemUiReady);
}

#[test]
fn safe_boot_and_each_initialization_failure_enter_safe_mode() {
    let reason = FailureReason::HardwareUnavailable;
    let mut safe = MicroOs::new();
    assert_eq!(
        safe.dispatch(Event::BootSampled { safe_mode: true }),
        Action::EnterSafeMode(FailureReason::SafeModeRequested)
    );
    assert_eq!(safe.state(), &State::SafeMode);
    assert_eq!(
        safe.dispatch(Event::OpenApp(AppId::Counter)),
        Action::Rejected
    );

    let mut storage = MicroOs::new();
    storage.dispatch(Event::BootSampled { safe_mode: false });
    assert_eq!(
        storage.dispatch(Event::StorageInitialized(Err(reason.clone()))),
        Action::EnterSafeMode(reason.clone())
    );

    let mut profile = MicroOs::new();
    profile.dispatch(Event::BootSampled { safe_mode: false });
    profile.dispatch(Event::StorageInitialized(Ok(())));
    assert_eq!(
        profile.dispatch(Event::ProfileValidated(Err(reason.clone()))),
        Action::EnterSafeMode(reason.clone())
    );

    let mut display = MicroOs::new();
    display.dispatch(Event::BootSampled { safe_mode: false });
    display.dispatch(Event::StorageInitialized(Ok(())));
    display.dispatch(Event::ProfileValidated(Ok(())));
    assert_eq!(
        display.dispatch(Event::DisplayInitialized(Err(reason.clone()))),
        Action::EnterSafeMode(reason.clone())
    );

    let mut ui = MicroOs::new();
    ui.dispatch(Event::BootSampled { safe_mode: false });
    ui.dispatch(Event::StorageInitialized(Ok(())));
    ui.dispatch(Event::ProfileValidated(Ok(())));
    ui.dispatch(Event::DisplayInitialized(Ok(())));
    assert_eq!(
        ui.dispatch(Event::SystemUiInitialized(Err(reason.clone()))),
        Action::EnterSafeMode(reason)
    );
}

#[test]
fn wifi_failures_are_distinct_and_reconnect_is_capped_then_reset() {
    let failures = [
        WifiFailure::Authentication,
        WifiFailure::NetworkMissing,
        WifiFailure::Timeout,
        WifiFailure::Internal,
    ];
    let delays = [1, 2, 5, 10, 30, 30];
    let mut os = MicroOs::new();
    boot_to_system_ui(&mut os);
    os.dispatch(Event::NetworkConfigLoaded { configured: false });
    for (index, delay) in delays.into_iter().enumerate() {
        let operation = match os.dispatch(Event::WifiConnectRequested) {
            Action::ConnectWifi { operation } => operation,
            other => panic!("unexpected {other:?}"),
        };
        let failure = failures[index.min(failures.len() - 1)];
        match os.dispatch(Event::WifiFailed { operation, reason: failure }) {
            Action::Actions(actions) => {
                assert_eq!(actions.len(), 2);
                assert_eq!(actions[0], Action::ClearPendingWifi { operation });
                assert!(matches!(
                    actions[1],
                    Action::ScheduleWifiReconnect { after_secs, .. } if after_secs == delay
                ));
            }
            other => panic!("unexpected {other:?}"),
        }
        assert_eq!(
            os.provisioning_state(),
            &ProvisioningState::Failed { operation, reason: failure }
        );
        assert!(!os.network_configured());
    }
    let operation = match os.dispatch(Event::WifiConnectRequested) {
        Action::ConnectWifi { operation } => operation,
        other => panic!("unexpected {other:?}"),
    };
    os.dispatch(Event::WifiConnected { operation });
    assert_eq!(os.next_reconnect_delay(), 1);
}

fn boot_to_launcher(os: &mut MicroOs) {
    boot_to_system_ui(os);
    match os.dispatch(Event::NetworkConfigLoaded { configured: true }) {
        Action::Actions(actions) => {
            assert_eq!(actions[0], Action::ShowLauncher);
            match actions[1] {
                Action::ConnectSavedWifi { operation } => {
                    assert_eq!(os.dispatch(Event::WifiConnected { operation }), Action::Nothing);
                }
                ref other => panic!("unexpected {other:?}"),
            }
        }
        other => panic!("unexpected {other:?}"),
    }
    assert_eq!(os.state(), &State::Launcher);
}

#[test]
fn normal_boot_selects_first_run_or_launcher_after_all_completions() {
    let mut first_run = MicroOs::new();
    boot_to_system_ui(&mut first_run);
    assert_eq!(
        first_run.dispatch(Event::NetworkConfigLoaded { configured: false }),
        Action::ShowFirstRunSetup
    );
    assert_eq!(first_run.state(), &State::FirstRunSetup);
    assert_eq!(first_run.dispatch(Event::SetupSkipped), Action::ShowLauncher);
    assert_eq!(first_run.state(), &State::Launcher);

    let mut configured = MicroOs::new();
    boot_to_launcher(&mut configured);
}

#[test]
fn settings_navigation_and_invalid_events_are_deterministic() {
    let mut os = MicroOs::new();
    let before = *os.state();
    assert_eq!(os.dispatch(Event::OpenApp(AppId::Counter)), Action::Rejected);
    assert_eq!(os.state(), &before);
    boot_to_launcher(&mut os);
    assert_eq!(os.dispatch(Event::OpenSettings), Action::ShowSettings);
    assert_eq!(os.state(), &State::Settings);
    assert_eq!(os.dispatch(Event::BackPressed), Action::ShowLauncher);
    assert_eq!(os.state(), &State::Launcher);
    os.dispatch(Event::OpenSettings);
    assert_eq!(os.dispatch(Event::HomePressed), Action::ShowLauncher);
}

#[test]
fn wifi_scan_is_limited_to_setup_and_settings() {
    let mut os = MicroOs::new();
    boot_to_launcher(&mut os);
    assert_eq!(os.dispatch(Event::WifiScanRequested), Action::Rejected);
    os.dispatch(Event::OpenSettings);
    assert!(matches!(
        os.dispatch(Event::WifiScanRequested),
        Action::StartWifiScan { .. }
    ));
}

#[test]
fn app_start_stop_waits_for_teardown_and_can_repeat_freshly() {
    let mut os = MicroOs::new();
    boot_to_launcher(&mut os);
    let mut sessions = Vec::new();
    for event in [Event::HomePressed, Event::BackPressed] {
        let session = match os.dispatch(Event::OpenApp(AppId::Counter)) {
            Action::StartApp { app: AppId::Counter, session } => session,
            other => panic!("unexpected {other:?}"),
        };
        assert!(!sessions.contains(&session));
        sessions.push(session);
        assert_eq!(os.state(), &State::AppStarting { app: AppId::Counter, session });
        assert_eq!(os.dispatch(Event::AppStarted { session }), Action::Nothing);
        assert_eq!(os.state(), &State::AppRunning { app: AppId::Counter, session });
        assert_eq!(os.dispatch(event), Action::StopApp { app: AppId::Counter, session });
        assert_eq!(
            os.state(),
            &State::AppStopping { app: AppId::Counter, session, destination: AppDestination::Launcher }
        );
        assert_eq!(os.dispatch(Event::OpenApp(AppId::Counter)), Action::Rejected);
        assert_eq!(os.dispatch(Event::AppStopped { session }), Action::ShowLauncher);
        assert_eq!(os.state(), &State::Launcher);
    }
}

#[test]
fn counter_failure_uses_trusted_error_ui_and_recovers() {
    let mut os = MicroOs::new();
    boot_to_launcher(&mut os);
    let session = match os.dispatch(Event::OpenApp(AppId::Counter)) {
        Action::StartApp { session, .. } => session,
        other => panic!("unexpected {other:?}"),
    };
    let reason = FailureReason::AppCrashed;
    assert_eq!(
        os.dispatch(Event::AppFailed { session, reason }),
        Action::ShowAppError { app: AppId::Counter, session, reason }
    );
    assert_eq!(os.state(), &State::AppError { app: AppId::Counter, session, reason });
    let restarted = match os.dispatch(Event::RestartApp) {
        Action::StartApp { app: AppId::Counter, session } => session,
        other => panic!("unexpected {other:?}"),
    };
    assert_eq!(os.state(), &State::AppStarting { app: AppId::Counter, session: restarted });
    os.dispatch(Event::AppStarted { session: restarted });
    assert_eq!(os.state(), &State::AppRunning { app: AppId::Counter, session: restarted });
    assert_eq!(
        os.dispatch(Event::AppFailed { session: restarted, reason }),
        Action::ShowAppError { app: AppId::Counter, session: restarted, reason }
    );
    assert_eq!(os.dispatch(Event::HomePressed), Action::ShowLauncher);
    assert_eq!(os.state(), &State::Launcher);
}

#[test]
fn wifi_is_saved_before_first_run_completes() {
    let mut os = MicroOs::new();
    boot_to_system_ui(&mut os);
    os.dispatch(Event::NetworkConfigLoaded { configured: false });
    let scan = match os.dispatch(Event::WifiScanRequested) {
        Action::StartWifiScan { operation } => operation,
        other => panic!("unexpected {other:?}"),
    };
    assert_eq!(os.provisioning_state(), &ProvisioningState::Scanning(scan));
    assert_eq!(os.dispatch(Event::WifiScanCompleted { operation: scan }), Action::Nothing);
    let operation = match os.dispatch(Event::WifiConnectRequested) {
        Action::ConnectWifi { operation } => operation,
        other => panic!("unexpected {other:?}"),
    };
    assert_eq!(os.provisioning_state(), &ProvisioningState::ConnectingReplacement(operation));
    assert_eq!(os.dispatch(Event::WifiConnected { operation }), Action::PersistWifi { operation });
    assert_eq!(os.provisioning_state(), &ProvisioningState::Persisting(operation));
    assert_eq!(os.state(), &State::FirstRunSetup);
    assert!(!os.network_configured());
    assert_eq!(os.dispatch(Event::WifiPersisted { operation }), Action::ShowLauncher);
    assert!(os.network_configured());
    assert_eq!(os.live_wifi_state(), &LiveWifiState::Connected);
    assert_eq!(os.state(), &State::Launcher);
}

#[test]
fn failed_replacement_wifi_keeps_the_active_saved_network() {
    let mut os = MicroOs::new();
    boot_to_launcher(&mut os);
    os.dispatch(Event::OpenSettings);
    let scan = match os.dispatch(Event::WifiScanRequested) {
        Action::StartWifiScan { operation } => operation,
        other => panic!("unexpected {other:?}"),
    };
    os.dispatch(Event::WifiScanCompleted { operation: scan });
    let operation = match os.dispatch(Event::WifiConnectRequested) {
        Action::ConnectWifi { operation } => operation,
        other => panic!("unexpected {other:?}"),
    };
    assert_eq!(
        os.dispatch(Event::WifiFailed { operation, reason: WifiFailure::Authentication }),
        Action::ClearPendingWifi { operation }
    );
    assert_eq!(os.state(), &State::Settings);
    assert!(os.network_configured());
    assert_eq!(os.live_wifi_state(), &LiveWifiState::Connected);
}

#[test]
fn destructive_actions_require_matching_confirmation() {
    let mut os = MicroOs::new();
    boot_to_launcher(&mut os);
    os.dispatch(Event::OpenSettings);
    let before_invalid_confirmation = os;
    let stale = ConfirmationId(99);
    assert_eq!(os.dispatch(Event::ClearNetworkConfirmed { confirmation: stale }), Action::Rejected);
    assert_eq!(os.dispatch(Event::FactoryResetConfirmed { confirmation: stale }), Action::Rejected);
    assert_eq!(os, before_invalid_confirmation);
    let clear = match os.dispatch(Event::ClearNetworkRequested) {
        Action::ConfirmClearNetwork { confirmation } => confirmation,
        other => panic!("unexpected {other:?}"),
    };
    assert_eq!(os.dispatch(Event::FactoryResetConfirmed { confirmation: clear }), Action::Rejected);
    assert_eq!(
        os.dispatch(Event::ClearNetworkConfirmed { confirmation: clear }),
        Action::ClearNetwork { confirmation: clear }
    );
    assert_eq!(
        os.dispatch(Event::ClearNetworkCompleted { confirmation: clear, result: Ok(()) }),
        Action::ShowFirstRunSetup
    );
    assert!(!os.network_configured());

    let mut os = MicroOs::new();
    boot_to_launcher(&mut os);
    os.dispatch(Event::OpenSettings);
    let reset = match os.dispatch(Event::FactoryResetRequested) {
        Action::ConfirmFactoryReset { confirmation } => confirmation,
        other => panic!("unexpected {other:?}"),
    };
    assert_eq!(
        os.dispatch(Event::FactoryResetConfirmed { confirmation: reset }),
        Action::FactoryReset { confirmation: reset }
    );
    assert_eq!(os.dispatch(Event::RebootRequested), Action::Reboot);
}
