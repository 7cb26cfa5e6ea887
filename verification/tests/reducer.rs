use micro_platform::os::{
    Action, AppDestination, AppId, AppSessionId, Backlight, ConfirmationId, Event, FailureReason,
    MicroOs, PendingConfirmation, State,
};

fn boot_to_system_ui(os: &mut MicroOs) {
    assert_eq!(os.dispatch(Event::BootSampled { safe_mode: false }), Action::InitializeStorage);
    assert_eq!(os.dispatch(Event::StorageInitialized(Ok(()))), Action::ValidateProfile);
    assert_eq!(os.state(), &State::StorageReady);
    assert_eq!(os.dispatch(Event::ProfileValidated(Ok(()))), Action::InitializeDisplay);
    assert_eq!(os.state(), &State::BoardProfileValidated);
    assert_eq!(os.dispatch(Event::DisplayInitialized(Ok(()))), Action::InitializeSystemUi);
    assert_eq!(os.state(), &State::DisplayReady);
    assert_eq!(os.dispatch(Event::SystemUiInitialized(Ok(()))), Action::LoadNetworkConfig);
    assert_eq!(os.state(), &State::SystemUiReady);
}

fn boot_to_launcher(os: &mut MicroOs) {
    boot_to_system_ui(os);
    assert_eq!(
        os.dispatch(Event::NetworkConfigLoaded { configured: false }),
        Action::ShowFirstRunSetup
    );
    assert_eq!(os.dispatch(Event::SetupSkipped), Action::ShowLauncher);
    assert_eq!(os.state(), &State::Launcher);
}

#[test]
fn unconfigured_boot_runs_first_run_setup_then_the_launcher() {
    let mut os = MicroOs::new();
    assert_eq!(os.state(), &State::EarlyBoot);
    assert!(!os.network_configured());
    boot_to_launcher(&mut os);
}

#[test]
fn safe_boot_enters_safe_mode_and_refuses_apps() {
    let mut os = MicroOs::new();
    assert_eq!(
        os.dispatch(Event::BootSampled { safe_mode: true }),
        Action::EnterSafeMode(FailureReason::SafeModeRequested)
    );
    assert_eq!(os.state(), &State::SafeMode);
    assert_eq!(os.dispatch(Event::OpenApp(AppId::Counter)), Action::Rejected);
    assert_eq!(os.state(), &State::SafeMode);
}

#[test]
fn failed_initialization_enters_safe_mode_with_its_reason() {
    let mut os = MicroOs::new();
    os.dispatch(Event::BootSampled { safe_mode: false });
    assert_eq!(
        os.dispatch(Event::StorageInitialized(Err(FailureReason::StorageCorrupt))),
        Action::EnterSafeMode(FailureReason::StorageCorrupt)
    );
    assert_eq!(os.state(), &State::SafeMode);
}

#[test]
fn events_out_of_order_are_rejected_without_change() {
    let mut os = MicroOs::new();
    assert_eq!(os.dispatch(Event::OpenApp(AppId::Counter)), Action::Rejected);
    assert_eq!(os.dispatch(Event::SetupSkipped), Action::Rejected);
    assert_eq!(os.state(), &State::EarlyBoot);
    os.dispatch(Event::BootSampled { safe_mode: false });
    assert_eq!(os.dispatch(Event::BootSampled { safe_mode: false }), Action::Rejected);
    assert_eq!(os.state(), &State::EarlyBoot);
}

#[test]
fn app_sessions_are_issued_fresh_and_callbacks_must_match() {
    let mut os = MicroOs::new();
    boot_to_launcher(&mut os);
    assert_eq!(
        os.dispatch(Event::OpenApp(AppId::Counter)),
        Action::StartApp { app: AppId::Counter, session: AppSessionId(1) }
    );
    assert_eq!(
        os.state(),
        &State::AppStarting { app: AppId::Counter, session: AppSessionId(1) }
    );
    assert_eq!(
        os.dispatch(Event::AppStarted { session: AppSessionId(2) }),
        Action::Rejected
    );
    os.dispatch(Event::AppStarted { session: AppSessionId(1) });
    assert_eq!(
        os.state(),
        &State::AppRunning { app: AppId::Counter, session: AppSessionId(1) }
    );
    assert_eq!(
        os.dispatch(Event::HomePressed),
        Action::StopApp { app: AppId::Counter, session: AppSessionId(1) }
    );
    assert_eq!(
        os.state(),
        &State::AppStopping {
            app: AppId::Counter,
            session: AppSessionId(1),
            destination: AppDestination::Launcher
        }
    );
    os.dispatch(Event::AppStopped { session: AppSessionId(1) });
    assert_eq!(os.state(), &State::Launcher);
    assert_eq!(
        os.dispatch(Event::OpenApp(AppId::Counter)),
        Action::StartApp { app: AppId::Counter, session: AppSessionId(2) }
    );
}

#[test]
fn backlight_changes_only_on_request() {
    let mut os = MicroOs::new();
    assert_eq!(os.backlight(), &Backlight::High);
    boot_to_launcher(&mut os);
    assert_eq!(os.backlight(), &Backlight::High);
    assert_eq!(
        os.dispatch(Event::SetBacklight(Backlight::Low)),
        Action::ApplyBacklight(Backlight::Low)
    );
    assert_eq!(os.backlight(), &Backlight::Low);
    os.dispatch(Event::OpenSettings);
    assert_eq!(os.backlight(), &Backlight::Low);
}

#[test]
fn clearing_the_network_needs_the_matching_confirmation() {
    let mut os = MicroOs::new();
    boot_to_launcher(&mut os);
    assert_eq!(os.dispatch(Event::OpenSettings), Action::ShowSettings);
    assert_eq!(
        os.dispatch(Event::ClearNetworkRequested),
        Action::ConfirmClearNetwork { confirmation: ConfirmationId(1) }
    );
    assert_eq!(
        os.pending_confirmation(),
        Some(&PendingConfirmation::ClearNetwork(ConfirmationId(1)))
    );
    assert_eq!(
        os.dispatch(Event::ClearNetworkConfirmed { confirmation: ConfirmationId(2) }),
        Action::Rejected
    );
    assert_eq!(
        os.dispatch(Event::FactoryResetConfirmed { confirmation: ConfirmationId(1) }),
        Action::Rejected
    );
    assert_eq!(
        os.dispatch(Event::ClearNetworkConfirmed { confirmation: ConfirmationId(1) }),
        Action::ClearNetwork { confirmation: ConfirmationId(1) }
    );
    assert_eq!(os.dispatch(Event::OpenApp(AppId::Counter)), Action::Rejected);
    assert_eq!(os.dispatch(Event::BackPressed), Action::Rejected);
}

#[test]
fn reconnect_delay_starts_at_one_second() {
    let os = MicroOs::new();
    assert_eq!(os.next_reconnect_delay(), 1);
}

#[test]
fn reboot_is_always_answered() {
    let mut os = MicroOs::new();
    assert_eq!(os.dispatch(Event::RebootRequested), Action::Reboot);
    boot_to_launcher(&mut os);
    assert_eq!(os.dispatch(Event::RebootRequested), Action::Reboot);
}

#[test]
fn default_is_the_fresh_reducer() {
    let os = MicroOs::default();
    assert_eq!(os, MicroOs::new());
    assert_eq!(os.state(), &State::EarlyBoot);
    assert_eq!(os.next_reconnect_delay(), 1);
}
