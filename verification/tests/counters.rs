use micro_platform::os::{
    Action, AppId, AppSessionId, ConfirmationId, Event, LiveWifiState, MicroOs, ProvisioningState, State,
    WifiFailure, WifiOperationId,
};

#[test]
fn confirmation_ids_stop_before_max_without_mutating_state() {
    let mut parts = MicroOs::new().parts();
    parts.state = State::Settings;
    parts.next_confirmation_id = u64::MAX - 1;
    let mut os = MicroOs::from_parts(parts);
    assert_eq!(
        os.dispatch(Event::ClearNetworkRequested),
        Action::ConfirmClearNetwork { confirmation: ConfirmationId(u64::MAX - 1) }
    );
    let mut parts = os.parts();
    parts.pending_confirmation = None;
    let mut os = MicroOs::from_parts(parts);
    let before = os;
    assert_eq!(os.dispatch(Event::ClearNetworkRequested), Action::Rejected);
    assert_eq!(os, before);
}

#[test]
fn wifi_operation_ids_stop_before_max_without_mutating_state() {
    let mut parts = MicroOs::new().parts();
    parts.state = State::FirstRunSetup;
    parts.next_wifi_operation_id = u64::MAX - 1;
    let mut os = MicroOs::from_parts(parts);
    assert_eq!(
        os.dispatch(Event::WifiScanRequested),
        Action::StartWifiScan { operation: WifiOperationId(u64::MAX - 1) }
    );
    let mut parts = os.parts();
    parts.provisioning_state = ProvisioningState::Idle;
    let mut os = MicroOs::from_parts(parts);
    let before = os;
    assert_eq!(os.dispatch(Event::WifiScanRequested), Action::Rejected);
    assert_eq!(os, before);
}

#[test]
fn app_session_ids_stop_before_max_without_mutating_state() {
    let mut parts = MicroOs::new().parts();
    parts.state = State::Launcher;
    parts.next_app_session_id = u64::MAX - 1;
    let mut os = MicroOs::from_parts(parts);
    assert_eq!(
        os.dispatch(Event::OpenApp(AppId::Counter)),
        Action::StartApp { app: AppId::Counter, session: AppSessionId(u64::MAX - 1) }
    );
    let mut parts = os.parts();
    parts.state = State::Launcher;
    let mut os = MicroOs::from_parts(parts);
    let before = os;
    assert_eq!(os.dispatch(Event::OpenApp(AppId::Counter)), Action::Rejected);
    assert_eq!(os, before);
}

#[test]
fn saved_wifi_failure_is_recorded_when_reconnect_id_is_exhausted() {
    let operation = WifiOperationId(41);
    let mut parts = MicroOs::new().parts();
    parts.state = State::Launcher;
    parts.network_configured = true;
    parts.live_wifi_state = LiveWifiState::Connecting(operation);
    parts.next_wifi_operation_id = u64::MAX;
    let mut os = MicroOs::from_parts(parts);
    assert_eq!(os.dispatch(Event::WifiFailed { operation, reason: WifiFailure::Timeout }), Action::Nothing);
    assert_eq!(os.parts().live_wifi_state, LiveWifiState::Disconnected);
    assert_eq!(os.parts().pending_reconnect, None);
}

#[test]
fn replacement_failure_is_recorded_when_reconnect_id_is_exhausted() {
    let operation = WifiOperationId(42);
    let reason = WifiFailure::Authentication;
    let mut parts = MicroOs::new().parts();
    parts.state = State::Settings;
    parts.network_configured = true;
    parts.live_wifi_state = LiveWifiState::Disconnected;
    parts.provisioning_state = ProvisioningState::ConnectingReplacement(operation);
    parts.next_wifi_operation_id = u64::MAX;
    let mut os = MicroOs::from_parts(parts);
    assert_eq!(os.dispatch(Event::WifiFailed { operation, reason }), Action::ClearPendingWifi { operation });
    assert_eq!(os.parts().provisioning_state, ProvisioningState::Failed { operation, reason });
    assert_eq!(os.parts().pending_reconnect, None);
}

#[test]
fn parts_round_trip_through_a_reducer() {
    let mut os = MicroOs::new();
    os.dispatch(Event::BootSampled { safe_mode: false });
    let parts = os.parts();
    assert!(parts.boot_started);
    assert_eq!(MicroOs::from_parts(parts), os);
    assert_eq!(os.next_reconnect_delay(), 1);
}
