use micro_platform::esp::{
    decode_action_batch, encode_action_batch, encode_action_into, validate_region_length,
    write_diagnostic, MicroAction, MicroActionKind, MicroAppId, MicroBacklight, MicroErrorCode,
    MicroEvent, MicroEventKind, MicroFailureReason, MicroResult, MicroState, MicroWifiFailure,
    OsHost,
};
use micro_platform::os::{
    Action, AppId, AppSessionId, Backlight, ConfirmationId, Event as OsEvent, FailureReason,
    WifiFailure, WifiOperationId,
};

#[test]
fn diagnostic_truncation_preserves_utf8_boundaries_and_always_terminates() {
    let cases = [
        (0, "hello", vec![]),
        (1, "hello", vec![0]),
        (6, "hello", b"hello\0".to_vec()),
        (5, "中文", vec![0xE4, 0xB8, 0xAD, 0, 0]),
        (5, "😀x", vec![0xF0, 0x9F, 0x98, 0x80, 0]),
        (4, "😀", vec![0, 0, 0, 0]),
    ];
    for (length, message, expected) in cases {
        let mut buffer = vec![0xAA; length];
        write_diagnostic(&mut buffer, message);
        assert_eq!(buffer, expected);
    }
}

#[test]
fn ffi_region_lengths_reject_isize_and_element_size_overflow_before_slicing() {
    assert_eq!(validate_region_length(0, 1), Ok(()));
    assert_eq!(validate_region_length(isize::MAX as usize, 1), Ok(()));
    assert_eq!(
        validate_region_length(isize::MAX as usize + 1, 1),
        Err(MicroErrorCode::InvalidArgument)
    );
    assert_eq!(
        validate_region_length(isize::MAX as usize, 2),
        Err(MicroErrorCode::InvalidArgument)
    );
    assert_eq!(
        validate_region_length(usize::MAX, usize::MAX),
        Err(MicroErrorCode::InvalidArgument)
    );
}

#[test]
fn os_host_dispatches_through_the_shared_reducer() {
    let mut os = OsHost::new();
    assert_eq!(os.state(), MicroState::EarlyBoot);
    assert_eq!(
        os.dispatch(MicroEvent::from_core(&OsEvent::BootSampled {
            safe_mode: false
        }))
        .unwrap(),
        vec![MicroAction::new(MicroActionKind::InitializeStorage)]
    );
    assert_eq!(
        os.dispatch(MicroEvent::from_core(&OsEvent::StorageInitialized(Ok(()))))
            .unwrap(),
        vec![MicroAction::new(MicroActionKind::ValidateProfile)]
    );
    assert_eq!(os.state(), MicroState::StorageReady);
}

#[test]
fn every_core_event_variant_round_trips_without_losing_payload() {
    let events = vec![
        OsEvent::BootSampled { safe_mode: false },
        OsEvent::BootSampled { safe_mode: true },
        OsEvent::StorageInitialized(Ok(())),
        OsEvent::StorageInitialized(Err(FailureReason::StorageCorrupt)),
        OsEvent::ProfileValidated(Err(FailureReason::InvalidBoardProfile)),
        OsEvent::DisplayInitialized(Err(FailureReason::HardwareUnavailable)),
        OsEvent::SystemUiInitialized(Err(FailureReason::Internal)),
        OsEvent::NetworkConfigLoaded { configured: true },
        OsEvent::SetupSkipped,
        OsEvent::OpenSettings,
        OsEvent::SetBacklight(Backlight::Medium),
        OsEvent::BackPressed,
        OsEvent::HomePressed,
        OsEvent::OpenApp(AppId::Counter),
        OsEvent::AppStarted {
            session: AppSessionId(41),
        },
        OsEvent::AppFailed {
            session: AppSessionId(42),
            reason: FailureReason::AppCrashed,
        },
        OsEvent::RestartApp,
        OsEvent::AppStopped {
            session: AppSessionId(43),
        },
        OsEvent::WifiScanRequested,
        OsEvent::WifiScanCompleted {
            operation: WifiOperationId(51),
        },
        OsEvent::WifiScanFailed {
            operation: WifiOperationId(52),
            reason: WifiFailure::Timeout,
        },
        OsEvent::WifiConnectRequested,
        OsEvent::WifiConnected {
            operation: WifiOperationId(53),
        },
        OsEvent::WifiPersisted {
            operation: WifiOperationId(54),
        },
        OsEvent::WifiFailed {
            operation: WifiOperationId(55),
            reason: WifiFailure::Authentication,
        },
        OsEvent::ReconnectDue {
            reconnect: WifiOperationId(56),
        },
        OsEvent::ReconnectNowRequested,
        OsEvent::ClearNetworkRequested,
        OsEvent::ClearNetworkConfirmed {
            confirmation: ConfirmationId(61),
        },
        OsEvent::ClearNetworkCompleted {
            confirmation: ConfirmationId(62),
            result: Err(FailureReason::Internal),
        },
        OsEvent::FactoryResetRequested,
        OsEvent::FactoryResetConfirmed {
            confirmation: ConfirmationId(63),
        },
        OsEvent::FactoryResetCompleted {
            confirmation: ConfirmationId(64),
            result: Ok(()),
        },
        OsEvent::RebootRequested,
    ];
    for event in events {
        let wire = MicroEvent::from_core(&event);
        assert_eq!(wire.try_into_core().unwrap(), event);
        assert_unused_fields_are_rejected(wire);
    }
}

fn assert_unused_fields_are_rejected(wire: MicroEvent) {
    let mutations: [fn(&mut MicroEvent); 10] = [
        |value| value.result = MicroResult::Success,
        |value| value.failure = MicroFailureReason::Internal,
        |value| value.wifi_failure = MicroWifiFailure::Internal,
        |value| value.app = MicroAppId::Counter,
        |value| value.flag = 2,
        |value| value.after_secs = 1,
        |value| value.reserved = 1,
        |value| value.session_id = 99,
        |value| value.operation_id = 99,
        |value| value.confirmation_id = 99,
    ];
    let allowed = match wire.kind {
        MicroEventKind::BootSampled | MicroEventKind::NetworkConfigLoaded => [
            false, false, false, false, true, false, false, false, false, false,
        ],
        MicroEventKind::StorageInitialized
        | MicroEventKind::ProfileValidated
        | MicroEventKind::DisplayInitialized
        | MicroEventKind::SystemUiInitialized => [
            true, true, false, false, false, false, false, false, false, false,
        ],
        MicroEventKind::OpenApp => [
            false, false, false, true, false, false, false, false, false, false,
        ],
        MicroEventKind::SetBacklight => [
            false, false, false, false, true, false, false, false, false, false,
        ],
        MicroEventKind::AppStarted | MicroEventKind::AppStopped => [
            false, false, false, false, false, false, false, true, false, false,
        ],
        MicroEventKind::AppFailed => [
            false, true, false, false, false, false, false, true, false, false,
        ],
        MicroEventKind::WifiScanCompleted
        | MicroEventKind::WifiConnected
        | MicroEventKind::WifiPersisted
        | MicroEventKind::ReconnectDue => [
            false, false, false, false, false, false, false, false, true, false,
        ],
        MicroEventKind::WifiScanFailed | MicroEventKind::WifiFailed => [
            false, false, true, false, false, false, false, false, true, false,
        ],
        MicroEventKind::ClearNetworkConfirmed | MicroEventKind::FactoryResetConfirmed => [
            false, false, false, false, false, false, false, false, false, true,
        ],
        MicroEventKind::ClearNetworkCompleted | MicroEventKind::FactoryResetCompleted => [
            true, true, false, false, false, false, false, false, false, true,
        ],
        MicroEventKind::SetupSkipped
        | MicroEventKind::OpenSettings
        | MicroEventKind::BackPressed
        | MicroEventKind::HomePressed
        | MicroEventKind::RestartApp
        | MicroEventKind::WifiScanRequested
        | MicroEventKind::WifiConnectRequested
        | MicroEventKind::ReconnectNowRequested
        | MicroEventKind::ClearNetworkRequested
        | MicroEventKind::FactoryResetRequested
        | MicroEventKind::RebootRequested => [false; 10],
    };
    for (index, mutation) in mutations.into_iter().enumerate() {
        if allowed[index] {
            continue;
        }
        let mut candidate = wire;
        mutation(&mut candidate);
        if candidate != wire {
            assert_eq!(
                candidate.try_into_core(),
                Err(MicroErrorCode::InvalidArgument)
            );
        }
    }
}

fn leaves() -> Vec<Action> {
    vec![
        Action::Nothing,
        Action::Rejected,
        Action::EnterSafeMode(FailureReason::SafeModeRequested),
        Action::InitializeStorage,
        Action::ValidateProfile,
        Action::InitializeDisplay,
        Action::InitializeSystemUi,
        Action::LoadNetworkConfig,
        Action::ShowFirstRunSetup,
        Action::ShowLauncher,
        Action::ShowSettings,
        Action::ApplyBacklight(Backlight::Low),
        Action::StartWifiScan {
            operation: WifiOperationId(1),
        },
        Action::ConnectWifi {
            operation: WifiOperationId(2),
        },
        Action::ConnectSavedWifi {
            operation: WifiOperationId(3),
        },
        Action::PersistWifi {
            operation: WifiOperationId(4),
        },
        Action::ClearPendingWifi {
            operation: WifiOperationId(5),
        },
        Action::ScheduleWifiReconnect {
            reconnect: WifiOperationId(6),
            after_secs: 30,
        },
        Action::StartApp {
            app: AppId::Counter,
            session: AppSessionId(7),
        },
        Action::StopApp {
            app: AppId::Counter,
            session: AppSessionId(8),
        },
        Action::ShowAppError {
            app: AppId::Counter,
            session: AppSessionId(9),
            reason: FailureReason::AppCrashed,
        },
        Action::ConfirmClearNetwork {
            confirmation: ConfirmationId(10),
        },
        Action::ClearNetwork {
            confirmation: ConfirmationId(11),
        },
        Action::ConfirmFactoryReset {
            confirmation: ConfirmationId(12),
        },
        Action::FactoryReset {
            confirmation: ConfirmationId(13),
        },
        Action::Reboot,
    ]
}

#[test]
fn every_core_action_variant_and_composite_round_trips_without_losing_payload() {
    let leaves = leaves();
    for action in &leaves {
        assert_eq!(
            decode_action_batch(&encode_action_batch(action)).unwrap(),
            *action
        );
    }
    // Action has no Clone: the composite is built from fresh copies of
    // leaves 11, 16, 19 and 24.
    let mut copies = self::leaves();
    let leaf_24 = copies.remove(24);
    let leaf_19 = copies.remove(19);
    let leaf_16 = copies.remove(16);
    let leaf_11 = copies.remove(11);
    let composite = Action::Actions(vec![
        leaf_11,
        Action::Actions(vec![leaf_16, leaf_19]),
        leaf_24,
    ]);
    assert_eq!(
        decode_action_batch(&encode_action_batch(&composite)).unwrap(),
        composite
    );
}

#[test]
fn insufficient_action_capacity_does_not_advance_the_reducer_or_partially_write() {
    let mut os = OsHost::new();
    let event = MicroEvent::from_core(&OsEvent::BootSampled { safe_mode: false });
    let mut output = [];
    let error = os.dispatch_into(event, &mut output).unwrap_err();
    assert_eq!(error.code, MicroErrorCode::BufferTooSmall);
    assert_eq!(error.required, 1);
    assert_eq!(os.state(), MicroState::EarlyBoot);
    assert_eq!(
        os.dispatch(event).unwrap(),
        vec![MicroAction::new(MicroActionKind::InitializeStorage)]
    );
}

#[test]
fn all_c_abi_discriminants_are_stable_and_exhaustive() {
    assert_eq!(
        [
            MicroErrorCode::Success.code(),
            MicroErrorCode::Mbc.code(),
            MicroErrorCode::Runtime.code(),
            MicroErrorCode::Ui.code(),
            MicroErrorCode::InvalidArgument.code(),
            MicroErrorCode::Panic.code(),
            MicroErrorCode::Stopped.code(),
            MicroErrorCode::BufferTooSmall.code(),
        ],
        [0, 1, 2, 3, 4, 5, 6, 7]
    );
    assert_eq!(
        [
            MicroResult::Unused.code(),
            MicroResult::Success.code(),
            MicroResult::Failure.code(),
        ],
        [0, 1, 2]
    );
    assert_eq!(
        [
            MicroFailureReason::Unused.code(),
            MicroFailureReason::SafeModeRequested.code(),
            MicroFailureReason::StorageCorrupt.code(),
            MicroFailureReason::InvalidBoardProfile.code(),
            MicroFailureReason::HardwareUnavailable.code(),
            MicroFailureReason::AppCrashed.code(),
            MicroFailureReason::Internal.code(),
        ],
        [0, 1, 2, 3, 4, 5, 6]
    );
    assert_eq!(
        [
            MicroWifiFailure::Unused.code(),
            MicroWifiFailure::Authentication.code(),
            MicroWifiFailure::NetworkMissing.code(),
            MicroWifiFailure::Timeout.code(),
            MicroWifiFailure::Internal.code(),
        ],
        [0, 1, 2, 3, 4]
    );
    assert_eq!(
        [MicroAppId::Unused.code(), MicroAppId::Counter.code()],
        [0, 1]
    );
    assert_eq!(
        [
            MicroBacklight::Unused.code(),
            MicroBacklight::Off.code(),
            MicroBacklight::Low.code(),
            MicroBacklight::Medium.code(),
            MicroBacklight::High.code(),
        ],
        [0, 1, 2, 3, 4]
    );
    assert_eq!(
        [
            MicroState::EarlyBoot.code(),
            MicroState::SafeMode.code(),
            MicroState::StorageReady.code(),
            MicroState::BoardProfileValidated.code(),
            MicroState::DisplayReady.code(),
            MicroState::SystemUiReady.code(),
            MicroState::FirstRunSetup.code(),
            MicroState::Launcher.code(),
            MicroState::AppStarting.code(),
            MicroState::AppRunning.code(),
            MicroState::AppStopping.code(),
            MicroState::AppError.code(),
            MicroState::Settings.code(),
        ],
        [0, 1, 2, 3, 4, 5, 6, 7, 8, 9, 10, 11, 12]
    );
    assert_eq!(
        [
            MicroActionKind::Nothing.code(),
            MicroActionKind::Rejected.code(),
            MicroActionKind::Actions.code(),
            MicroActionKind::EnterSafeMode.code(),
            MicroActionKind::InitializeStorage.code(),
            MicroActionKind::ValidateProfile.code(),
            MicroActionKind::InitializeDisplay.code(),
            MicroActionKind::InitializeSystemUi.code(),
            MicroActionKind::LoadNetworkConfig.code(),
            MicroActionKind::ShowFirstRunSetup.code(),
            MicroActionKind::ShowLauncher.code(),
            MicroActionKind::ShowSettings.code(),
            MicroActionKind::StartWifiScan.code(),
            MicroActionKind::ConnectWifi.code(),
            MicroActionKind::ConnectSavedWifi.code(),
            MicroActionKind::PersistWifi.code(),
            MicroActionKind::ClearPendingWifi.code(),
            MicroActionKind::ScheduleWifiReconnect.code(),
            MicroActionKind::StartApp.code(),
            MicroActionKind::StopApp.code(),
            MicroActionKind::ShowAppError.code(),
            MicroActionKind::ConfirmClearNetwork.code(),
            MicroActionKind::ClearNetwork.code(),
            MicroActionKind::ConfirmFactoryReset.code(),
            MicroActionKind::FactoryReset.code(),
            MicroActionKind::Reboot.code(),
            MicroActionKind::ApplyBacklight.code(),
        ],
        [
            0, 1, 2, 3, 4, 5, 6, 7, 8, 9, 10, 11, 12, 13, 14, 15, 16, 17, 18, 19, 20, 21, 22, 23,
            24, 25, 26
        ]
    );
    assert_eq!(
        [
            MicroEventKind::BootSampled.code(),
            MicroEventKind::StorageInitialized.code(),
            MicroEventKind::ProfileValidated.code(),
            MicroEventKind::DisplayInitialized.code(),
            MicroEventKind::SystemUiInitialized.code(),
            MicroEventKind::NetworkConfigLoaded.code(),
            MicroEventKind::SetupSkipped.code(),
            MicroEventKind::OpenSettings.code(),
            MicroEventKind::BackPressed.code(),
            MicroEventKind::HomePressed.code(),
            MicroEventKind::OpenApp.code(),
            MicroEventKind::AppStarted.code(),
            MicroEventKind::AppFailed.code(),
            MicroEventKind::RestartApp.code(),
            MicroEventKind::AppStopped.code(),
            MicroEventKind::WifiScanRequested.code(),
            MicroEventKind::WifiScanCompleted.code(),
            MicroEventKind::WifiScanFailed.code(),
            MicroEventKind::WifiConnectRequested.code(),
            MicroEventKind::WifiConnected.code(),
            MicroEventKind::WifiPersisted.code(),
            MicroEventKind::WifiFailed.code(),
            MicroEventKind::ReconnectDue.code(),
            MicroEventKind::ReconnectNowRequested.code(),
            MicroEventKind::ClearNetworkRequested.code(),
            MicroEventKind::ClearNetworkConfirmed.code(),
            MicroEventKind::ClearNetworkCompleted.code(),
            MicroEventKind::FactoryResetRequested.code(),
            MicroEventKind::FactoryResetConfirmed.code(),
            MicroEventKind::FactoryResetCompleted.code(),
            MicroEventKind::RebootRequested.code(),
            MicroEventKind::SetBacklight.code(),
        ],
        [
            0, 1, 2, 3, 4, 5, 6, 7, 8, 9, 10, 11, 12, 13, 14, 15, 16, 17, 18, 19, 20, 21, 22, 23,
            24, 25, 26, 27, 28, 29, 30, 31
        ]
    );
}

#[test]
fn encode_action_into_writes_only_when_everything_fits() {
    let action = Action::Actions(vec![
        Action::ShowLauncher,
        Action::ConnectSavedWifi {
            operation: WifiOperationId(1),
        },
    ]);
    let filler = MicroAction::new(MicroActionKind::Reboot);
    let mut small = [filler; 2];
    let error = encode_action_into(&action, &mut small).unwrap_err();
    assert_eq!(error.code, MicroErrorCode::BufferTooSmall);
    assert_eq!(error.required, 3);
    assert_eq!(small, [filler; 2]);

    let mut large = [filler; 4];
    assert_eq!(encode_action_into(&action, &mut large), Ok(3));
    assert_eq!(large[0].kind, MicroActionKind::Actions);
    assert_eq!(large[0].child_count, 2);
    assert_eq!(large[1].kind, MicroActionKind::ShowLauncher);
    assert_eq!(large[2].kind, MicroActionKind::ConnectSavedWifi);
    assert_eq!(large[2].operation_id, 1);
    assert_eq!(large[3], filler);
}

#[test]
fn decode_action_batch_refuses_malformed_records() {
    assert_eq!(decode_action_batch(&[]), Err(MicroErrorCode::InvalidArgument));
    let mut header = MicroAction::new(MicroActionKind::Actions);
    header.child_count = 2;
    assert_eq!(
        decode_action_batch(&[header, MicroAction::new(MicroActionKind::Reboot)]),
        Err(MicroErrorCode::InvalidArgument)
    );
    let mut trailing = encode_action_batch(&Action::Reboot);
    trailing.push(MicroAction::new(MicroActionKind::Reboot));
    assert_eq!(
        decode_action_batch(&trailing),
        Err(MicroErrorCode::InvalidArgument)
    );
}

#[test]
fn default_host_starts_at_early_boot() {
    let mut host = OsHost::default();
    assert_eq!(host.state(), MicroState::EarlyBoot);
    assert_eq!(
        host.dispatch(MicroEvent::from_core(&OsEvent::BootSampled { safe_mode: false }))
            .unwrap(),
        vec![MicroAction::new(MicroActionKind::InitializeStorage)]
    );
}

#[test]
fn records_with_uncarried_fields_are_refused() {
    let open = MicroEvent::from_core(&OsEvent::OpenApp(AppId::Counter));
    assert!(open.try_into_core().is_ok());
    let mut with_session = open;
    with_session.session_id = 5;
    assert_eq!(with_session.try_into_core(), Err(MicroErrorCode::InvalidArgument));
    let mut with_delay = open;
    with_delay.after_secs = 1;
    assert_eq!(with_delay.try_into_core(), Err(MicroErrorCode::InvalidArgument));
    let mut with_padding = open;
    with_padding.reserved = 1;
    assert_eq!(with_padding.try_into_core(), Err(MicroErrorCode::InvalidArgument));

    let boot = MicroEvent::from_core(&OsEvent::BootSampled { safe_mode: true });
    let mut with_operation = boot;
    with_operation.operation_id = 3;
    assert_eq!(with_operation.try_into_core(), Err(MicroErrorCode::InvalidArgument));
    let mut with_app = boot;
    with_app.app = MicroAppId::Counter;
    assert_eq!(with_app.try_into_core(), Err(MicroErrorCode::InvalidArgument));
}

#[test]
fn a_short_buffer_is_refused_whole() {
    let action = Action::Actions(vec![
        Action::ShowLauncher,
        Action::ConnectSavedWifi { operation: WifiOperationId(1) },
    ]);
    let mut buffer = [MicroAction::new(MicroActionKind::Nothing); 2];
    let error = encode_action_into(&action, &mut buffer).unwrap_err();
    assert_eq!(error.code, MicroErrorCode::BufferTooSmall);
    assert_eq!(error.required, 3);
    assert_eq!(buffer, [MicroAction::new(MicroActionKind::Nothing); 2]);

    let mut roomy = [MicroAction::new(MicroActionKind::Nothing); 4];
    assert_eq!(encode_action_into(&action, &mut roomy), Ok(3));
    assert_eq!(&roomy[..3], &encode_action_batch(&action)[..]);
    assert_eq!(roomy[3], MicroAction::new(MicroActionKind::Nothing));
}

#[test]
fn nested_batches_lay_children_out_in_order() {
    let inner = || Action::Actions(vec![Action::ShowLauncher, Action::Reboot]);
    let outer = Action::Actions(vec![inner(), Action::ShowSettings]);
    let records = encode_action_batch(&outer);
    assert_eq!(records.len(), 5);
    assert_eq!(records[0].kind, MicroActionKind::Actions);
    assert_eq!(records[0].child_count, 2);
    let mut expected = encode_action_batch(&inner());
    expected.extend(encode_action_batch(&Action::ShowSettings));
    assert_eq!(records[1..].to_vec(), expected);
    assert_eq!(decode_action_batch(&records), Ok(outer));
}
