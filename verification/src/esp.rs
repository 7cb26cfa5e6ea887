//! The fixed-layout wire records that carry OS reducer events and actions
//! across the ESP32 C boundary, and the host-side ownership of the reducer.
use vstd::prelude::*;
use vstd::string::{StringExecFns, StringSliceAdditionalSpecFns};
use crate::codec::{decode_fault_text, DecodeError};
use crate::os::{
    Action, ActionTree, AppId, AppSessionId, Backlight, ConfirmationId, Event, FailureReason, MicroOs,
    State, WifiFailure, WifiOperationId,
};

verus! {

#[derive(Debug, Clone, Copy, PartialEq, Eq, Structural)]
pub enum MicroErrorCode {
    Success,
    Mbc,
    Runtime,
    Ui,
    InvalidArgument,
    Panic,
    Stopped,
    BufferTooSmall,
}

impl MicroErrorCode {
    /// The stable C value of this code.
    pub fn code(self) -> (code: i32)
        ensures
            code == match self {
                MicroErrorCode::Success => 0i32,
                MicroErrorCode::Mbc => 1,
                MicroErrorCode::Runtime => 2,
                MicroErrorCode::Ui => 3,
                MicroErrorCode::InvalidArgument => 4,
                MicroErrorCode::Panic => 5,
                MicroErrorCode::Stopped => 6,
                MicroErrorCode::BufferTooSmall => 7,
            },
    {
        match self {
            MicroErrorCode::Success => 0,
            MicroErrorCode::Mbc => 1,
            MicroErrorCode::Runtime => 2,
            MicroErrorCode::Ui => 3,
            MicroErrorCode::InvalidArgument => 4,
            MicroErrorCode::Panic => 5,
            MicroErrorCode::Stopped => 6,
            MicroErrorCode::BufferTooSmall => 7,
        }
    }
}

#[derive(Debug, Clone, Copy, PartialEq, Eq, Structural)]
pub enum MicroState {
    EarlyBoot,
    SafeMode,
    StorageReady,
    BoardProfileValidated,
    DisplayReady,
    SystemUiReady,
    FirstRunSetup,
    Launcher,
    AppStarting,
    AppRunning,
    AppStopping,
    AppError,
    Settings,
}

impl MicroState {
    pub open spec fn spec_code(self) -> u32 {
        match self {
            MicroState::EarlyBoot => 0,
            MicroState::SafeMode => 1,
            MicroState::StorageReady => 2,
            MicroState::BoardProfileValidated => 3,
            MicroState::DisplayReady => 4,
            MicroState::SystemUiReady => 5,
            MicroState::FirstRunSetup => 6,
            MicroState::Launcher => 7,
            MicroState::AppStarting => 8,
            MicroState::AppRunning => 9,
            MicroState::AppStopping => 10,
            MicroState::AppError => 11,
            MicroState::Settings => 12,
        }
    }

    /// The stable C value of this state.
    pub fn code(self) -> (code: u32)
        ensures
            code == self.spec_code(),
    {
        match self {
            MicroState::EarlyBoot => 0,
            MicroState::SafeMode => 1,
            MicroState::StorageReady => 2,
            MicroState::BoardProfileValidated => 3,
            MicroState::DisplayReady => 4,
            MicroState::SystemUiReady => 5,
            MicroState::FirstRunSetup => 6,
            MicroState::Launcher => 7,
            MicroState::AppStarting => 8,
            MicroState::AppRunning => 9,
            MicroState::AppStopping => 10,
            MicroState::AppError => 11,
            MicroState::Settings => 12,
        }
    }
}

#[derive(Debug, Clone, Copy, PartialEq, Eq, Structural)]
pub enum MicroResult {
    Unused,
    Success,
    Failure,
}

impl MicroResult {
    pub open spec fn spec_code(self) -> u32 {
        match self {
            MicroResult::Unused => 0,
            MicroResult::Success => 1,
            MicroResult::Failure => 2,
        }
    }

    /// The stable C value of this result tag.
    pub fn code(self) -> (code: u32)
        ensures
            code == self.spec_code(),
    {
        match self {
            MicroResult::Unused => 0,
            MicroResult::Success => 1,
            MicroResult::Failure => 2,
        }
    }

    fn from_raw(value: u32) -> (r: Result<MicroResult, MicroErrorCode>)
        ensures
            match r {
                Ok(v) => v.spec_code() == value,
                Err(e) => e == MicroErrorCode::InvalidArgument && value > 2,
            },
    {
        match value {
            0 => Ok(MicroResult::Unused),
            1 => Ok(MicroResult::Success),
            2 => Ok(MicroResult::Failure),
            _ => Err(MicroErrorCode::InvalidArgument),
        }
    }
}

#[derive(Debug, Clone, Copy, PartialEq, Eq, Structural)]
pub enum MicroFailureReason {
    Unused,
    SafeModeRequested,
    StorageCorrupt,
    InvalidBoardProfile,
    HardwareUnavailable,
    AppCrashed,
    Internal,
}

impl MicroFailureReason {
    pub open spec fn spec_code(self) -> u32 {
        match self {
            MicroFailureReason::Unused => 0,
            MicroFailureReason::SafeModeRequested => 1,
            MicroFailureReason::StorageCorrupt => 2,
            MicroFailureReason::InvalidBoardProfile => 3,
            MicroFailureReason::HardwareUnavailable => 4,
            MicroFailureReason::AppCrashed => 5,
            MicroFailureReason::Internal => 6,
        }
    }

    /// The stable C value of this failure reason.
    pub fn code(self) -> (code: u32)
        ensures
            code == self.spec_code(),
    {
        match self {
            MicroFailureReason::Unused => 0,
            MicroFailureReason::SafeModeRequested => 1,
            MicroFailureReason::StorageCorrupt => 2,
            MicroFailureReason::InvalidBoardProfile => 3,
            MicroFailureReason::HardwareUnavailable => 4,
            MicroFailureReason::AppCrashed => 5,
            MicroFailureReason::Internal => 6,
        }
    }

    fn from_raw(value: u32) -> (r: Result<MicroFailureReason, MicroErrorCode>)
        ensures
            match r {
                Ok(v) => v.spec_code() == value,
                Err(e) => e == MicroErrorCode::InvalidArgument && value > 6,
            },
    {
        match value {
            0 => Ok(MicroFailureReason::Unused),
            1 => Ok(MicroFailureReason::SafeModeRequested),
            2 => Ok(MicroFailureReason::StorageCorrupt),
            3 => Ok(MicroFailureReason::InvalidBoardProfile),
            4 => Ok(MicroFailureReason::HardwareUnavailable),
            5 => Ok(MicroFailureReason::AppCrashed),
            6 => Ok(MicroFailureReason::Internal),
            _ => Err(MicroErrorCode::InvalidArgument),
        }
    }

    pub open spec fn spec_from(reason: FailureReason) -> MicroFailureReason {
        match reason {
            FailureReason::SafeModeRequested => MicroFailureReason::SafeModeRequested,
            FailureReason::StorageCorrupt => MicroFailureReason::StorageCorrupt,
            FailureReason::InvalidBoardProfile => MicroFailureReason::InvalidBoardProfile,
            FailureReason::HardwareUnavailable => MicroFailureReason::HardwareUnavailable,
            FailureReason::AppCrashed => MicroFailureReason::AppCrashed,
            FailureReason::Internal => MicroFailureReason::Internal,
        }
    }

    fn from_core(reason: FailureReason) -> (wire: MicroFailureReason)
        ensures
            wire == Self::spec_from(reason),
    {
        match reason {
            FailureReason::SafeModeRequested => MicroFailureReason::SafeModeRequested,
            FailureReason::StorageCorrupt => MicroFailureReason::StorageCorrupt,
            FailureReason::InvalidBoardProfile => MicroFailureReason::InvalidBoardProfile,
            FailureReason::HardwareUnavailable => MicroFailureReason::HardwareUnavailable,
            FailureReason::AppCrashed => MicroFailureReason::AppCrashed,
            FailureReason::Internal => MicroFailureReason::Internal,
        }
    }

    fn into_core(self) -> (r: Result<FailureReason, MicroErrorCode>)
        ensures
            match r {
                Ok(reason) => Self::spec_from(reason) == self,
                Err(e) => e == MicroErrorCode::InvalidArgument && self == MicroFailureReason::Unused,
            },
    {
        match self {
            MicroFailureReason::SafeModeRequested => Ok(FailureReason::SafeModeRequested),
            MicroFailureReason::StorageCorrupt => Ok(FailureReason::StorageCorrupt),
            MicroFailureReason::InvalidBoardProfile => Ok(FailureReason::InvalidBoardProfile),
            MicroFailureReason::HardwareUnavailable => Ok(FailureReason::HardwareUnavailable),
            MicroFailureReason::AppCrashed => Ok(FailureReason::AppCrashed),
            MicroFailureReason::Internal => Ok(FailureReason::Internal),
            MicroFailureReason::Unused => Err(MicroErrorCode::InvalidArgument),
        }
    }
}

#[derive(Debug, Clone, Copy, PartialEq, Eq, Structural)]
pub enum MicroWifiFailure {
    Unused,
    Authentication,
    NetworkMissing,
    Timeout,
    Internal,
}

impl MicroWifiFailure {
    pub open spec fn spec_code(self) -> u32 {
        match self {
            MicroWifiFailure::Unused => 0,
            MicroWifiFailure::Authentication => 1,
            MicroWifiFailure::NetworkMissing => 2,
            MicroWifiFailure::Timeout => 3,
            MicroWifiFailure::Internal => 4,
        }
    }

    /// The stable C value of this Wi-Fi failure.
    pub fn code(self) -> (code: u32)
        ensures
            code == self.spec_code(),
    {
        match self {
            MicroWifiFailure::Unused => 0,
            MicroWifiFailure::Authentication => 1,
            MicroWifiFailure::NetworkMissing => 2,
            MicroWifiFailure::Timeout => 3,
            MicroWifiFailure::Internal => 4,
        }
    }

    fn from_raw(value: u32) -> (r: Result<MicroWifiFailure, MicroErrorCode>)
        ensures
            match r {
                Ok(v) => v.spec_code() == value,
                Err(e) => e == MicroErrorCode::InvalidArgument && value > 4,
            },
    {
        match value {
            0 => Ok(MicroWifiFailure::Unused),
            1 => Ok(MicroWifiFailure::Authentication),
            2 => Ok(MicroWifiFailure::NetworkMissing),
            3 => Ok(MicroWifiFailure::Timeout),
            4 => Ok(MicroWifiFailure::Internal),
            _ => Err(MicroErrorCode::InvalidArgument),
        }
    }

    pub open spec fn spec_from(reason: WifiFailure) -> MicroWifiFailure {
        match reason {
            WifiFailure::Authentication => MicroWifiFailure::Authentication,
            WifiFailure::NetworkMissing => MicroWifiFailure::NetworkMissing,
            WifiFailure::Timeout => MicroWifiFailure::Timeout,
            WifiFailure::Internal => MicroWifiFailure::Internal,
        }
    }

    fn from_core(reason: WifiFailure) -> (wire: MicroWifiFailure)
        ensures
            wire == Self::spec_from(reason),
    {
        match reason {
            WifiFailure::Authentication => MicroWifiFailure::Authentication,
            WifiFailure::NetworkMissing => MicroWifiFailure::NetworkMissing,
            WifiFailure::Timeout => MicroWifiFailure::Timeout,
            WifiFailure::Internal => MicroWifiFailure::Internal,
        }
    }

    fn into_core(self) -> (r: Result<WifiFailure, MicroErrorCode>)
        ensures
            match r {
                Ok(reason) => Self::spec_from(reason) == self,
                Err(e) => e == MicroErrorCode::InvalidArgument && self == MicroWifiFailure::Unused,
            },
    {
        match self {
            MicroWifiFailure::Authentication => Ok(WifiFailure::Authentication),
            MicroWifiFailure::NetworkMissing => Ok(WifiFailure::NetworkMissing),
            MicroWifiFailure::Timeout => Ok(WifiFailure::Timeout),
            MicroWifiFailure::Internal => Ok(WifiFailure::Internal),
            MicroWifiFailure::Unused => Err(MicroErrorCode::InvalidArgument),
        }
    }
}

#[derive(Debug, Clone, Copy, PartialEq, Eq, Structural)]
pub enum MicroAppId {
    Unused,
    Counter,
}

impl MicroAppId {
    pub open spec fn spec_code(self) -> u32 {
        match self {
            MicroAppId::Unused => 0,
            MicroAppId::Counter => 1,
        }
    }

    /// The stable C value of this app identifier.
    pub fn code(self) -> (code: u32)
        ensures
            code == self.spec_code(),
    {
        match self {
            MicroAppId::Unused => 0,
            MicroAppId::Counter => 1,
        }
    }

    fn from_raw(value: u32) -> (r: Result<MicroAppId, MicroErrorCode>)
        ensures
            match r {
                Ok(v) => v.spec_code() == value,
                Err(e) => e == MicroErrorCode::InvalidArgument && value > 1,
            },
    {
        match value {
            0 => Ok(MicroAppId::Unused),
            1 => Ok(MicroAppId::Counter),
            _ => Err(MicroErrorCode::InvalidArgument),
        }
    }

    pub open spec fn spec_from(app: AppId) -> MicroAppId {
        match app {
            AppId::Counter => MicroAppId::Counter,
        }
    }

    fn from_core(app: AppId) -> (wire: MicroAppId)
        ensures
            wire == Self::spec_from(app),
    {
        match app {
            AppId::Counter => MicroAppId::Counter,
        }
    }

    fn into_core(self) -> (r: Result<AppId, MicroErrorCode>)
        ensures
            match r {
                Ok(app) => Self::spec_from(app) == self,
                Err(e) => e == MicroErrorCode::InvalidArgument && self == MicroAppId::Unused,
            },
    {
        match self {
            MicroAppId::Counter => Ok(AppId::Counter),
            MicroAppId::Unused => Err(MicroErrorCode::InvalidArgument),
        }
    }
}

#[derive(Debug, Clone, Copy, PartialEq, Eq, Structural)]
pub enum MicroBacklight {
    Unused,
    Off,
    Low,
    Medium,
    High,
}

impl MicroBacklight {
    pub open spec fn spec_code(self) -> u32 {
        match self {
            MicroBacklight::Unused => 0,
            MicroBacklight::Off => 1,
            MicroBacklight::Low => 2,
            MicroBacklight::Medium => 3,
            MicroBacklight::High => 4,
        }
    }

    /// The stable C value of this backlight level.
    pub fn code(self) -> (code: u32)
        ensures
            code == self.spec_code(),
    {
        match self {
            MicroBacklight::Unused => 0,
            MicroBacklight::Off => 1,
            MicroBacklight::Low => 2,
            MicroBacklight::Medium => 3,
            MicroBacklight::High => 4,
        }
    }

    fn from_raw(value: u32) -> (r: Result<MicroBacklight, MicroErrorCode>)
        ensures
            match r {
                Ok(v) => v.spec_code() == value,
                Err(e) => e == MicroErrorCode::InvalidArgument && value > 4,
            },
    {
        match value {
            0 => Ok(MicroBacklight::Unused),
            1 => Ok(MicroBacklight::Off),
            2 => Ok(MicroBacklight::Low),
            3 => Ok(MicroBacklight::Medium),
            4 => Ok(MicroBacklight::High),
            _ => Err(MicroErrorCode::InvalidArgument),
        }
    }

    pub open spec fn spec_from(backlight: Backlight) -> MicroBacklight {
        match backlight {
            Backlight::Off => MicroBacklight::Off,
            Backlight::Low => MicroBacklight::Low,
            Backlight::Medium => MicroBacklight::Medium,
            Backlight::High => MicroBacklight::High,
        }
    }

    fn from_core(backlight: Backlight) -> (wire: MicroBacklight)
        ensures
            wire == Self::spec_from(backlight),
    {
        match backlight {
            Backlight::Off => MicroBacklight::Off,
            Backlight::Low => MicroBacklight::Low,
            Backlight::Medium => MicroBacklight::Medium,
            Backlight::High => MicroBacklight::High,
        }
    }

    fn into_core(self) -> (r: Result<Backlight, MicroErrorCode>)
        ensures
            match r {
                Ok(backlight) => Self::spec_from(backlight) == self,
                Err(e) => e == MicroErrorCode::InvalidArgument && self == MicroBacklight::Unused,
            },
    {
        match self {
            MicroBacklight::Off => Ok(Backlight::Off),
            MicroBacklight::Low => Ok(Backlight::Low),
            MicroBacklight::Medium => Ok(Backlight::Medium),
            MicroBacklight::High => Ok(Backlight::High),
            MicroBacklight::Unused => Err(MicroErrorCode::InvalidArgument),
        }
    }
}

#[derive(Debug, Clone, Copy, PartialEq, Eq, Structural)]
pub enum MicroEventKind {
    BootSampled,
    StorageInitialized,
    ProfileValidated,
    DisplayInitialized,
    SystemUiInitialized,
    NetworkConfigLoaded,
    SetupSkipped,
    OpenSettings,
    BackPressed,
    HomePressed,
    OpenApp,
    AppStarted,
    AppFailed,
    RestartApp,
    AppStopped,
    WifiScanRequested,
    WifiScanCompleted,
    WifiScanFailed,
    WifiConnectRequested,
    WifiConnected,
    WifiPersisted,
    WifiFailed,
    ReconnectDue,
    ReconnectNowRequested,
    ClearNetworkRequested,
    ClearNetworkConfirmed,
    ClearNetworkCompleted,
    FactoryResetRequested,
    FactoryResetConfirmed,
    FactoryResetCompleted,
    RebootRequested,
    SetBacklight,
}

impl MicroEventKind {
    pub open spec fn spec_code(self) -> u32 {
        match self {
            MicroEventKind::BootSampled => 0,
            MicroEventKind::StorageInitialized => 1,
            MicroEventKind::ProfileValidated => 2,
            MicroEventKind::DisplayInitialized => 3,
            MicroEventKind::SystemUiInitialized => 4,
            MicroEventKind::NetworkConfigLoaded => 5,
            MicroEventKind::SetupSkipped => 6,
            MicroEventKind::OpenSettings => 7,
            MicroEventKind::BackPressed => 8,
            MicroEventKind::HomePressed => 9,
            MicroEventKind::OpenApp => 10,
            MicroEventKind::AppStarted => 11,
            MicroEventKind::AppFailed => 12,
            MicroEventKind::RestartApp => 13,
            MicroEventKind::AppStopped => 14,
            MicroEventKind::WifiScanRequested => 15,
            MicroEventKind::WifiScanCompleted => 16,
            MicroEventKind::WifiScanFailed => 17,
            MicroEventKind::WifiConnectRequested => 18,
            MicroEventKind::WifiConnected => 19,
            MicroEventKind::WifiPersisted => 20,
            MicroEventKind::WifiFailed => 21,
            MicroEventKind::ReconnectDue => 22,
            MicroEventKind::ReconnectNowRequested => 23,
            MicroEventKind::ClearNetworkRequested => 24,
            MicroEventKind::ClearNetworkConfirmed => 25,
            MicroEventKind::ClearNetworkCompleted => 26,
            MicroEventKind::FactoryResetRequested => 27,
            MicroEventKind::FactoryResetConfirmed => 28,
            MicroEventKind::FactoryResetCompleted => 29,
            MicroEventKind::RebootRequested => 30,
            MicroEventKind::SetBacklight => 31,
        }
    }

    /// The stable C value of this event kind.
    pub fn code(self) -> (code: u32)
        ensures
            code == self.spec_code(),
    {
        match self {
            MicroEventKind::BootSampled => 0,
            MicroEventKind::StorageInitialized => 1,
            MicroEventKind::ProfileValidated => 2,
            MicroEventKind::DisplayInitialized => 3,
            MicroEventKind::SystemUiInitialized => 4,
            MicroEventKind::NetworkConfigLoaded => 5,
            MicroEventKind::SetupSkipped => 6,
            MicroEventKind::OpenSettings => 7,
            MicroEventKind::BackPressed => 8,
            MicroEventKind::HomePressed => 9,
            MicroEventKind::OpenApp => 10,
            MicroEventKind::AppStarted => 11,
            MicroEventKind::AppFailed => 12,
            MicroEventKind::RestartApp => 13,
            MicroEventKind::AppStopped => 14,
            MicroEventKind::WifiScanRequested => 15,
            MicroEventKind::WifiScanCompleted => 16,
            MicroEventKind::WifiScanFailed => 17,
            MicroEventKind::WifiConnectRequested => 18,
            MicroEventKind::WifiConnected => 19,
            MicroEventKind::WifiPersisted => 20,
            MicroEventKind::WifiFailed => 21,
            MicroEventKind::ReconnectDue => 22,
            MicroEventKind::ReconnectNowRequested => 23,
            MicroEventKind::ClearNetworkRequested => 24,
            MicroEventKind::ClearNetworkConfirmed => 25,
            MicroEventKind::ClearNetworkCompleted => 26,
            MicroEventKind::FactoryResetRequested => 27,
            MicroEventKind::FactoryResetConfirmed => 28,
            MicroEventKind::FactoryResetCompleted => 29,
            MicroEventKind::RebootRequested => 30,
            MicroEventKind::SetBacklight => 31,
        }
    }

    fn from_raw(value: u32) -> (r: Result<MicroEventKind, MicroErrorCode>)
        ensures
            match r {
                Ok(v) => v.spec_code() == value,
                Err(e) => e == MicroErrorCode::InvalidArgument && value >= 32,
            },
    {
        match value {
            0 => Ok(MicroEventKind::BootSampled),
            1 => Ok(MicroEventKind::StorageInitialized),
            2 => Ok(MicroEventKind::ProfileValidated),
            3 => Ok(MicroEventKind::DisplayInitialized),
            4 => Ok(MicroEventKind::SystemUiInitialized),
            5 => Ok(MicroEventKind::NetworkConfigLoaded),
            6 => Ok(MicroEventKind::SetupSkipped),
            7 => Ok(MicroEventKind::OpenSettings),
            8 => Ok(MicroEventKind::BackPressed),
            9 => Ok(MicroEventKind::HomePressed),
            10 => Ok(MicroEventKind::OpenApp),
            11 => Ok(MicroEventKind::AppStarted),
            12 => Ok(MicroEventKind::AppFailed),
            13 => Ok(MicroEventKind::RestartApp),
            14 => Ok(MicroEventKind::AppStopped),
            15 => Ok(MicroEventKind::WifiScanRequested),
            16 => Ok(MicroEventKind::WifiScanCompleted),
            17 => Ok(MicroEventKind::WifiScanFailed),
            18 => Ok(MicroEventKind::WifiConnectRequested),
            19 => Ok(MicroEventKind::WifiConnected),
            20 => Ok(MicroEventKind::WifiPersisted),
            21 => Ok(MicroEventKind::WifiFailed),
            22 => Ok(MicroEventKind::ReconnectDue),
            23 => Ok(MicroEventKind::ReconnectNowRequested),
            24 => Ok(MicroEventKind::ClearNetworkRequested),
            25 => Ok(MicroEventKind::ClearNetworkConfirmed),
            26 => Ok(MicroEventKind::ClearNetworkCompleted),
            27 => Ok(MicroEventKind::FactoryResetRequested),
            28 => Ok(MicroEventKind::FactoryResetConfirmed),
            29 => Ok(MicroEventKind::FactoryResetCompleted),
            30 => Ok(MicroEventKind::RebootRequested),
            31 => Ok(MicroEventKind::SetBacklight),
            _ => Err(MicroErrorCode::InvalidArgument),
        }
    }
}

#[derive(Debug, Clone, Copy, PartialEq, Eq, Structural)]
pub enum MicroActionKind {
    Nothing,
    Rejected,
    Actions,
    EnterSafeMode,
    InitializeStorage,
    ValidateProfile,
    InitializeDisplay,
    InitializeSystemUi,
    LoadNetworkConfig,
    ShowFirstRunSetup,
    ShowLauncher,
    ShowSettings,
    StartWifiScan,
    ConnectWifi,
    ConnectSavedWifi,
    PersistWifi,
    ClearPendingWifi,
    ScheduleWifiReconnect,
    StartApp,
    StopApp,
    ShowAppError,
    ConfirmClearNetwork,
    ClearNetwork,
    ConfirmFactoryReset,
    FactoryReset,
    Reboot,
    ApplyBacklight,
}

impl MicroActionKind {
    pub open spec fn spec_code(self) -> u32 {
        match self {
            MicroActionKind::Nothing => 0,
            MicroActionKind::Rejected => 1,
            MicroActionKind::Actions => 2,
            MicroActionKind::EnterSafeMode => 3,
            MicroActionKind::InitializeStorage => 4,
            MicroActionKind::ValidateProfile => 5,
            MicroActionKind::InitializeDisplay => 6,
            MicroActionKind::InitializeSystemUi => 7,
            MicroActionKind::LoadNetworkConfig => 8,
            MicroActionKind::ShowFirstRunSetup => 9,
            MicroActionKind::ShowLauncher => 10,
            MicroActionKind::ShowSettings => 11,
            MicroActionKind::StartWifiScan => 12,
            MicroActionKind::ConnectWifi => 13,
            MicroActionKind::ConnectSavedWifi => 14,
            MicroActionKind::PersistWifi => 15,
            MicroActionKind::ClearPendingWifi => 16,
            MicroActionKind::ScheduleWifiReconnect => 17,
            MicroActionKind::StartApp => 18,
            MicroActionKind::StopApp => 19,
            MicroActionKind::ShowAppError => 20,
            MicroActionKind::ConfirmClearNetwork => 21,
            MicroActionKind::ClearNetwork => 22,
            MicroActionKind::ConfirmFactoryReset => 23,
            MicroActionKind::FactoryReset => 24,
            MicroActionKind::Reboot => 25,
            MicroActionKind::ApplyBacklight => 26,
        }
    }

    /// The stable C value of this action kind.
    pub fn code(self) -> (code: u32)
        ensures
            code == self.spec_code(),
    {
        match self {
            MicroActionKind::Nothing => 0,
            MicroActionKind::Rejected => 1,
            MicroActionKind::Actions => 2,
            MicroActionKind::EnterSafeMode => 3,
            MicroActionKind::InitializeStorage => 4,
            MicroActionKind::ValidateProfile => 5,
            MicroActionKind::InitializeDisplay => 6,
            MicroActionKind::InitializeSystemUi => 7,
            MicroActionKind::LoadNetworkConfig => 8,
            MicroActionKind::ShowFirstRunSetup => 9,
            MicroActionKind::ShowLauncher => 10,
            MicroActionKind::ShowSettings => 11,
            MicroActionKind::StartWifiScan => 12,
            MicroActionKind::ConnectWifi => 13,
            MicroActionKind::ConnectSavedWifi => 14,
            MicroActionKind::PersistWifi => 15,
            MicroActionKind::ClearPendingWifi => 16,
            MicroActionKind::ScheduleWifiReconnect => 17,
            MicroActionKind::StartApp => 18,
            MicroActionKind::StopApp => 19,
            MicroActionKind::ShowAppError => 20,
            MicroActionKind::ConfirmClearNetwork => 21,
            MicroActionKind::ClearNetwork => 22,
            MicroActionKind::ConfirmFactoryReset => 23,
            MicroActionKind::FactoryReset => 24,
            MicroActionKind::Reboot => 25,
            MicroActionKind::ApplyBacklight => 26,
        }
    }

    fn from_raw(value: u32) -> (r: Result<MicroActionKind, MicroErrorCode>)
        ensures
            match r {
                Ok(v) => v.spec_code() == value,
                Err(e) => e == MicroErrorCode::InvalidArgument && value >= 27,
            },
    {
        match value {
            0 => Ok(MicroActionKind::Nothing),
            1 => Ok(MicroActionKind::Rejected),
            2 => Ok(MicroActionKind::Actions),
            3 => Ok(MicroActionKind::EnterSafeMode),
            4 => Ok(MicroActionKind::InitializeStorage),
            5 => Ok(MicroActionKind::ValidateProfile),
            6 => Ok(MicroActionKind::InitializeDisplay),
            7 => Ok(MicroActionKind::InitializeSystemUi),
            8 => Ok(MicroActionKind::LoadNetworkConfig),
            9 => Ok(MicroActionKind::ShowFirstRunSetup),
            10 => Ok(MicroActionKind::ShowLauncher),
            11 => Ok(MicroActionKind::ShowSettings),
            12 => Ok(MicroActionKind::StartWifiScan),
            13 => Ok(MicroActionKind::ConnectWifi),
            14 => Ok(MicroActionKind::ConnectSavedWifi),
            15 => Ok(MicroActionKind::PersistWifi),
            16 => Ok(MicroActionKind::ClearPendingWifi),
            17 => Ok(MicroActionKind::ScheduleWifiReconnect),
            18 => Ok(MicroActionKind::StartApp),
            19 => Ok(MicroActionKind::StopApp),
            20 => Ok(MicroActionKind::ShowAppError),
            21 => Ok(MicroActionKind::ConfirmClearNetwork),
            22 => Ok(MicroActionKind::ClearNetwork),
            23 => Ok(MicroActionKind::ConfirmFactoryReset),
            24 => Ok(MicroActionKind::FactoryReset),
            25 => Ok(MicroActionKind::Reboot),
            26 => Ok(MicroActionKind::ApplyBacklight),
            _ => Err(MicroErrorCode::InvalidArgument),
        }
    }
}


/// Which payload fields an event kind carries; every other field must be
/// zero (or `Unused`).
#[derive(Clone, Copy)]
pub struct FieldUse {
    pub result: bool,
    pub failure: bool,
    pub wifi_failure: bool,
    pub app: bool,
    pub flag: bool,
    pub session: bool,
    pub operation: bool,
    pub confirmation: bool,
}

pub open spec fn field_use(kind: MicroEventKind) -> FieldUse {
    let none = FieldUse {
        result: false, failure: false, wifi_failure: false, app: false,
        flag: false, session: false, operation: false, confirmation: false,
    };
    match kind {
        MicroEventKind::BootSampled | MicroEventKind::NetworkConfigLoaded | MicroEventKind::SetBacklight =>
            FieldUse { flag: true, ..none },
        MicroEventKind::StorageInitialized | MicroEventKind::ProfileValidated
        | MicroEventKind::DisplayInitialized | MicroEventKind::SystemUiInitialized =>
            FieldUse { result: true, failure: true, ..none },
        MicroEventKind::OpenApp => FieldUse { app: true, ..none },
        MicroEventKind::AppStarted | MicroEventKind::AppStopped => FieldUse { session: true, ..none },
        MicroEventKind::AppFailed => FieldUse { failure: true, session: true, ..none },
        MicroEventKind::WifiScanCompleted | MicroEventKind::WifiConnected | MicroEventKind::WifiPersisted
        | MicroEventKind::ReconnectDue => FieldUse { operation: true, ..none },
        MicroEventKind::WifiScanFailed | MicroEventKind::WifiFailed =>
            FieldUse { wifi_failure: true, operation: true, ..none },
        MicroEventKind::ClearNetworkConfirmed | MicroEventKind::FactoryResetConfirmed =>
            FieldUse { confirmation: true, ..none },
        MicroEventKind::ClearNetworkCompleted | MicroEventKind::FactoryResetCompleted =>
            FieldUse { result: true, failure: true, confirmation: true, ..none },
        _ => none,
    }
}

fn exec_field_use(kind: MicroEventKind) -> (uses: FieldUse)
    ensures
        uses == field_use(kind),
{
    let none = FieldUse {
        result: false, failure: false, wifi_failure: false, app: false,
        flag: false, session: false, operation: false, confirmation: false,
    };
    match kind {
        MicroEventKind::BootSampled | MicroEventKind::NetworkConfigLoaded | MicroEventKind::SetBacklight =>
            FieldUse { flag: true, ..none },
        MicroEventKind::StorageInitialized | MicroEventKind::ProfileValidated
        | MicroEventKind::DisplayInitialized | MicroEventKind::SystemUiInitialized =>
            FieldUse { result: true, failure: true, ..none },
        MicroEventKind::OpenApp => FieldUse { app: true, ..none },
        MicroEventKind::AppStarted | MicroEventKind::AppStopped => FieldUse { session: true, ..none },
        MicroEventKind::AppFailed => FieldUse { failure: true, session: true, ..none },
        MicroEventKind::WifiScanCompleted | MicroEventKind::WifiConnected | MicroEventKind::WifiPersisted
        | MicroEventKind::ReconnectDue => FieldUse { operation: true, ..none },
        MicroEventKind::WifiScanFailed | MicroEventKind::WifiFailed =>
            FieldUse { wifi_failure: true, operation: true, ..none },
        MicroEventKind::ClearNetworkConfirmed | MicroEventKind::FactoryResetConfirmed =>
            FieldUse { confirmation: true, ..none },
        MicroEventKind::ClearNetworkCompleted | MicroEventKind::FactoryResetCompleted =>
            FieldUse { result: true, failure: true, confirmation: true, ..none },
        _ => none,
    }
}

/// One OS reducer event in the fixed C layout.
#[derive(Debug, Clone, Copy, PartialEq, Eq, Structural)]
pub struct MicroEvent {
    pub kind: MicroEventKind,
    pub result: MicroResult,
    pub failure: MicroFailureReason,
    pub wifi_failure: MicroWifiFailure,
    pub app: MicroAppId,
    pub flag: u32,
    pub after_secs: u32,
    pub reserved: u32,
    pub session_id: u64,
    pub operation_id: u64,
    pub confirmation_id: u64,
}

pub open spec fn event_kind(event: Event) -> MicroEventKind {
    match event {
            Event::BootSampled { .. } => MicroEventKind::BootSampled,
            Event::StorageInitialized(..) => MicroEventKind::StorageInitialized,
            Event::ProfileValidated(..) => MicroEventKind::ProfileValidated,
            Event::DisplayInitialized(..) => MicroEventKind::DisplayInitialized,
            Event::SystemUiInitialized(..) => MicroEventKind::SystemUiInitialized,
            Event::NetworkConfigLoaded { .. } => MicroEventKind::NetworkConfigLoaded,
            Event::SetupSkipped => MicroEventKind::SetupSkipped,
            Event::OpenSettings => MicroEventKind::OpenSettings,
            Event::BackPressed => MicroEventKind::BackPressed,
            Event::HomePressed => MicroEventKind::HomePressed,
            Event::OpenApp(..) => MicroEventKind::OpenApp,
            Event::AppStarted { .. } => MicroEventKind::AppStarted,
            Event::AppFailed { .. } => MicroEventKind::AppFailed,
            Event::RestartApp => MicroEventKind::RestartApp,
            Event::AppStopped { .. } => MicroEventKind::AppStopped,
            Event::WifiScanRequested => MicroEventKind::WifiScanRequested,
            Event::WifiScanCompleted { .. } => MicroEventKind::WifiScanCompleted,
            Event::WifiScanFailed { .. } => MicroEventKind::WifiScanFailed,
            Event::WifiConnectRequested => MicroEventKind::WifiConnectRequested,
            Event::WifiConnected { .. } => MicroEventKind::WifiConnected,
            Event::WifiPersisted { .. } => MicroEventKind::WifiPersisted,
            Event::WifiFailed { .. } => MicroEventKind::WifiFailed,
            Event::ReconnectDue { .. } => MicroEventKind::ReconnectDue,
            Event::ReconnectNowRequested => MicroEventKind::ReconnectNowRequested,
            Event::ClearNetworkRequested => MicroEventKind::ClearNetworkRequested,
            Event::ClearNetworkConfirmed { .. } => MicroEventKind::ClearNetworkConfirmed,
            Event::ClearNetworkCompleted { .. } => MicroEventKind::ClearNetworkCompleted,
            Event::FactoryResetRequested => MicroEventKind::FactoryResetRequested,
            Event::FactoryResetConfirmed { .. } => MicroEventKind::FactoryResetConfirmed,
            Event::FactoryResetCompleted { .. } => MicroEventKind::FactoryResetCompleted,
            Event::RebootRequested => MicroEventKind::RebootRequested,
            Event::SetBacklight(..) => MicroEventKind::SetBacklight,
    }
}

impl MicroEvent {
    pub open spec fn spec_empty(kind: MicroEventKind) -> MicroEvent {
        MicroEvent {
            kind,
            result: MicroResult::Unused,
            failure: MicroFailureReason::Unused,
            wifi_failure: MicroWifiFailure::Unused,
            app: MicroAppId::Unused,
            flag: 0,
            after_secs: 0,
            reserved: 0,
            session_id: 0,
            operation_id: 0,
            confirmation_id: 0,
        }
    }

    pub open spec fn with_result(self, result: Result<(), FailureReason>) -> MicroEvent {
        match result {
            Ok(()) => MicroEvent { result: MicroResult::Success, ..self },
            Err(reason) => MicroEvent {
                result: MicroResult::Failure,
                failure: MicroFailureReason::spec_from(reason),
                ..self
            },
        }
    }

    /// The wire form of an OS event.
    pub open spec fn spec_from_core(event: Event) -> MicroEvent {
        let wire = Self::spec_empty(event_kind(event));
        match event {
            Event::BootSampled { safe_mode } => MicroEvent { flag: if safe_mode { 1 } else { 0 }, ..wire },
            Event::StorageInitialized(result) | Event::ProfileValidated(result)
            | Event::DisplayInitialized(result) | Event::SystemUiInitialized(result) => wire.with_result(result),
            Event::NetworkConfigLoaded { configured } => MicroEvent { flag: if configured { 1 } else { 0 }, ..wire },
            Event::SetBacklight(backlight) => MicroEvent { flag: MicroBacklight::spec_from(backlight).spec_code(), ..wire },
            Event::OpenApp(app) => MicroEvent { app: MicroAppId::spec_from(app), ..wire },
            Event::AppStarted { session } | Event::AppStopped { session } => MicroEvent { session_id: session.0, ..wire },
            Event::AppFailed { session, reason } => MicroEvent {
                session_id: session.0,
                failure: MicroFailureReason::spec_from(reason),
                ..wire
            },
            Event::WifiScanCompleted { operation } | Event::WifiConnected { operation }
            | Event::WifiPersisted { operation } => MicroEvent { operation_id: operation.0, ..wire },
            Event::WifiScanFailed { operation, reason } | Event::WifiFailed { operation, reason } => MicroEvent {
                operation_id: operation.0,
                wifi_failure: MicroWifiFailure::spec_from(reason),
                ..wire
            },
            Event::ReconnectDue { reconnect } => MicroEvent { operation_id: reconnect.0, ..wire },
            Event::ClearNetworkConfirmed { confirmation } | Event::FactoryResetConfirmed { confirmation } =>
                MicroEvent { confirmation_id: confirmation.0, ..wire },
            Event::ClearNetworkCompleted { confirmation, result } | Event::FactoryResetCompleted { confirmation, result } =>
                MicroEvent { confirmation_id: confirmation.0, ..wire }.with_result(result),
            _ => wire,
        }
    }

    /// Every field that the kind does not use is zero, and the result tag
    /// agrees with the failure reason.
    /// Every field the kind does not carry is zero or `Unused`, the padding
    /// is zero, and a result is a success without a failure reason or a
    /// failure with one.
    pub open spec fn canonical(self) -> bool {
        let uses = field_use(self.kind);
        &&& uses.result || self.result == MicroResult::Unused
        &&& uses.failure || self.failure == MicroFailureReason::Unused
        &&& uses.wifi_failure || self.wifi_failure == MicroWifiFailure::Unused
        &&& uses.app || self.app == MicroAppId::Unused
        &&& uses.flag || self.flag == 0
        &&& uses.session || self.session_id == 0
        &&& uses.operation || self.operation_id == 0
        &&& uses.confirmation || self.confirmation_id == 0
        &&& self.after_secs == 0
        &&& self.reserved == 0
        &&& uses.result ==> ((self.result == MicroResult::Success && self.failure == MicroFailureReason::Unused)
            || (self.result == MicroResult::Failure && self.failure != MicroFailureReason::Unused))
    }

    /// The wire record is the encoding of some event.
    pub open spec fn well_formed(self) -> bool {
        &&& self.canonical()
        &&& (self.kind == MicroEventKind::BootSampled || self.kind == MicroEventKind::NetworkConfigLoaded) ==> self.flag <= 1
        &&& self.kind == MicroEventKind::SetBacklight ==> 1 <= self.flag <= 4
        &&& self.kind == MicroEventKind::OpenApp ==> self.app != MicroAppId::Unused
        &&& self.kind == MicroEventKind::AppFailed ==> self.failure != MicroFailureReason::Unused
        &&& (self.kind == MicroEventKind::WifiScanFailed || self.kind == MicroEventKind::WifiFailed)
            ==> self.wifi_failure != MicroWifiFailure::Unused
    }

    fn empty(kind: MicroEventKind) -> (wire: MicroEvent)
        ensures
            wire == Self::spec_empty(kind),
    {
        MicroEvent {
            kind,
            result: MicroResult::Unused,
            failure: MicroFailureReason::Unused,
            wifi_failure: MicroWifiFailure::Unused,
            app: MicroAppId::Unused,
            flag: 0,
            after_secs: 0,
            reserved: 0,
            session_id: 0,
            operation_id: 0,
            confirmation_id: 0,
        }
    }

    fn set_result(&mut self, result: Result<(), FailureReason>)
        ensures
            *final(self) == old(self).with_result(result),
    {
        match result {
            Ok(()) => self.result = MicroResult::Success,
            Err(reason) => {
                self.result = MicroResult::Failure;
                self.failure = MicroFailureReason::from_core(reason);
            },
        }
    }

    /// Encodes an OS event into its wire record.
    pub fn from_core(event: &Event) -> (wire: MicroEvent)
        ensures
            wire == Self::spec_from_core(*event),
    {
        let kind = match event {
            Event::BootSampled { .. } => MicroEventKind::BootSampled,
            Event::StorageInitialized(..) => MicroEventKind::StorageInitialized,
            Event::ProfileValidated(..) => MicroEventKind::ProfileValidated,
            Event::DisplayInitialized(..) => MicroEventKind::DisplayInitialized,
            Event::SystemUiInitialized(..) => MicroEventKind::SystemUiInitialized,
            Event::NetworkConfigLoaded { .. } => MicroEventKind::NetworkConfigLoaded,
            Event::SetupSkipped => MicroEventKind::SetupSkipped,
            Event::OpenSettings => MicroEventKind::OpenSettings,
            Event::BackPressed => MicroEventKind::BackPressed,
            Event::HomePressed => MicroEventKind::HomePressed,
            Event::OpenApp(..) => MicroEventKind::OpenApp,
            Event::AppStarted { .. } => MicroEventKind::AppStarted,
            Event::AppFailed { .. } => MicroEventKind::AppFailed,
            Event::RestartApp => MicroEventKind::RestartApp,
            Event::AppStopped { .. } => MicroEventKind::AppStopped,
            Event::WifiScanRequested => MicroEventKind::WifiScanRequested,
            Event::WifiScanCompleted { .. } => MicroEventKind::WifiScanCompleted,
            Event::WifiScanFailed { .. } => MicroEventKind::WifiScanFailed,
            Event::WifiConnectRequested => MicroEventKind::WifiConnectRequested,
            Event::WifiConnected { .. } => MicroEventKind::WifiConnected,
            Event::WifiPersisted { .. } => MicroEventKind::WifiPersisted,
            Event::WifiFailed { .. } => MicroEventKind::WifiFailed,
            Event::ReconnectDue { .. } => MicroEventKind::ReconnectDue,
            Event::ReconnectNowRequested => MicroEventKind::ReconnectNowRequested,
            Event::ClearNetworkRequested => MicroEventKind::ClearNetworkRequested,
            Event::ClearNetworkConfirmed { .. } => MicroEventKind::ClearNetworkConfirmed,
            Event::ClearNetworkCompleted { .. } => MicroEventKind::ClearNetworkCompleted,
            Event::FactoryResetRequested => MicroEventKind::FactoryResetRequested,
            Event::FactoryResetConfirmed { .. } => MicroEventKind::FactoryResetConfirmed,
            Event::FactoryResetCompleted { .. } => MicroEventKind::FactoryResetCompleted,
            Event::RebootRequested => MicroEventKind::RebootRequested,
            Event::SetBacklight(..) => MicroEventKind::SetBacklight,
        };
        let mut wire = Self::empty(kind);
        match event {
            Event::BootSampled { safe_mode } => wire.flag = if *safe_mode { 1 } else { 0 },
            Event::StorageInitialized(result) | Event::ProfileValidated(result)
            | Event::DisplayInitialized(result) | Event::SystemUiInitialized(result) => wire.set_result(*result),
            Event::NetworkConfigLoaded { configured } => wire.flag = if *configured { 1 } else { 0 },
            Event::SetBacklight(backlight) => wire.flag = MicroBacklight::from_core(*backlight).code(),
            Event::OpenApp(app) => wire.app = MicroAppId::from_core(*app),
            Event::AppStarted { session } | Event::AppStopped { session } => wire.session_id = session.0,
            Event::AppFailed { session, reason } => {
                wire.session_id = session.0;
                wire.failure = MicroFailureReason::from_core(*reason);
            },
            Event::WifiScanCompleted { operation } | Event::WifiConnected { operation }
            | Event::WifiPersisted { operation } => wire.operation_id = operation.0,
            Event::WifiScanFailed { operation, reason } | Event::WifiFailed { operation, reason } => {
                wire.operation_id = operation.0;
                wire.wifi_failure = MicroWifiFailure::from_core(*reason);
            },
            Event::ReconnectDue { reconnect } => wire.operation_id = reconnect.0,
            Event::ClearNetworkConfirmed { confirmation } | Event::FactoryResetConfirmed { confirmation } =>
                wire.confirmation_id = confirmation.0,
            Event::ClearNetworkCompleted { confirmation, result }
            | Event::FactoryResetCompleted { confirmation, result } => {
                wire.confirmation_id = confirmation.0;
                wire.set_result(*result);
            },
            _ => {},
        }
        wire
    }

    fn validate_canonical(&self) -> (ok: bool)
        ensures
            ok == self.canonical(),
    {
        let uses = exec_field_use(self.kind);
        let invalid = (!uses.result && self.result != MicroResult::Unused)
            || (!uses.failure && self.failure != MicroFailureReason::Unused)
            || (!uses.wifi_failure && self.wifi_failure != MicroWifiFailure::Unused)
            || (!uses.app && self.app != MicroAppId::Unused)
            || (!uses.flag && self.flag != 0)
            || (!uses.session && self.session_id != 0)
            || (!uses.operation && self.operation_id != 0)
            || (!uses.confirmation && self.confirmation_id != 0)
            || self.after_secs != 0
            || self.reserved != 0;
        if invalid {
            return false;
        }
        if uses.result {
            match self.result {
                MicroResult::Success => self.failure == MicroFailureReason::Unused,
                MicroResult::Failure => self.failure != MicroFailureReason::Unused,
                MicroResult::Unused => false,
            }
        } else {
            true
        }
    }

    /// Decodes a wire record. It succeeds exactly on the records that encode
    /// some event, and then yields that event.
    pub fn try_into_core(self) -> (r: Result<Event, MicroErrorCode>)
        ensures
            r is Ok <==> self.well_formed(),
            match r {
                Ok(event) => Self::spec_from_core(event) == self,
                Err(code) => code == MicroErrorCode::InvalidArgument,
            },
    {
        if !self.validate_canonical() {
            return Err(MicroErrorCode::InvalidArgument);
        }
        let event = match self.kind {
            MicroEventKind::BootSampled => Event::BootSampled { safe_mode: bool_flag(self.flag)? },
            MicroEventKind::StorageInitialized => Event::StorageInitialized(result_from_wire(self.result, self.failure)?),
            MicroEventKind::ProfileValidated => Event::ProfileValidated(result_from_wire(self.result, self.failure)?),
            MicroEventKind::DisplayInitialized => Event::DisplayInitialized(result_from_wire(self.result, self.failure)?),
            MicroEventKind::SystemUiInitialized => Event::SystemUiInitialized(result_from_wire(self.result, self.failure)?),
            MicroEventKind::NetworkConfigLoaded => Event::NetworkConfigLoaded { configured: bool_flag(self.flag)? },
            MicroEventKind::SetupSkipped => Event::SetupSkipped,
            MicroEventKind::OpenSettings => Event::OpenSettings,
            MicroEventKind::SetBacklight => Event::SetBacklight(MicroBacklight::from_raw(self.flag)?.into_core()?),
            MicroEventKind::BackPressed => Event::BackPressed,
            MicroEventKind::HomePressed => Event::HomePressed,
            MicroEventKind::OpenApp => Event::OpenApp(self.app.into_core()?),
            MicroEventKind::AppStarted => Event::AppStarted { session: AppSessionId(self.session_id) },
            MicroEventKind::AppFailed => Event::AppFailed {
                session: AppSessionId(self.session_id),
                reason: self.failure.into_core()?,
            },
            MicroEventKind::RestartApp => Event::RestartApp,
            MicroEventKind::AppStopped => Event::AppStopped { session: AppSessionId(self.session_id) },
            MicroEventKind::WifiScanRequested => Event::WifiScanRequested,
            MicroEventKind::WifiScanCompleted => Event::WifiScanCompleted { operation: WifiOperationId(self.operation_id) },
            MicroEventKind::WifiScanFailed => Event::WifiScanFailed {
                operation: WifiOperationId(self.operation_id),
                reason: self.wifi_failure.into_core()?,
            },
            MicroEventKind::WifiConnectRequested => Event::WifiConnectRequested,
            MicroEventKind::WifiConnected => Event::WifiConnected { operation: WifiOperationId(self.operation_id) },
            MicroEventKind::WifiPersisted => Event::WifiPersisted { operation: WifiOperationId(self.operation_id) },
            MicroEventKind::WifiFailed => Event::WifiFailed {
                operation: WifiOperationId(self.operation_id),
                reason: self.wifi_failure.into_core()?,
            },
            MicroEventKind::ReconnectDue => Event::ReconnectDue { reconnect: WifiOperationId(self.operation_id) },
            MicroEventKind::ReconnectNowRequested => Event::ReconnectNowRequested,
            MicroEventKind::ClearNetworkRequested => Event::ClearNetworkRequested,
            MicroEventKind::ClearNetworkConfirmed => Event::ClearNetworkConfirmed {
                confirmation: ConfirmationId(self.confirmation_id),
            },
            MicroEventKind::ClearNetworkCompleted => Event::ClearNetworkCompleted {
                confirmation: ConfirmationId(self.confirmation_id),
                result: result_from_wire(self.result, self.failure)?,
            },
            MicroEventKind::FactoryResetRequested => Event::FactoryResetRequested,
            MicroEventKind::FactoryResetConfirmed => Event::FactoryResetConfirmed {
                confirmation: ConfirmationId(self.confirmation_id),
            },
            MicroEventKind::FactoryResetCompleted => Event::FactoryResetCompleted {
                confirmation: ConfirmationId(self.confirmation_id),
                result: result_from_wire(self.result, self.failure)?,
            },
            MicroEventKind::RebootRequested => Event::RebootRequested,
        };
        Ok(event)
    }

    /// Builds a wire record from raw C values, refusing unknown tags and
    /// non-zero reserved fields.
    pub fn from_raw(
        kind: u32,
        result: u32,
        failure: u32,
        wifi_failure: u32,
        app: u32,
        flag: u32,
        after_secs: u32,
        reserved: u32,
        session_id: u64,
        operation_id: u64,
        confirmation_id: u64,
    ) -> (r: Result<MicroEvent, MicroErrorCode>)
        ensures
            r is Ok <==> (reserved == 0 && after_secs == 0 && kind < 32 && result <= 2 && failure <= 6
                && wifi_failure <= 4 && app <= 1),
            match r {
                Ok(wire) => wire.kind.spec_code() == kind && wire.result.spec_code() == result
                    && wire.failure.spec_code() == failure && wire.wifi_failure.spec_code() == wifi_failure
                    && wire.app.spec_code() == app && wire.flag == flag && wire.after_secs == after_secs
                    && wire.reserved == reserved && wire.session_id == session_id
                    && wire.operation_id == operation_id && wire.confirmation_id == confirmation_id,
                Err(code) => code == MicroErrorCode::InvalidArgument,
            },
    {
        if reserved != 0 || after_secs != 0 {
            return Err(MicroErrorCode::InvalidArgument);
        }
        Ok(MicroEvent {
            kind: MicroEventKind::from_raw(kind)?,
            result: MicroResult::from_raw(result)?,
            failure: MicroFailureReason::from_raw(failure)?,
            wifi_failure: MicroWifiFailure::from_raw(wifi_failure)?,
            app: MicroAppId::from_raw(app)?,
            flag,
            after_secs,
            reserved,
            session_id,
            operation_id,
            confirmation_id,
        })
    }
}

fn bool_flag(value: u32) -> (r: Result<bool, MicroErrorCode>)
    ensures
        match r {
            Ok(b) => (if b { 1u32 } else { 0u32 }) == value,
            Err(e) => e == MicroErrorCode::InvalidArgument && value > 1,
        },
{
    match value {
        0 => Ok(false),
        1 => Ok(true),
        _ => Err(MicroErrorCode::InvalidArgument),
    }
}

fn result_from_wire(result: MicroResult, failure: MicroFailureReason) -> (r: Result<Result<(), FailureReason>, MicroErrorCode>)
    requires
        (result == MicroResult::Success && failure == MicroFailureReason::Unused)
            || (result == MicroResult::Failure && failure != MicroFailureReason::Unused),
    ensures
        match r {
            Ok(v) => MicroEvent::spec_empty(MicroEventKind::BootSampled).with_result(v).result == result
                && MicroEvent::spec_empty(MicroEventKind::BootSampled).with_result(v).failure == failure,
            Err(_) => false,
        },
{
    match result {
        MicroResult::Success => Ok(Ok(())),
        MicroResult::Failure => match failure.into_core() {
            Ok(reason) => Ok(Err(reason)),
            Err(e) => Err(e),
        },
        MicroResult::Unused => Err(MicroErrorCode::InvalidArgument),
    }
}

proof fn lemma_result_wire_injective(r1: Result<(), FailureReason>, r2: Result<(), FailureReason>)
    ensures
        forall|w: MicroEvent| #[trigger] w.with_result(r1) == w.with_result(r2) ==> r1 == r2,
{
    assert forall|w: MicroEvent| #[trigger] w.with_result(r1) == w.with_result(r2) implies r1 == r2 by {
        match (r1, r2) {
            (Err(a), Err(b)) => {
                assert(w.with_result(r1).failure == MicroFailureReason::spec_from(a));
                assert(w.with_result(r2).failure == MicroFailureReason::spec_from(b));
                match a {
                    FailureReason::SafeModeRequested => { assert(b == a); },
                    FailureReason::StorageCorrupt => {},
                    FailureReason::InvalidBoardProfile => {},
                    FailureReason::HardwareUnavailable => {},
                    FailureReason::AppCrashed => {},
                    FailureReason::Internal => {},
                }
            },
            (Ok(_), Err(_)) => assert(w.with_result(r1).result != w.with_result(r2).result),
            (Err(_), Ok(_)) => assert(w.with_result(r1).result != w.with_result(r2).result),
            (Ok(x), Ok(y)) => { assert(x == y); },
        }
    }
}

/// Every event's wire record is well formed, and no two events share one,
/// so decoding the record of an event gives that event back.
pub proof fn lemma_event_encoding_injective(a: Event, b: Event)
    ensures
        MicroEvent::spec_from_core(a).well_formed(),
        MicroEvent::spec_from_core(a) == MicroEvent::spec_from_core(b) ==> a == b,
{
    match (a, b) {
        (Event::BootSampled { .. }, Event::BootSampled { .. }) => {},
        (Event::StorageInitialized(r1), Event::StorageInitialized(r2)) => lemma_result_wire_injective(r1, r2),
        (Event::ProfileValidated(r1), Event::ProfileValidated(r2)) => lemma_result_wire_injective(r1, r2),
        (Event::DisplayInitialized(r1), Event::DisplayInitialized(r2)) => lemma_result_wire_injective(r1, r2),
        (Event::SystemUiInitialized(r1), Event::SystemUiInitialized(r2)) => lemma_result_wire_injective(r1, r2),
        (Event::NetworkConfigLoaded { .. }, Event::NetworkConfigLoaded { .. }) => {},
        (Event::SetupSkipped, Event::SetupSkipped) => {},
        (Event::OpenSettings, Event::OpenSettings) => {},
        (Event::SetBacklight(..), Event::SetBacklight(..)) => {},
        (Event::BackPressed, Event::BackPressed) => {},
        (Event::HomePressed, Event::HomePressed) => {},
        (Event::OpenApp(..), Event::OpenApp(..)) => {},
        (Event::AppStarted { .. }, Event::AppStarted { .. }) => {},
        (Event::AppFailed { .. }, Event::AppFailed { .. }) => {},
        (Event::RestartApp, Event::RestartApp) => {},
        (Event::AppStopped { .. }, Event::AppStopped { .. }) => {},
        (Event::WifiScanRequested, Event::WifiScanRequested) => {},
        (Event::WifiScanCompleted { .. }, Event::WifiScanCompleted { .. }) => {},
        (Event::WifiScanFailed { .. }, Event::WifiScanFailed { .. }) => {},
        (Event::WifiConnectRequested, Event::WifiConnectRequested) => {},
        (Event::WifiConnected { .. }, Event::WifiConnected { .. }) => {},
        (Event::WifiPersisted { .. }, Event::WifiPersisted { .. }) => {},
        (Event::WifiFailed { .. }, Event::WifiFailed { .. }) => {},
        (Event::ReconnectDue { .. }, Event::ReconnectDue { .. }) => {},
        (Event::ReconnectNowRequested, Event::ReconnectNowRequested) => {},
        (Event::ClearNetworkRequested, Event::ClearNetworkRequested) => {},
        (Event::ClearNetworkConfirmed { .. }, Event::ClearNetworkConfirmed { .. }) => {},
        (Event::ClearNetworkCompleted { result: r1, .. }, Event::ClearNetworkCompleted { result: r2, .. }) => lemma_result_wire_injective(r1, r2),
        (Event::FactoryResetRequested, Event::FactoryResetRequested) => {},
        (Event::FactoryResetConfirmed { .. }, Event::FactoryResetConfirmed { .. }) => {},
        (Event::FactoryResetCompleted { result: r1, .. }, Event::FactoryResetCompleted { result: r2, .. }) => lemma_result_wire_injective(r1, r2),
        (Event::RebootRequested, Event::RebootRequested) => {},
        _ => {
            assert(event_kind(a) != event_kind(b));
        },
    }
}



/// One OS reducer action in the fixed C layout. A composite action is a
/// header with `kind == Actions` and `child_count`, followed by its children.
#[derive(Debug, Clone, Copy, PartialEq, Eq, Structural)]
pub struct MicroAction {
    pub kind: MicroActionKind,
    pub child_count: u32,
    pub failure: MicroFailureReason,
    pub app: MicroAppId,
    pub after_secs: u32,
    pub backlight: MicroBacklight,
    pub reserved_1: u32,
    pub reserved_2: u32,
    pub session_id: u64,
    pub operation_id: u64,
    pub confirmation_id: u64,
}

pub open spec fn action_kind(action: Action) -> MicroActionKind {
    match action {
        Action::Nothing => MicroActionKind::Nothing,
        Action::Rejected => MicroActionKind::Rejected,
        Action::Actions(..) => MicroActionKind::Actions,
        Action::EnterSafeMode(..) => MicroActionKind::EnterSafeMode,
        Action::InitializeStorage => MicroActionKind::InitializeStorage,
        Action::ValidateProfile => MicroActionKind::ValidateProfile,
        Action::InitializeDisplay => MicroActionKind::InitializeDisplay,
        Action::InitializeSystemUi => MicroActionKind::InitializeSystemUi,
        Action::LoadNetworkConfig => MicroActionKind::LoadNetworkConfig,
        Action::ShowFirstRunSetup => MicroActionKind::ShowFirstRunSetup,
        Action::ShowLauncher => MicroActionKind::ShowLauncher,
        Action::ShowSettings => MicroActionKind::ShowSettings,
        Action::StartWifiScan { .. } => MicroActionKind::StartWifiScan,
        Action::ConnectWifi { .. } => MicroActionKind::ConnectWifi,
        Action::ConnectSavedWifi { .. } => MicroActionKind::ConnectSavedWifi,
        Action::PersistWifi { .. } => MicroActionKind::PersistWifi,
        Action::ClearPendingWifi { .. } => MicroActionKind::ClearPendingWifi,
        Action::ScheduleWifiReconnect { .. } => MicroActionKind::ScheduleWifiReconnect,
        Action::StartApp { .. } => MicroActionKind::StartApp,
        Action::StopApp { .. } => MicroActionKind::StopApp,
        Action::ShowAppError { .. } => MicroActionKind::ShowAppError,
        Action::ConfirmClearNetwork { .. } => MicroActionKind::ConfirmClearNetwork,
        Action::ClearNetwork { .. } => MicroActionKind::ClearNetwork,
        Action::ConfirmFactoryReset { .. } => MicroActionKind::ConfirmFactoryReset,
        Action::FactoryReset { .. } => MicroActionKind::FactoryReset,
        Action::Reboot => MicroActionKind::Reboot,
        Action::ApplyBacklight(..) => MicroActionKind::ApplyBacklight,
    }
}

impl MicroAction {
    pub open spec fn spec_new(kind: MicroActionKind) -> MicroAction {
        MicroAction {
            kind,
            child_count: 0,
            failure: MicroFailureReason::Unused,
            app: MicroAppId::Unused,
            after_secs: 0,
            backlight: MicroBacklight::Unused,
            reserved_1: 0,
            reserved_2: 0,
            session_id: 0,
            operation_id: 0,
            confirmation_id: 0,
        }
    }

    /// A record of the given kind with every payload field zero.
    pub fn new(kind: MicroActionKind) -> (wire: MicroAction)
        ensures
            wire == Self::spec_new(kind),
    {
        MicroAction {
            kind,
            child_count: 0,
            failure: MicroFailureReason::Unused,
            app: MicroAppId::Unused,
            after_secs: 0,
            backlight: MicroBacklight::Unused,
            reserved_1: 0,
            reserved_2: 0,
            session_id: 0,
            operation_id: 0,
            confirmation_id: 0,
        }
    }
}

/// The record of a non-composite action.
pub open spec fn leaf_wire(action: Action) -> MicroAction {
    let wire = MicroAction::spec_new(action_kind(action));
    match action {
        Action::EnterSafeMode(reason) => MicroAction { failure: MicroFailureReason::spec_from(reason), ..wire },
        Action::ApplyBacklight(backlight) => MicroAction { backlight: MicroBacklight::spec_from(backlight), ..wire },
        Action::StartWifiScan { operation } | Action::ConnectWifi { operation } | Action::ConnectSavedWifi { operation }
        | Action::PersistWifi { operation } | Action::ClearPendingWifi { operation } =>
            MicroAction { operation_id: operation.0, ..wire },
        Action::ScheduleWifiReconnect { reconnect, after_secs } =>
            MicroAction { operation_id: reconnect.0, after_secs, ..wire },
        Action::StartApp { app, session } | Action::StopApp { app, session } =>
            MicroAction { app: MicroAppId::spec_from(app), session_id: session.0, ..wire },
        Action::ShowAppError { app, session, reason } => MicroAction {
            app: MicroAppId::spec_from(app),
            session_id: session.0,
            failure: MicroFailureReason::spec_from(reason),
            ..wire
        },
        Action::ConfirmClearNetwork { confirmation } | Action::ClearNetwork { confirmation }
        | Action::ConfirmFactoryReset { confirmation } | Action::FactoryReset { confirmation } =>
            MicroAction { confirmation_id: confirmation.0, ..wire },
        _ => wire,
    }
}

/// The child count recorded for a group of `n` children.
pub open spec fn group_count(n: nat) -> u32 {
    if n <= u32::MAX { n as u32 } else { u32::MAX }
}

/// The pre-order wire form of an action tree.
pub open spec fn encode_tree(tree: ActionTree) -> Seq<MicroAction>
    decreases tree,
{
    match tree {
        ActionTree::Leaf(action) => seq![leaf_wire(action)],
        ActionTree::Group(children) => seq![MicroAction {
            child_count: group_count(children.len()),
            ..MicroAction::spec_new(MicroActionKind::Actions)
        }] + encode_trees(children),
    }
}

pub open spec fn encode_trees(trees: Seq<ActionTree>) -> Seq<MicroAction>
    decreases trees,
{
    if trees.len() == 0 {
        Seq::empty()
    } else {
        encode_tree(trees[0]) + encode_trees(trees.drop_first())
    }
}

pub open spec fn failure_of(wire: MicroFailureReason) -> Option<FailureReason> {
    match wire {
        MicroFailureReason::Unused => None,
        MicroFailureReason::SafeModeRequested => Some(FailureReason::SafeModeRequested),
        MicroFailureReason::StorageCorrupt => Some(FailureReason::StorageCorrupt),
        MicroFailureReason::InvalidBoardProfile => Some(FailureReason::InvalidBoardProfile),
        MicroFailureReason::HardwareUnavailable => Some(FailureReason::HardwareUnavailable),
        MicroFailureReason::AppCrashed => Some(FailureReason::AppCrashed),
        MicroFailureReason::Internal => Some(FailureReason::Internal),
    }
}

pub open spec fn app_of(wire: MicroAppId) -> Option<AppId> {
    match wire {
        MicroAppId::Unused => None,
        MicroAppId::Counter => Some(AppId::Counter),
    }
}

pub open spec fn backlight_of(wire: MicroBacklight) -> Option<Backlight> {
    match wire {
        MicroBacklight::Unused => None,
        MicroBacklight::Off => Some(Backlight::Off),
        MicroBacklight::Low => Some(Backlight::Low),
        MicroBacklight::Medium => Some(Backlight::Medium),
        MicroBacklight::High => Some(Backlight::High),
    }
}

/// The non-composite action a record decodes to; only the fields that the
/// kind carries are read.
pub open spec fn leaf_of(wire: MicroAction) -> Option<Action> {
    match wire.kind {
            MicroActionKind::Nothing => Some(Action::Nothing),
            MicroActionKind::Rejected => Some(Action::Rejected),
            MicroActionKind::InitializeStorage => Some(Action::InitializeStorage),
            MicroActionKind::ValidateProfile => Some(Action::ValidateProfile),
            MicroActionKind::InitializeDisplay => Some(Action::InitializeDisplay),
            MicroActionKind::InitializeSystemUi => Some(Action::InitializeSystemUi),
            MicroActionKind::LoadNetworkConfig => Some(Action::LoadNetworkConfig),
            MicroActionKind::ShowFirstRunSetup => Some(Action::ShowFirstRunSetup),
            MicroActionKind::ShowLauncher => Some(Action::ShowLauncher),
            MicroActionKind::ShowSettings => Some(Action::ShowSettings),
            MicroActionKind::Reboot => Some(Action::Reboot),
            MicroActionKind::Actions => None,
            MicroActionKind::EnterSafeMode => match failure_of(wire.failure) {
                Some(reason) => Some(Action::EnterSafeMode(reason)),
                None => None,
            },
            MicroActionKind::ApplyBacklight => match backlight_of(wire.backlight) {
                Some(backlight) => Some(Action::ApplyBacklight(backlight)),
                None => None,
            },
            MicroActionKind::StartWifiScan => Some(Action::StartWifiScan { operation: WifiOperationId(wire.operation_id) }),
            MicroActionKind::ConnectWifi => Some(Action::ConnectWifi { operation: WifiOperationId(wire.operation_id) }),
            MicroActionKind::ConnectSavedWifi => Some(Action::ConnectSavedWifi { operation: WifiOperationId(wire.operation_id) }),
            MicroActionKind::PersistWifi => Some(Action::PersistWifi { operation: WifiOperationId(wire.operation_id) }),
            MicroActionKind::ClearPendingWifi => Some(Action::ClearPendingWifi { operation: WifiOperationId(wire.operation_id) }),
            MicroActionKind::ScheduleWifiReconnect => Some(Action::ScheduleWifiReconnect {
                reconnect: WifiOperationId(wire.operation_id),
                after_secs: wire.after_secs,
            }),
            MicroActionKind::StartApp => match app_of(wire.app) {
                Some(app) => Some(Action::StartApp { app, session: AppSessionId(wire.session_id) }),
                None => None,
            },
            MicroActionKind::StopApp => match app_of(wire.app) {
                Some(app) => Some(Action::StopApp { app, session: AppSessionId(wire.session_id) }),
                None => None,
            },
            MicroActionKind::ShowAppError => match (app_of(wire.app), failure_of(wire.failure)) {
                (Some(app), Some(reason)) => Some(Action::ShowAppError { app, session: AppSessionId(wire.session_id), reason }),
                _ => None,
            },
            MicroActionKind::ConfirmClearNetwork => Some(Action::ConfirmClearNetwork { confirmation: ConfirmationId(wire.confirmation_id) }),
            MicroActionKind::ClearNetwork => Some(Action::ClearNetwork { confirmation: ConfirmationId(wire.confirmation_id) }),
            MicroActionKind::ConfirmFactoryReset => Some(Action::ConfirmFactoryReset { confirmation: ConfirmationId(wire.confirmation_id) }),
            MicroActionKind::FactoryReset => Some(Action::FactoryReset { confirmation: ConfirmationId(wire.confirmation_id) }),
    }
}

/// Parses one action tree starting at `pos`, giving the tree and the
/// position after it.
pub open spec fn parse_at(wires: Seq<MicroAction>, pos: int) -> Option<(ActionTree, int)>
    decreases wires.len() - pos, 0int, 0int,
{
    if pos < 0 || pos >= wires.len() {
        None
    } else if wires[pos].kind == MicroActionKind::Actions {
        match parse_children(wires, pos + 1, wires[pos].child_count as int) {
            Some((children, end)) => Some((ActionTree::Group(children), end)),
            None => None,
        }
    } else {
        match leaf_of(wires[pos]) {
            Some(action) => Some((ActionTree::Leaf(action), pos + 1)),
            None => None,
        }
    }
}

/// Parses `count` consecutive action trees starting at `pos`.
pub open spec fn parse_children(wires: Seq<MicroAction>, pos: int, count: int) -> Option<(Seq<ActionTree>, int)>
    decreases wires.len() - pos, 1int, count,
{
    if count <= 0 {
        Some((Seq::empty(), pos))
    } else {
        match parse_at(wires, pos) {
            None => None,
            Some((tree, mid)) => if mid <= pos || mid > wires.len() {
                None
            } else {
                match parse_children(wires, mid, count - 1) {
                    Some((rest, end)) => Some((seq![tree] + rest, end)),
                    None => None,
                }
            },
        }
    }
}

/// An action tree whose wire form decodes back to it: no leaf is itself a
/// composite and no group has more children than a record can count.
pub open spec fn encodable(tree: ActionTree) -> bool
    decreases tree,
{
    match tree {
        ActionTree::Leaf(action) => !(action is Actions),
        ActionTree::Group(children) => children.len() <= u32::MAX && encodable_all(children),
    }
}

pub open spec fn encodable_all(trees: Seq<ActionTree>) -> bool
    decreases trees,
{
    trees.len() > 0 ==> encodable(trees[0]) && encodable_all(trees.drop_first())
}


proof fn lemma_failure_wire(reason: FailureReason)
    ensures
        failure_of(MicroFailureReason::spec_from(reason)) == Some(reason),
{
    match reason {
        FailureReason::SafeModeRequested => {},
        FailureReason::StorageCorrupt => {},
        FailureReason::InvalidBoardProfile => {},
        FailureReason::HardwareUnavailable => {},
        FailureReason::AppCrashed => {},
        FailureReason::Internal => {},
    }
}

/// A non-composite action's record decodes to that action.
proof fn lemma_leaf_round_trip(action: Action)
    requires
        !(action is Actions),
    ensures
        leaf_wire(action).kind != MicroActionKind::Actions,
        leaf_of(leaf_wire(action)) == Some(action),
{
    match action {
        Action::Nothing => {},
        Action::Rejected => {},
        Action::Actions(..) => {},
        Action::EnterSafeMode(reason) => lemma_failure_wire(reason),
        Action::InitializeStorage => {},
        Action::ValidateProfile => {},
        Action::InitializeDisplay => {},
        Action::InitializeSystemUi => {},
        Action::LoadNetworkConfig => {},
        Action::ShowFirstRunSetup => {},
        Action::ShowLauncher => {},
        Action::ShowSettings => {},
        Action::StartWifiScan { .. } => {},
        Action::ConnectWifi { .. } => {},
        Action::ConnectSavedWifi { .. } => {},
        Action::PersistWifi { .. } => {},
        Action::ClearPendingWifi { .. } => {},
        Action::ScheduleWifiReconnect { .. } => {},
        Action::StartApp { .. } => {},
        Action::StopApp { .. } => {},
        Action::ShowAppError { reason, .. } => lemma_failure_wire(reason),
        Action::ConfirmClearNetwork { .. } => {},
        Action::ClearNetwork { .. } => {},
        Action::ConfirmFactoryReset { .. } => {},
        Action::FactoryReset { .. } => {},
        Action::Reboot => {},
        Action::ApplyBacklight(b) => { match b { Backlight::Off => {}, Backlight::Low => {}, Backlight::Medium => {}, Backlight::High => {} } },
    }
}

proof fn lemma_encoded_length(tree: ActionTree)
    ensures
        encode_tree(tree).len() >= 1,
    decreases tree,
{
}

/// Appending a tree to a sequence of trees appends its wire form.
proof fn lemma_encode_trees_push(trees: Seq<ActionTree>, tree: ActionTree)
    ensures
        encode_trees(trees.push(tree)) == encode_trees(trees) + encode_tree(tree),
    decreases trees.len(),
{
    if trees.len() == 0 {
        assert(trees.push(tree).drop_first() =~= Seq::<ActionTree>::empty());
        assert(trees.push(tree)[0] == tree);
        assert(encode_trees(Seq::<ActionTree>::empty()) =~= Seq::<MicroAction>::empty());
        assert(encode_trees(trees) =~= Seq::<MicroAction>::empty());
        assert(encode_trees(trees.push(tree)) =~= encode_tree(tree) + Seq::<MicroAction>::empty());
    } else {
        assert(trees.push(tree).drop_first() =~= trees.drop_first().push(tree));
        lemma_encode_trees_push(trees.drop_first(), tree);
        assert(encode_trees(trees.push(tree)) =~= encode_tree(trees[0]) + (encode_trees(trees.drop_first()) + encode_tree(tree)));
    }
}

/// Parsing at the start of an encoded tree yields that tree and the
/// position just after its wire form.
proof fn lemma_parse_encoded(tree: ActionTree, wires: Seq<MicroAction>, pos: int)
    requires
        encodable(tree),
        0 <= pos,
        pos + encode_tree(tree).len() <= wires.len(),
        wires.subrange(pos, pos + encode_tree(tree).len()) == encode_tree(tree),
    ensures
        parse_at(wires, pos) == Some((tree, pos + encode_tree(tree).len())),
    decreases tree, 1int,
{
    match tree {
        ActionTree::Leaf(action) => {
            lemma_leaf_round_trip(action);
            assert(wires[pos] == wires.subrange(pos, pos + 1)[0]);
        },
        ActionTree::Group(children) => {
            let header = MicroAction { child_count: group_count(children.len()), ..MicroAction::spec_new(MicroActionKind::Actions) };
            assert(wires[pos] == wires.subrange(pos, pos + encode_tree(tree).len())[0]);
            assert(encode_tree(tree)[0] == header);
            let rest = encode_trees(children);
            assert(wires.subrange(pos + 1, pos + 1 + rest.len()) =~= wires.subrange(pos, pos + encode_tree(tree).len()).subrange(1, 1 + rest.len() as int));
            assert(encode_tree(tree).subrange(1, 1 + rest.len() as int) =~= rest);
            lemma_parse_encoded_children(children, wires, pos + 1);
        },
    }
}

proof fn lemma_parse_encoded_children(trees: Seq<ActionTree>, wires: Seq<MicroAction>, pos: int)
    requires
        encodable_all(trees),
        0 <= pos,
        pos + encode_trees(trees).len() <= wires.len(),
        wires.subrange(pos, pos + encode_trees(trees).len()) == encode_trees(trees),
    ensures
        parse_children(wires, pos, trees.len() as int) == Some((trees, pos + encode_trees(trees).len())),
    decreases trees, 0int,
{
    if trees.len() > 0 {
        let first = encode_tree(trees[0]);
        let rest = encode_trees(trees.drop_first());
        lemma_encoded_length(trees[0]);
        assert(wires.subrange(pos, pos + first.len()) =~= wires.subrange(pos, pos + encode_trees(trees).len()).subrange(0, first.len() as int));
        assert(encode_trees(trees).subrange(0, first.len() as int) =~= first);
        lemma_parse_encoded(trees[0], wires, pos);
        assert(wires.subrange(pos + first.len(), pos + first.len() + rest.len()) =~= wires.subrange(pos, pos + encode_trees(trees).len()).subrange(first.len() as int, encode_trees(trees).len() as int));
        assert(encode_trees(trees).subrange(first.len() as int, encode_trees(trees).len() as int) =~= rest);
        lemma_parse_encoded_children(trees.drop_first(), wires, pos + first.len());
        assert(seq![trees[0]] + trees.drop_first() =~= trees);
    } else {
        assert(trees =~= Seq::<ActionTree>::empty());
    }
}

/// Decoding the wire form of an encodable action gives that action back.
pub proof fn lemma_action_round_trip(tree: ActionTree)
    requires
        encodable(tree),
    ensures
        parse_at(encode_tree(tree), 0) == Some((tree, encode_tree(tree).len() as int)),
{
    assert(encode_tree(tree).subrange(0, encode_tree(tree).len() as int) =~= encode_tree(tree));
    lemma_parse_encoded(tree, encode_tree(tree), 0);
}


/// A parsed tree spans exactly as many records as its encoding.
pub proof fn lemma_parse_span(wires: Seq<MicroAction>, pos: int)
    ensures
        parse_at(wires, pos) matches Some((tree, end)) ==> end - pos == encode_tree(tree).len(),
    decreases wires.len() - pos, 0int, 0int,
{
    if 0 <= pos < wires.len() && wires[pos].kind == MicroActionKind::Actions {
        lemma_parse_children_span(wires, pos + 1, wires[pos].child_count as int);
    }
}

/// Parsed trees span exactly as many records as their encodings.
pub proof fn lemma_parse_children_span(wires: Seq<MicroAction>, pos: int, count: int)
    ensures
        parse_children(wires, pos, count) matches Some((trees, end)) ==> end - pos == encode_trees(trees).len(),
    decreases wires.len() - pos, 1int, count,
{
    if count > 0 {
        lemma_parse_span(wires, pos);
        match parse_at(wires, pos) {
            Some((tree, mid)) => {
                if mid > pos && mid <= wires.len() {
                    lemma_parse_children_span(wires, mid, count - 1);
                    match parse_children(wires, mid, count - 1) {
                        Some((rest, end)) => {
                            let trees = seq![tree] + rest;
                            assert(trees[0] == tree);
                            assert(trees.drop_first() =~= rest);
                        },
                        None => {},
                    }
                }
            },
            None => {},
        }
    }
}

/// A batch that decodes uses every record: the records are exactly as many
/// as the decoded action's encoding has.
pub proof fn lemma_decoded_batch_span(wires: Seq<MicroAction>, action: Action)
    requires
        parse_at(wires, 0) == Some((crate::os::action_tree(action), wires.len() as int)),
    ensures
        wires.len() == encode_tree(crate::os::action_tree(action)).len(),
{
    lemma_parse_span(wires, 0);
}

/// Decoding the records `encode_action_batch` writes for an encodable
/// action gives back that action: the same non-composite action, or a
/// composite whose children decode, in order, to the same actions. (Two
/// `Vec`s are not equal in specifications merely by holding the same
/// items, so composites are compared through their trees.)
pub proof fn lemma_batch_round_trip(a: Action, b: Action)
    requires
        encodable(crate::os::action_tree(a)),
        parse_at(encode_tree(crate::os::action_tree(a)), 0) matches Some((t, _)) && t == crate::os::action_tree(b),
    ensures
        crate::os::action_tree(b) == crate::os::action_tree(a),
        !(a is Actions) ==> b == a,
        a matches Action::Actions(ca) ==> (b matches Action::Actions(cb) && cb@.len() == ca@.len() && forall|
            i: int,
        |
            0 <= i < ca@.len() ==> crate::os::action_tree(#[trigger] cb@[i]) == crate::os::action_tree(ca@[i])),
{
    lemma_action_round_trip(crate::os::action_tree(a));
    crate::os::lemma_action_tree_injective(a, b);
}

/// The record of a non-composite action (a composite gets its header kind).
fn leaf_record(action: &Action) -> (wire: MicroAction)
    ensures
        !(*action is Actions) ==> wire == leaf_wire(*action),
{
    let mut wire = MicroAction::new(match action {
            Action::Nothing => MicroActionKind::Nothing,
            Action::Rejected => MicroActionKind::Rejected,
            Action::Actions(..) => MicroActionKind::Actions,
            Action::EnterSafeMode(..) => MicroActionKind::EnterSafeMode,
            Action::InitializeStorage => MicroActionKind::InitializeStorage,
            Action::ValidateProfile => MicroActionKind::ValidateProfile,
            Action::InitializeDisplay => MicroActionKind::InitializeDisplay,
            Action::InitializeSystemUi => MicroActionKind::InitializeSystemUi,
            Action::LoadNetworkConfig => MicroActionKind::LoadNetworkConfig,
            Action::ShowFirstRunSetup => MicroActionKind::ShowFirstRunSetup,
            Action::ShowLauncher => MicroActionKind::ShowLauncher,
            Action::ShowSettings => MicroActionKind::ShowSettings,
            Action::StartWifiScan { .. } => MicroActionKind::StartWifiScan,
            Action::ConnectWifi { .. } => MicroActionKind::ConnectWifi,
            Action::ConnectSavedWifi { .. } => MicroActionKind::ConnectSavedWifi,
            Action::PersistWifi { .. } => MicroActionKind::PersistWifi,
            Action::ClearPendingWifi { .. } => MicroActionKind::ClearPendingWifi,
            Action::ScheduleWifiReconnect { .. } => MicroActionKind::ScheduleWifiReconnect,
            Action::StartApp { .. } => MicroActionKind::StartApp,
            Action::StopApp { .. } => MicroActionKind::StopApp,
            Action::ShowAppError { .. } => MicroActionKind::ShowAppError,
            Action::ConfirmClearNetwork { .. } => MicroActionKind::ConfirmClearNetwork,
            Action::ClearNetwork { .. } => MicroActionKind::ClearNetwork,
            Action::ConfirmFactoryReset { .. } => MicroActionKind::ConfirmFactoryReset,
            Action::FactoryReset { .. } => MicroActionKind::FactoryReset,
            Action::Reboot => MicroActionKind::Reboot,
            Action::ApplyBacklight(..) => MicroActionKind::ApplyBacklight,
    });
    match action {
        Action::EnterSafeMode(reason) => wire.failure = MicroFailureReason::from_core(*reason),
        Action::ApplyBacklight(backlight) => wire.backlight = MicroBacklight::from_core(*backlight),
        Action::StartWifiScan { operation } | Action::ConnectWifi { operation } | Action::ConnectSavedWifi { operation }
        | Action::PersistWifi { operation } | Action::ClearPendingWifi { operation } => wire.operation_id = operation.0,
        Action::ScheduleWifiReconnect { reconnect, after_secs } => {
            wire.operation_id = reconnect.0;
            wire.after_secs = *after_secs;
        },
        Action::StartApp { app, session } | Action::StopApp { app, session } => {
            wire.app = MicroAppId::from_core(*app);
            wire.session_id = session.0;
        },
        Action::ShowAppError { app, session, reason } => {
            wire.app = MicroAppId::from_core(*app);
            wire.session_id = session.0;
            wire.failure = MicroFailureReason::from_core(*reason);
        },
        Action::ConfirmClearNetwork { confirmation } | Action::ClearNetwork { confirmation }
        | Action::ConfirmFactoryReset { confirmation } | Action::FactoryReset { confirmation } =>
            wire.confirmation_id = confirmation.0,
        _ => {},
    }
    wire
}

fn encode_action(action: &Action, output: &mut Vec<MicroAction>)
    ensures
        final(output)@ == old(output)@ + encode_tree(crate::os::action_tree(*action)),
    decreases action,
{
    match action {
        Action::Actions(children) => {
            let count: u32 = if children.len() <= 0xffff_ffff { children.len() as u32 } else { 0xffff_ffff };
            let mut header = MicroAction::new(MicroActionKind::Actions);
            header.child_count = count;
            output.push(header);
            let ghost start = old(output)@ + seq![header];
            let mut i: usize = 0;
            assert(children@.take(0) =~= Seq::<Action>::empty());
            assert(output@ =~= start + encode_trees(crate::os::action_trees(children@.take(0))));
            while i < children.len()
                invariant
                    *action == Action::Actions(*children),
                    i <= children.len(),
                    output@ == start + encode_trees(crate::os::action_trees(children@.take(i as int))),
                decreases children.len() - i,
            {
                proof {
                    assert(decreases_to!(*action => (*action)->Actions_0));
                    assert(decreases_to!(*children => children@));
                    assert(decreases_to!(children@ => children@[i as int]));
                    crate::os::lemma_action_trees_take(children@, i as int);
                    lemma_encode_trees_push(crate::os::action_trees(children@.take(i as int)), crate::os::action_tree(children@[i as int]));
                }
                encode_action(&children[i], output);
                i = i + 1;
            }
            proof {
                assert(children@.take(children.len() as int) =~= children@);
                if children.len() > 0 {
                    crate::os::lemma_action_trees_take(children@, children.len() - 1);
                }
                assert(crate::os::action_trees(children@).len() == children.len());
                assert(old(output)@ + encode_tree(crate::os::action_tree(*action)) =~= start + encode_trees(crate::os::action_trees(children@)));
            }
        },
        _ => {
            output.push(leaf_record(action));
        },
    }
}

/// How many records a tree takes: one per action, groups included.
pub open spec fn tree_size(tree: ActionTree) -> nat
    decreases tree,
{
    match tree {
        ActionTree::Leaf(_) => 1,
        ActionTree::Group(children) => 1 + trees_size(children),
    }
}

pub open spec fn trees_size(trees: Seq<ActionTree>) -> nat
    decreases trees,
{
    if trees.len() == 0 {
        0
    } else {
        tree_size(trees[0]) + trees_size(trees.drop_first())
    }
}

/// A batch holds one record per action of the tree, groups included.
pub proof fn lemma_batch_size(tree: ActionTree)
    ensures
        encode_tree(tree).len() == tree_size(tree),
    decreases tree,
{
    match tree {
        ActionTree::Leaf(_) => {},
        ActionTree::Group(children) => lemma_batch_sizes(children),
    }
}

proof fn lemma_batch_sizes(trees: Seq<ActionTree>)
    ensures
        encode_trees(trees).len() == trees_size(trees),
    decreases trees,
{
    if trees.len() > 0 {
        lemma_batch_size(trees[0]);
        lemma_batch_sizes(trees.drop_first());
    }
}

/// The encodings of a list of trees are their own encodings, one after the
/// other in order.
proof fn lemma_encode_trees_flat(trees: Seq<ActionTree>)
    ensures
        encode_trees(trees) == trees.map_values(|t: ActionTree| encode_tree(t)).flatten(),
    decreases trees.len(),
{
    if trees.len() > 0 {
        lemma_encode_trees_flat(trees.drop_first());
        assert(trees.drop_first().map_values(|t: ActionTree| encode_tree(t)) =~= trees.map_values(
            |t: ActionTree| encode_tree(t),
        ).drop_first());
    }
}

/// The layout of an action's batch: a non-composite action is one record,
/// `MicroAction::new` of its kind with its own payload; a composite is a
/// group record carrying its child count, then the batches of its children,
/// one after the other in order.
pub proof fn lemma_batch_layout(action: Action)
    ensures
        !(action is Actions) ==> encode_tree(crate::os::action_tree(action)) == seq![leaf_wire(action)],
        action matches Action::Actions(children) ==> encode_tree(crate::os::action_tree(action)) == seq![
            MicroAction {
                child_count: group_count(children@.len()),
                ..MicroAction::spec_new(MicroActionKind::Actions)
            },
        ] + children@.map_values(|c: Action| encode_tree(crate::os::action_tree(c))).flatten(),
{
    match action {
        Action::Actions(children) => {
            crate::os::lemma_action_trees_index(children@);
            let trees = crate::os::action_trees(children@);
            lemma_encode_trees_flat(trees);
            assert(trees.map_values(|t: ActionTree| encode_tree(t)) =~= children@.map_values(
                |c: Action| encode_tree(crate::os::action_tree(c)),
            ));
        },
        _ => {},
    }
}

/// Flattens an action into its pre-order wire records.
pub fn encode_action_batch(action: &Action) -> (records: Vec<MicroAction>)
    ensures
        records@ == encode_tree(crate::os::action_tree(*action)),
{
    let mut output = Vec::new();
    encode_action(action, &mut output);
    assert(output@ =~= encode_tree(crate::os::action_tree(*action)));
    output
}

/// Why a dispatch could not deliver its actions, and how many records it
/// needed.
#[derive(Debug, Clone, Copy, PartialEq, Eq, Structural)]
pub struct DispatchError {
    pub code: MicroErrorCode,
    pub required: usize,
}

/// Writes an action's records into the front of `output` when they fit;
/// otherwise leaves `output` untouched and reports how many are needed.
pub fn encode_action_into(action: &Action, output: &mut [MicroAction]) -> (r: Result<usize, DispatchError>)
    ensures
        r is Ok <==> old(output)@.len() >= encode_tree(crate::os::action_tree(*action)).len(),
        final(output)@.len() == old(output)@.len(),
        match r {
            Ok(written) => written == encode_tree(crate::os::action_tree(*action)).len()
                && final(output)@ == encode_tree(crate::os::action_tree(*action)) + old(output)@.skip(written as int),
            Err(error) => error.code == MicroErrorCode::BufferTooSmall
                && error.required == encode_tree(crate::os::action_tree(*action)).len()
                && old(output)@.len() < error.required
                && final(output)@ == old(output)@,
        },
{
    let encoded = encode_action_batch(action);
    let required = encoded.len();
    if output.len() < required {
        return Err(DispatchError { code: MicroErrorCode::BufferTooSmall, required });
    }
    let mut i: usize = 0;
    while i < required
        invariant
            i <= required,
            required == encoded@.len(),
            required <= output@.len(),
            output@.len() == old(output)@.len(),
            forall|j: int| 0 <= j < i ==> output@[j] == encoded@[j],
            forall|j: int| i <= j < output@.len() ==> output@[j] == old(output)@[j],
        decreases required - i,
    {
        output[i] = encoded[i];
        i = i + 1;
    }
    assert(output@ =~= encoded@ + old(output)@.skip(required as int));
    Ok(required)
}

fn leaf_from_record(wire: &MicroAction) -> (r: Result<Action, MicroErrorCode>)
    requires
        wire.kind != MicroActionKind::Actions,
    ensures
        match r {
            Ok(action) => leaf_of(*wire) == Some(action),
            Err(code) => code == MicroErrorCode::InvalidArgument && leaf_of(*wire) is None,
        },
{
    match wire.kind {
        MicroActionKind::Nothing => Ok(Action::Nothing),
        MicroActionKind::Rejected => Ok(Action::Rejected),
        MicroActionKind::InitializeStorage => Ok(Action::InitializeStorage),
        MicroActionKind::ValidateProfile => Ok(Action::ValidateProfile),
        MicroActionKind::InitializeDisplay => Ok(Action::InitializeDisplay),
        MicroActionKind::InitializeSystemUi => Ok(Action::InitializeSystemUi),
        MicroActionKind::LoadNetworkConfig => Ok(Action::LoadNetworkConfig),
        MicroActionKind::ShowFirstRunSetup => Ok(Action::ShowFirstRunSetup),
        MicroActionKind::ShowLauncher => Ok(Action::ShowLauncher),
        MicroActionKind::ShowSettings => Ok(Action::ShowSettings),
        MicroActionKind::Reboot => Ok(Action::Reboot),
        MicroActionKind::Actions => Err(MicroErrorCode::InvalidArgument),
        MicroActionKind::EnterSafeMode => Ok(Action::EnterSafeMode(wire.failure.into_core()?)),
        MicroActionKind::ApplyBacklight => Ok(Action::ApplyBacklight(wire.backlight.into_core()?)),
        MicroActionKind::StartWifiScan => Ok(Action::StartWifiScan { operation: WifiOperationId(wire.operation_id) }),
        MicroActionKind::ConnectWifi => Ok(Action::ConnectWifi { operation: WifiOperationId(wire.operation_id) }),
        MicroActionKind::ConnectSavedWifi => Ok(Action::ConnectSavedWifi { operation: WifiOperationId(wire.operation_id) }),
        MicroActionKind::PersistWifi => Ok(Action::PersistWifi { operation: WifiOperationId(wire.operation_id) }),
        MicroActionKind::ClearPendingWifi => Ok(Action::ClearPendingWifi { operation: WifiOperationId(wire.operation_id) }),
        MicroActionKind::ScheduleWifiReconnect => Ok(Action::ScheduleWifiReconnect {
            reconnect: WifiOperationId(wire.operation_id),
            after_secs: wire.after_secs,
        }),
        MicroActionKind::StartApp => Ok(Action::StartApp { app: wire.app.into_core()?, session: AppSessionId(wire.session_id) }),
        MicroActionKind::StopApp => Ok(Action::StopApp { app: wire.app.into_core()?, session: AppSessionId(wire.session_id) }),
        MicroActionKind::ShowAppError => {
            let app = wire.app.into_core()?;
            let reason = wire.failure.into_core()?;
            Ok(Action::ShowAppError { app, session: AppSessionId(wire.session_id), reason })
        },
        MicroActionKind::ConfirmClearNetwork => Ok(Action::ConfirmClearNetwork { confirmation: ConfirmationId(wire.confirmation_id) }),
        MicroActionKind::ClearNetwork => Ok(Action::ClearNetwork { confirmation: ConfirmationId(wire.confirmation_id) }),
        MicroActionKind::ConfirmFactoryReset => Ok(Action::ConfirmFactoryReset { confirmation: ConfirmationId(wire.confirmation_id) }),
        MicroActionKind::FactoryReset => Ok(Action::FactoryReset { confirmation: ConfirmationId(wire.confirmation_id) }),
    }
}

fn decode_action(actions: &[MicroAction], pos: usize) -> (r: Result<(Action, usize), MicroErrorCode>)
    ensures
        match r {
            Ok((action, end)) => parse_at(actions@, pos as int) == Some((crate::os::action_tree(action), end as int))
                && pos < end <= actions@.len(),
            Err(code) => code == MicroErrorCode::InvalidArgument && parse_at(actions@, pos as int) is None,
        },
    decreases actions@.len() - pos,
{
    if pos >= actions.len() {
        return Err(MicroErrorCode::InvalidArgument);
    }
    let wire = &actions[pos];
    if wire.kind != MicroActionKind::Actions {
        let action = leaf_from_record(wire)?;
        return Ok((action, pos + 1));
    }
    let count = wire.child_count;
    let ghost s = actions@;
    let mut children: Vec<Action> = Vec::new();
    let mut cursor: usize = pos + 1;
    let mut k: u32 = 0;
    assert(crate::os::action_trees(children@) =~= Seq::<ActionTree>::empty());
    while k < count
        invariant
            pos < cursor <= s.len(),
            s == actions@,
            pos < s.len(),
            count == s[pos as int].child_count,
            s[pos as int].kind == MicroActionKind::Actions,
            k <= count,
            children@.len() == k,
            parse_children(s, pos + 1, count as int) == match parse_children(s, cursor as int, (count - k) as int) {
                Some((rest, end)) => Some((crate::os::action_trees(children@) + rest, end)),
                None => None,
            },
        decreases count - k,
    {
        let (child, next) = match decode_action(actions, cursor) {
            Ok(decoded) => decoded,
            Err(code) => {
                assert(parse_children(s, cursor as int, (count - k) as int) is None);
                assert(parse_children(s, pos + 1, count as int) is None);
                return Err(code);
            },
        };
        proof {
            let ghost before = children@;
            assert(children@.push(child).drop_last() =~= before);
            assert(crate::os::action_trees(children@.push(child)) == crate::os::action_trees(before).push(crate::os::action_tree(child)));
            match parse_children(s, next as int, (count - k - 1) as int) {
                Some((rest, end)) => {
                    assert(crate::os::action_trees(before) + (seq![crate::os::action_tree(child)] + rest)
                        =~= crate::os::action_trees(before).push(crate::os::action_tree(child)) + rest);
                },
                None => {},
            }
        }
        children.push(child);
        cursor = next;
        k = k + 1;
    }
    proof {
        assert(crate::os::action_trees(children@) + Seq::<ActionTree>::empty() =~= crate::os::action_trees(children@));
    }
    Ok((Action::Actions(children), cursor))
}

/// Rebuilds an action from its pre-order wire records; every record must be
/// used.
pub fn decode_action_batch(actions: &[MicroAction]) -> (r: Result<Action, MicroErrorCode>)
    ensures
        match r {
            Ok(action) => parse_at(actions@, 0) == Some((crate::os::action_tree(action), actions@.len() as int)),
            Err(code) => code == MicroErrorCode::InvalidArgument
                && !(parse_at(actions@, 0) matches Some((_, end)) && end == actions@.len()),
        },
{
    let (action, end) = decode_action(actions, 0)?;
    if end == actions.len() {
        Ok(action)
    } else {
        Err(MicroErrorCode::InvalidArgument)
    }
}

pub open spec fn spec_map_state(state: State) -> MicroState {
    match state {
        State::EarlyBoot => MicroState::EarlyBoot,
        State::SafeMode => MicroState::SafeMode,
        State::StorageReady => MicroState::StorageReady,
        State::BoardProfileValidated => MicroState::BoardProfileValidated,
        State::DisplayReady => MicroState::DisplayReady,
        State::SystemUiReady => MicroState::SystemUiReady,
        State::FirstRunSetup => MicroState::FirstRunSetup,
        State::Launcher => MicroState::Launcher,
        State::AppStarting { .. } => MicroState::AppStarting,
        State::AppRunning { .. } => MicroState::AppRunning,
        State::AppStopping { .. } => MicroState::AppStopping,
        State::AppError { .. } => MicroState::AppError,
        State::Settings => MicroState::Settings,
    }
}

fn map_state(state: &State) -> (wire: MicroState)
    ensures
        wire == spec_map_state(*state),
{
    match state {
        State::EarlyBoot => MicroState::EarlyBoot,
        State::SafeMode => MicroState::SafeMode,
        State::StorageReady => MicroState::StorageReady,
        State::BoardProfileValidated => MicroState::BoardProfileValidated,
        State::DisplayReady => MicroState::DisplayReady,
        State::SystemUiReady => MicroState::SystemUiReady,
        State::FirstRunSetup => MicroState::FirstRunSetup,
        State::Launcher => MicroState::Launcher,
        State::AppStarting { .. } => MicroState::AppStarting,
        State::AppRunning { .. } => MicroState::AppRunning,
        State::AppStopping { .. } => MicroState::AppStopping,
        State::AppError { .. } => MicroState::AppError,
        State::Settings => MicroState::Settings,
    }
}


/// The largest character boundary of `bytes` that is at most `limit`.
pub open spec fn boundary_at_most(bytes: Seq<u8>, limit: int) -> int
    decreases limit,
{
    if limit <= 0 {
        0
    } else if vstd::utf8::is_char_boundary(bytes, limit) {
        limit
    } else {
        boundary_at_most(bytes, limit - 1)
    }
}

/// Copies as much of `diagnostic` into `buffer` as fits before a final NUL
/// without splitting a character, and zeroes the rest.
pub fn write_diagnostic(buffer: &mut [u8], diagnostic: &str)
    ensures
        old(buffer)@.len() == 0 ==> final(buffer)@ == old(buffer)@,
        old(buffer)@.len() > 0 ==> {
            let kept = boundary_at_most(diagnostic.spec_bytes(),
                if diagnostic.spec_bytes().len() < old(buffer)@.len() - 1 { diagnostic.spec_bytes().len() as int }
                else { old(buffer)@.len() - 1 });
            final(buffer)@ == diagnostic.spec_bytes().take(kept)
                + Seq::new((old(buffer)@.len() - kept) as nat, |i: int| 0u8)
        },
{
    if buffer.len() == 0 {
        return;
    }
    let bytes = diagnostic.as_bytes();
    let capacity = buffer.len() - 1;
    let mut copied = if capacity < bytes.len() { capacity } else { bytes.len() };
    let ghost limit = copied as int;
    while copied != 0 && !diagnostic.is_char_boundary(copied)
        invariant
            copied <= limit,
            boundary_at_most(bytes@, limit) == boundary_at_most(bytes@, copied as int),
            bytes@ == diagnostic.spec_bytes(),
        decreases copied,
    {
        copied = copied - 1;
    }
    let mut i: usize = 0;
    while i < buffer.len()
        invariant
            i <= buffer@.len(),
            buffer@.len() == old(buffer)@.len(),
            copied <= bytes@.len(),
            copied < buffer@.len(),
            forall|j: int| 0 <= j < i ==> buffer@[j] == if j < copied { bytes@[j] } else { 0u8 },
        decreases buffer@.len() - i,
    {
        buffer[i] = if i < copied { bytes[i] } else { 0 };
        i = i + 1;
    }
    assert(buffer@ =~= bytes@.take(copied as int) + Seq::new((old(buffer)@.len() - copied) as nat, |i: int| 0u8));
}

/// A C region of `length` elements of `element_size` bytes may be sliced
/// only when its byte size fits in `isize`.
pub fn validate_region_length(length: usize, element_size: usize) -> (r: Result<(), MicroErrorCode>)
    ensures
        r is Ok <==> length * element_size <= isize::MAX,
        r matches Err(code) ==> code == MicroErrorCode::InvalidArgument,
{
    let bytes = match length.checked_mul(element_size) {
        Some(bytes) => bytes,
        None => return Err(MicroErrorCode::InvalidArgument),
    };
    if bytes > isize::MAX as usize {
        return Err(MicroErrorCode::InvalidArgument);
    }
    Ok(())
}

/// A record that sets a field its kind does not carry, or sets
/// `after_secs` or `reserved`, is not well formed, so `try_into_core`
/// refuses it with `InvalidArgument`.
pub proof fn lemma_uncarried_fields_refused(wire: MicroEvent)
    ensures
        wire.after_secs != 0 ==> !wire.well_formed(),
        wire.reserved != 0 ==> !wire.well_formed(),
        !field_use(wire.kind).result && wire.result != MicroResult::Unused ==> !wire.well_formed(),
        !field_use(wire.kind).failure && wire.failure != MicroFailureReason::Unused ==> !wire.well_formed(),
        !field_use(wire.kind).wifi_failure && wire.wifi_failure != MicroWifiFailure::Unused ==> !wire.well_formed(),
        !field_use(wire.kind).app && wire.app != MicroAppId::Unused ==> !wire.well_formed(),
        !field_use(wire.kind).flag && wire.flag != 0 ==> !wire.well_formed(),
        !field_use(wire.kind).session && wire.session_id != 0 ==> !wire.well_formed(),
        !field_use(wire.kind).operation && wire.operation_id != 0 ==> !wire.well_formed(),
        !field_use(wire.kind).confirmation && wire.confirmation_id != 0 ==> !wire.well_formed(),
{
}

/// The event a well-formed wire record encodes.
pub open spec fn decoded_event(wire: MicroEvent) -> Event {
    choose|event: Event| MicroEvent::spec_from_core(event) == wire
}

/// Owns the OS reducer on the C side of the ESP32 boundary.
pub struct OsHost {
    os: MicroOs,
}

impl Default for OsHost {
    fn default() -> (host: OsHost)
        ensures
            host.reducer() == MicroOs::initial(),
            host.wf(),
    {
        OsHost::new()
    }
}

impl OsHost {
    pub closed spec fn reducer(self) -> MicroOs {
        self.os
    }

    pub closed spec fn wf(self) -> bool {
        self.os.wf()
    }

    pub fn new() -> (host: OsHost)
        ensures
            host.reducer() == MicroOs::initial(),
            host.wf(),
    {
        OsHost { os: MicroOs::new() }
    }

    fn decode(event: MicroEvent) -> (r: Result<Event, MicroErrorCode>)
        ensures
            r is Ok <==> event.well_formed(),
            match r {
                Ok(e) => e == decoded_event(event),
                Err(code) => code == MicroErrorCode::InvalidArgument,
            },
    {
        let r = event.try_into_core();
        proof {
            if let Ok(e) = r {
                let chosen = decoded_event(event);
                lemma_event_encoding_injective(chosen, e);
            }
        }
        r
    }

    /// Applies one wire event to the reducer and answers with the wire
    /// records of its action.
    pub fn dispatch(&mut self, event: MicroEvent) -> (r: Result<Vec<MicroAction>, MicroErrorCode>)
        ensures
            old(self).wf() ==> final(self).wf(),
            match r {
                Ok(records) => event.well_formed()
                    && final(self).reducer() == old(self).reducer().next(decoded_event(event)).0
                    && records@ == encode_tree(crate::os::reply_tree(old(self).reducer().next(decoded_event(event)).1)),
                Err(code) => !event.well_formed() && code == MicroErrorCode::InvalidArgument
                    && final(self).reducer() == old(self).reducer(),
            },
    {
        let event = Self::decode(event)?;
        let ghost before = self.os;
        let action = self.os.dispatch(event);
        proof {
            crate::os::lemma_reply_tree(before, event, action);
        }
        Ok(encode_action_batch(&action))
    }

    /// Like `dispatch`, but writes the records into `output`; when they do
    /// not fit, neither the reducer nor `output` changes.
    pub fn dispatch_into(&mut self, event: MicroEvent, output: &mut [MicroAction]) -> (r: Result<usize, DispatchError>)
        ensures
            old(self).wf() ==> final(self).wf(),
            r is Ok <==> event.well_formed() && old(output)@.len() >= encode_tree(
                crate::os::reply_tree(old(self).reducer().next(decoded_event(event)).1),
            ).len(),
            final(output)@.len() == old(output)@.len(),
            match r {
                Ok(written) => {
                    let records = encode_tree(crate::os::reply_tree(old(self).reducer().next(decoded_event(event)).1));
                    &&& event.well_formed()
                    &&& final(self).reducer() == old(self).reducer().next(decoded_event(event)).0
                    &&& written == records.len()
                    &&& final(output)@ == records + old(output)@.skip(written as int)
                },
                Err(error) => final(self).reducer() == old(self).reducer() && final(output)@ == old(output)@ && (
                    (!event.well_formed() && error == DispatchError { code: MicroErrorCode::InvalidArgument, required: 0 })
                    || (event.well_formed() && error.code == MicroErrorCode::BufferTooSmall
                        && error.required == encode_tree(crate::os::reply_tree(old(self).reducer().next(decoded_event(event)).1)).len()
                        && old(output)@.len() < error.required)),
            },
    {
        let event = match Self::decode(event) {
            Ok(event) => event,
            Err(code) => return Err(DispatchError { code, required: 0 }),
        };
        let mut next = self.os;
        let action = next.dispatch(event);
        proof {
            crate::os::lemma_reply_tree(self.os, event, action);
        }
        let written = encode_action_into(&action, output)?;
        self.os = next;
        Ok(written)
    }

    /// The reducer's screen state in C form.
    pub fn state(&self) -> (state: MicroState)
        ensures
            state == spec_map_state(self.reducer().screen()),
    {
        map_state(self.os.state())
    }
}

/// A failure of the host with its C error code and a diagnostic for the
/// device log.
#[derive(Debug)]
pub struct HostError {
    code: MicroErrorCode,
    diagnostic: String,
}

impl View for HostError {
    type V = (MicroErrorCode, Seq<char>);

    closed spec fn view(&self) -> (MicroErrorCode, Seq<char>) {
        (self.code, self.diagnostic@)
    }
}

impl HostError {
    /// The C error code.
    pub fn code(&self) -> (code: MicroErrorCode)
        ensures
            code == self@.0,
    {
        self.code
    }

    /// The diagnostic.
    pub fn to_string(&self) -> (text: String)
        ensures
            text@ == self@.1,
    {
        self.diagnostic.clone()
    }

    /// An app image that could not be decoded: code `Mbc`, and the decoding
    /// error after `invalid MBC: `.
    pub fn from_decode_error(error: DecodeError) -> (host_error: HostError)
        ensures
            host_error@ == (MicroErrorCode::Mbc, "invalid MBC: "@ + decode_fault_text(error@)),
    {
        let mut diagnostic = String::from_str("invalid MBC: ");
        diagnostic.append(error.to_string().as_str());
        HostError { code: MicroErrorCode::Mbc, diagnostic }
    }
}

/// The C boundary reports each screen under the state of the same name:
/// a reducer screen is `X` exactly when the reported state is `X`, so
/// different screens are never reported alike.
pub proof fn lemma_state_names(state: State)
    ensures
        state is EarlyBoot <==> spec_map_state(state) is EarlyBoot,
        state is SafeMode <==> spec_map_state(state) is SafeMode,
        state is StorageReady <==> spec_map_state(state) is StorageReady,
        state is BoardProfileValidated <==> spec_map_state(state) is BoardProfileValidated,
        state is DisplayReady <==> spec_map_state(state) is DisplayReady,
        state is SystemUiReady <==> spec_map_state(state) is SystemUiReady,
        state is FirstRunSetup <==> spec_map_state(state) is FirstRunSetup,
        state is Launcher <==> spec_map_state(state) is Launcher,
        state is AppStarting <==> spec_map_state(state) is AppStarting,
        state is AppRunning <==> spec_map_state(state) is AppRunning,
        state is AppStopping <==> spec_map_state(state) is AppStopping,
        state is AppError <==> spec_map_state(state) is AppError,
        state is Settings <==> spec_map_state(state) is Settings,
{
}

/// Different C states have different codes.
pub proof fn lemma_state_codes_distinct(a: MicroState, b: MicroState)
    ensures
        a.spec_code() == b.spec_code() ==> a == b,
{
}

} // verus!
