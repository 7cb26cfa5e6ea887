//! The Micro OS lifecycle reducer: boot, launcher, settings, app sessions,
//! Wi-Fi provisioning/reconnects and confirmed destructive operations.
//!
//! `MicroOs::dispatch` is a pure state machine: it consumes one `Event`,
//! updates the OS state and answers with the `Action` the platform must
//! perform. The complete transition relation is `MicroOs::next`.
use vstd::prelude::*;

verus! {

/// Number of entries in the reconnect back-off schedule.
pub const RECONNECT_STEPS: usize = 5;

/// The reconnect back-off schedule in seconds: 1, 2, 5, 10, 30.
pub open spec fn reconnect_delay_at(index: int) -> u32 {
    if index == 0 {
        1
    } else if index == 1 {
        2
    } else if index == 2 {
        5
    } else if index == 3 {
        10
    } else {
        30
    }
}

fn reconnect_delay(index: usize) -> (delay: u32)
    ensures
        delay == reconnect_delay_at(index as int),
{
    match index {
        0 => 1,
        1 => 2,
        2 => 5,
        3 => 10,
        _ => 30,
    }
}

#[derive(Debug, Clone, Copy, PartialEq, Eq, Structural)]
pub enum AppId {
    Counter,
}

#[derive(Debug, Clone, Copy, PartialEq, Eq, Structural)]
pub struct AppSessionId(pub u64);

#[derive(Debug, Clone, Copy, PartialEq, Eq, Structural)]
pub enum AppDestination {
    Launcher,
}

#[derive(Debug, Clone, Copy, PartialEq, Eq, Structural)]
pub struct ConfirmationId(pub u64);

#[derive(Debug, Clone, Copy, PartialEq, Eq, Structural)]
pub enum PendingConfirmation {
    ClearNetwork(ConfirmationId),
    FactoryReset(ConfirmationId),
}

#[derive(Debug, Clone, Copy, PartialEq, Eq, Structural)]
pub enum FailureReason {
    SafeModeRequested,
    StorageCorrupt,
    InvalidBoardProfile,
    HardwareUnavailable,
    AppCrashed,
    Internal,
}

#[derive(Debug, Clone, Copy, PartialEq, Eq, Structural)]
pub enum Language {
    English,
    SimplifiedChinese,
}

#[derive(Debug, Clone, Copy, PartialEq, Eq, Structural)]
pub enum Backlight {
    Off,
    Low,
    Medium,
    High,
}

#[derive(Debug, Clone, Copy, PartialEq, Eq, Structural)]
pub enum ScreenTimeout {
    Never,
    Seconds(u32),
}

#[derive(Debug, Clone, Copy, PartialEq, Eq, Structural)]
pub struct WifiOperationId(pub u64);

#[derive(Debug, Clone, Copy, PartialEq, Eq, Structural)]
pub enum WifiFailure {
    Authentication,
    NetworkMissing,
    Timeout,
    Internal,
}

/// Coarse Wi-Fi status as presented to a user.
#[derive(Debug, Clone, Copy, PartialEq, Eq, Structural)]
pub enum WifiState {
    Idle,
    Scanning,
    Connecting,
    PendingPersistence,
    Connected,
    Failed(WifiFailure),
}

/// The radio's connection to the saved network.
#[derive(Debug, Clone, Copy, PartialEq, Eq, Structural)]
pub enum LiveWifiState {
    Disconnected,
    Connecting(WifiOperationId),
    Connected,
}

/// Progress of a user-driven scan or replacement-network setup.
#[derive(Debug, Clone, Copy, PartialEq, Eq, Structural)]
pub enum ProvisioningState {
    Idle,
    Scanning(WifiOperationId),
    ConnectingReplacement(WifiOperationId),
    Persisting(WifiOperationId),
    Failed { operation: WifiOperationId, reason: WifiFailure },
}

#[derive(Debug, Clone, Copy, PartialEq, Eq, Structural)]
pub enum State {
    EarlyBoot,
    SafeMode,
    StorageReady,
    BoardProfileValidated,
    DisplayReady,
    SystemUiReady,
    FirstRunSetup,
    Launcher,
    AppStarting { app: AppId, session: AppSessionId },
    AppRunning { app: AppId, session: AppSessionId },
    AppStopping { app: AppId, session: AppSessionId, destination: AppDestination },
    AppError { app: AppId, session: AppSessionId, reason: FailureReason },
    Settings,
}

#[derive(Debug, Clone, Copy, PartialEq, Eq)]
pub enum Event {
    BootSampled { safe_mode: bool },
    StorageInitialized(Result<(), FailureReason>),
    ProfileValidated(Result<(), FailureReason>),
    DisplayInitialized(Result<(), FailureReason>),
    SystemUiInitialized(Result<(), FailureReason>),
    NetworkConfigLoaded { configured: bool },
    SetupSkipped,
    OpenSettings,
    SetBacklight(Backlight),
    BackPressed,
    HomePressed,
    OpenApp(AppId),
    AppStarted { session: AppSessionId },
    AppFailed { session: AppSessionId, reason: FailureReason },
    RestartApp,
    AppStopped { session: AppSessionId },
    WifiScanRequested,
    WifiScanCompleted { operation: WifiOperationId },
    WifiScanFailed { operation: WifiOperationId, reason: WifiFailure },
    WifiConnectRequested,
    WifiConnected { operation: WifiOperationId },
    WifiPersisted { operation: WifiOperationId },
    WifiFailed { operation: WifiOperationId, reason: WifiFailure },
    ReconnectDue { reconnect: WifiOperationId },
    ReconnectNowRequested,
    ClearNetworkRequested,
    ClearNetworkConfirmed { confirmation: ConfirmationId },
    ClearNetworkCompleted { confirmation: ConfirmationId, result: Result<(), FailureReason> },
    FactoryResetRequested,
    FactoryResetConfirmed { confirmation: ConfirmationId },
    FactoryResetCompleted { confirmation: ConfirmationId, result: Result<(), FailureReason> },
    RebootRequested,
}

/// What the platform must do in answer to an event. `Nothing` means the event
/// was accepted with no platform work; `Rejected` means it was ignored.
#[derive(Debug, PartialEq, Eq)]
pub enum Action {
    Nothing,
    Rejected,
    Actions(Vec<Action>),
    EnterSafeMode(FailureReason),
    InitializeStorage,
    ValidateProfile,
    InitializeDisplay,
    InitializeSystemUi,
    LoadNetworkConfig,
    ShowFirstRunSetup,
    ShowLauncher,
    ShowSettings,
    ApplyBacklight(Backlight),
    StartWifiScan { operation: WifiOperationId },
    ConnectWifi { operation: WifiOperationId },
    ConnectSavedWifi { operation: WifiOperationId },
    PersistWifi { operation: WifiOperationId },
    ClearPendingWifi { operation: WifiOperationId },
    ScheduleWifiReconnect { reconnect: WifiOperationId, after_secs: u32 },
    StartApp { app: AppId, session: AppSessionId },
    StopApp { app: AppId, session: AppSessionId },
    ShowAppError { app: AppId, session: AppSessionId, reason: FailureReason },
    ConfirmClearNetwork { confirmation: ConfirmationId },
    ClearNetwork { confirmation: ConfirmationId },
    ConfirmFactoryReset { confirmation: ConfirmationId },
    FactoryReset { confirmation: ConfirmationId },
    Reboot,
}

/// An action as a tree: composite `Actions` are groups of their children,
/// every other action is a leaf.
pub enum ActionTree {
    Leaf(Action),
    Group(Seq<ActionTree>),
}

pub open spec fn action_tree(action: Action) -> ActionTree
    decreases action,
{
    match action {
        Action::Actions(children) => ActionTree::Group(action_trees(children@)),
        _ => ActionTree::Leaf(action),
    }
}

pub open spec fn action_trees(actions: Seq<Action>) -> Seq<ActionTree>
    decreases actions,
{
    if actions.len() == 0 {
        Seq::empty()
    } else {
        action_trees(actions.drop_last()).push(action_tree(actions.last()))
    }
}

/// The trees of the first `i + 1` actions extend those of the first `i`.
pub proof fn lemma_action_trees_take(actions: Seq<Action>, i: int)
    requires
        0 <= i < actions.len(),
    ensures
        action_trees(actions.take(i + 1)) == action_trees(actions.take(i)).push(action_tree(actions[i])),
        action_trees(actions.take(i)).len() == i,
    decreases i,
{
    assert(actions.take(i + 1).drop_last() =~= actions.take(i));
    if i > 0 {
        lemma_action_trees_take(actions, i - 1);
    } else {
        assert(actions.take(0) =~= Seq::<Action>::empty());
    }
}

/// The trees of a list of actions are the trees of its members, in order.
pub proof fn lemma_action_trees_index(actions: Seq<Action>)
    ensures
        action_trees(actions).len() == actions.len(),
        forall|i: int| 0 <= i < actions.len() ==> #[trigger] action_trees(actions)[i] == action_tree(actions[i]),
    decreases actions.len(),
{
    if actions.len() > 0 {
        lemma_action_trees_index(actions.drop_last());
    }
}

/// Two actions with the same tree are the same action: the same
/// non-composite action, or composites whose children have the same trees
/// in the same order.
pub proof fn lemma_action_tree_injective(a: Action, b: Action)
    requires
        action_tree(a) == action_tree(b),
    ensures
        !(a is Actions) ==> b == a,
        a matches Action::Actions(ca) ==> (b matches Action::Actions(cb) && cb@.len() == ca@.len() && forall|
            i: int,
        |
            0 <= i < ca@.len() ==> action_tree(#[trigger] cb@[i]) == action_tree(ca@[i])),
{
    match (a, b) {
        (Action::Actions(ca), Action::Actions(cb)) => {
            lemma_action_trees_index(ca@);
            lemma_action_trees_index(cb@);
            assert forall|i: int| 0 <= i < ca@.len() implies action_tree(#[trigger] cb@[i]) == action_tree(ca@[i]) by {
                assert(action_trees(ca@)[i] == action_trees(cb@)[i]);
            }
        },
        _ => {},
    }
}

/// `action` is the reply described by `parts`: the single action when there
/// is one part, and a composite `Actions` of exactly those parts otherwise.
pub open spec fn is_reply(action: Action, parts: Seq<Action>) -> bool {
    if parts.len() == 1 {
        action == parts[0]
    } else {
        action matches Action::Actions(children) && children@ == parts
    }
}

/// A clear-network operation under way: its confirmation and whether it
/// was confirmed from safe mode.
#[derive(Debug, Clone, Copy, PartialEq, Eq, Structural)]
pub struct ClearOperation {
    pub confirmation: ConfirmationId,
    pub safe_mode: bool,
}

/// A reconnect set aside while a confirmation is pending.
#[derive(Debug, Clone, Copy, PartialEq, Eq, Structural)]
pub struct PendingReconnect {
    pub reconnect: WifiOperationId,
    pub after_secs: u32,
}

#[derive(Debug, Clone, Copy, PartialEq, Eq)]
pub struct MicroOs {
    state: State,
    live_wifi_state: LiveWifiState,
    provisioning_state: ProvisioningState,
    network_configured: bool,
    boot_started: bool,
    pending_confirmation: Option<PendingConfirmation>,
    clearing_network: Option<ClearOperation>,
    factory_resetting: Option<ConfirmationId>,
    pending_reconnect: Option<WifiOperationId>,
    pending_reconnect_delay: Option<u32>,
    suspended_reconnect: Option<PendingReconnect>,
    backlight: Backlight,
    reconnect_index: usize,
    next_confirmation_id: u64,
    next_wifi_operation_id: u64,
    next_app_session_id: u64,
}


impl MicroOs {
    /// The OS screen state.
    pub closed spec fn screen(self) -> State {
        self.state
    }

    pub closed spec fn live_wifi(self) -> LiveWifiState {
        self.live_wifi_state
    }

    pub closed spec fn provisioning(self) -> ProvisioningState {
        self.provisioning_state
    }

    pub closed spec fn configured(self) -> bool {
        self.network_configured
    }

    pub closed spec fn confirmation(self) -> Option<PendingConfirmation> {
        self.pending_confirmation
    }

    pub closed spec fn backlight_level(self) -> Backlight {
        self.backlight
    }

    pub closed spec fn reconnect_step(self) -> int {
        self.reconnect_index as int
    }

    /// The reconnect that will be requested when it falls due, if any.
    pub closed spec fn scheduled_reconnect(self) -> Option<WifiOperationId> {
        self.pending_reconnect
    }

    /// Counters from which the next identifiers are issued.
    pub closed spec fn next_confirmation(self) -> u64 {
        self.next_confirmation_id
    }

    pub closed spec fn next_wifi_operation(self) -> u64 {
        self.next_wifi_operation_id
    }

    pub closed spec fn next_app_session(self) -> u64 {
        self.next_app_session_id
    }

    /// A clear-network or factory-reset operation has been confirmed and
    /// has not completed yet.
    pub closed spec fn destructive_in_flight(self) -> bool {
        self.clearing_network is Some || self.factory_resetting is Some
    }

    /// The reducer's internal invariant.
    pub closed spec fn wf(self) -> bool {
        &&& self.reconnect_index < RECONNECT_STEPS
        &&& self.pending_reconnect is Some <==> self.pending_reconnect_delay is Some
        &&& match self.clearing_network {
            Some(op) => (self.state == State::Settings && !op.safe_mode) || (self.state == State::SafeMode && op.safe_mode),
            None => true,
        }
        &&& self.factory_resetting is Some ==> (self.state == State::Settings || self.state == State::SafeMode)
        &&& self.pending_confirmation is Some ==> (self.state == State::Settings || self.state == State::SafeMode)
        &&& self.destructive_in_flight() ==> self.pending_confirmation is None
        &&& !(self.clearing_network is Some && self.factory_resetting is Some)
    }

    pub closed spec fn initial() -> MicroOs {
        MicroOs {
            state: State::EarlyBoot,
            live_wifi_state: LiveWifiState::Disconnected,
            provisioning_state: ProvisioningState::Idle,
            network_configured: false,
            boot_started: false,
            pending_confirmation: None,
            clearing_network: None,
            factory_resetting: None,
            pending_reconnect: None,
            pending_reconnect_delay: None,
            suspended_reconnect: None,
            backlight: Backlight::High,
            reconnect_index: 0,
            next_confirmation_id: 1,
            next_wifi_operation_id: 1,
            next_app_session_id: 1,
        }
    }

    spec fn reject(self) -> (MicroOs, Seq<Action>) {
        (self, seq![Action::Rejected])
    }

    spec fn one(self, action: Action) -> (MicroOs, Seq<Action>) {
        (self, seq![action])
    }

    spec fn cleared_reconnect(self) -> MicroOs {
        MicroOs { pending_reconnect: None, pending_reconnect_delay: None, ..self }
    }

    spec fn discard_reconnects(self) -> MicroOs {
        MicroOs {
            pending_confirmation: None,
            pending_reconnect: None,
            pending_reconnect_delay: None,
            suspended_reconnect: None,
            ..self
        }
    }

    spec fn safe_mode_next(self, reason: FailureReason) -> (MicroOs, Seq<Action>) {
        (MicroOs { state: State::SafeMode, ..self.discard_reconnects() }, seq![Action::EnterSafeMode(reason)])
    }

    /// The schedule that becomes due again when a pending confirmation is
    /// cancelled (the pending confirmation is dropped either way).
    spec fn cancel_confirmation(self) -> (MicroOs, Option<Action>) {
        let cleared = MicroOs { pending_confirmation: None, ..self };
        if self.pending_confirmation is None {
            (cleared, None)
        } else {
            match (self.pending_reconnect, self.pending_reconnect_delay) {
                (Some(reconnect), Some(after_secs)) => (cleared, Some(Action::ScheduleWifiReconnect { reconnect, after_secs })),
                _ => (cleared, None),
            }
        }
    }

    spec fn suspend_reconnect(self) -> MicroOs {
        let suspended = match (self.pending_reconnect, self.pending_reconnect_delay) {
            (Some(reconnect), Some(after_secs)) => Some(PendingReconnect { reconnect, after_secs }),
            _ => None,
        };
        MicroOs { suspended_reconnect: suspended, ..self.cleared_reconnect() }
    }

    spec fn resume_reconnect(self) -> (MicroOs, Option<Action>) {
        match self.suspended_reconnect {
            None => (self, None),
            Some(r) => {
                let taken = MicroOs { suspended_reconnect: None, ..self };
                if !taken.network_configured || taken.live_wifi_state != LiveWifiState::Disconnected {
                    (taken, None)
                } else {
                    (
                        MicroOs { pending_reconnect: Some(r.reconnect), pending_reconnect_delay: Some(r.after_secs), ..taken },
                        Some(Action::ScheduleWifiReconnect { reconnect: r.reconnect, after_secs: r.after_secs }),
                    )
                }
            },
        }
    }

    spec fn or_nothing(a: Option<Action>) -> Action {
        match a {
            Some(a) => a,
            None => Action::Nothing,
        }
    }

    spec fn boot_sampled_next(self, safe_mode: bool) -> (MicroOs, Seq<Action>) {
        if self.state != State::EarlyBoot || self.boot_started {
            self.reject()
        } else {
            let started = MicroOs { boot_started: true, ..self };
            if safe_mode {
                started.safe_mode_next(FailureReason::SafeModeRequested)
            } else {
                started.one(Action::InitializeStorage)
            }
        }
    }

    /// One boot stage completing: `from` is the stage it must complete in,
    /// `to` and `then` where it goes on success.
    spec fn stage_next(self, result: Result<(), FailureReason>, from: State, to: State, then: Action) -> (MicroOs, Seq<Action>) {
        if self.state != from {
            self.reject()
        } else {
            match result {
                Ok(()) => MicroOs { state: to, ..self }.one(then),
                Err(reason) => self.safe_mode_next(reason),
            }
        }
    }

    spec fn storage_initialized_next(self, result: Result<(), FailureReason>) -> (MicroOs, Seq<Action>) {
        if !self.boot_started {
            self.reject()
        } else {
            self.stage_next(result, State::EarlyBoot, State::StorageReady, Action::ValidateProfile)
        }
    }

    spec fn network_config_loaded_next(self, configured: bool) -> (MicroOs, Seq<Action>) {
        if self.state != State::SystemUiReady {
            self.reject()
        } else if configured {
            if self.next_wifi_operation_id == u64::MAX {
                self.reject()
            } else {
                let operation = WifiOperationId(self.next_wifi_operation_id);
                (
                    MicroOs {
                        next_wifi_operation_id: (self.next_wifi_operation_id + 1) as u64,
                        network_configured: true,
                        live_wifi_state: LiveWifiState::Connecting(operation),
                        state: State::Launcher,
                        ..self
                    },
                    seq![Action::ShowLauncher, Action::ConnectSavedWifi { operation }],
                )
            }
        } else {
            MicroOs {
                network_configured: false,
                live_wifi_state: LiveWifiState::Disconnected,
                state: State::FirstRunSetup,
                ..self
            }.one(Action::ShowFirstRunSetup)
        }
    }

    spec fn setup_skipped_next(self) -> (MicroOs, Seq<Action>) {
        if self.state != State::FirstRunSetup {
            self.reject()
        } else {
            MicroOs { state: State::Launcher, ..self }.one(Action::ShowLauncher)
        }
    }

    spec fn open_settings_next(self) -> (MicroOs, Seq<Action>) {
        if self.state != State::Launcher {
            self.reject()
        } else {
            MicroOs { state: State::Settings, ..self.cancel_confirmation().0 }.one(Action::ShowSettings)
        }
    }

    spec fn set_backlight_next(self, backlight: Backlight) -> (MicroOs, Seq<Action>) {
        if !(self.state == State::Launcher || self.state == State::Settings) {
            self.reject()
        } else {
            MicroOs { backlight, ..self }.one(Action::ApplyBacklight(backlight))
        }
    }

    spec fn go_home_next(self) -> (MicroOs, Seq<Action>) {
        match self.state {
            State::Settings => {
                let (cancelled, resumed) = self.cancel_confirmation();
                let home = MicroOs { state: State::Launcher, ..cancelled };
                match resumed {
                    Some(resumed) => (home, seq![Action::ShowLauncher, resumed]),
                    None => home.one(Action::ShowLauncher),
                }
            },
            State::AppStarting { app, session } | State::AppRunning { app, session } => {
                MicroOs {
                    state: State::AppStopping { app, session, destination: AppDestination::Launcher },
                    ..self
                }.one(Action::StopApp { app, session })
            },
            State::AppError { .. } => MicroOs { state: State::Launcher, ..self }.one(Action::ShowLauncher),
            State::Launcher => self.one(Action::Nothing),
            _ => self.reject(),
        }
    }

    spec fn open_app_next(self, app: AppId) -> (MicroOs, Seq<Action>) {
        if self.state != State::Launcher || self.next_app_session_id == u64::MAX {
            self.reject()
        } else {
            let session = AppSessionId(self.next_app_session_id);
            let issued = MicroOs { next_app_session_id: (self.next_app_session_id + 1) as u64, ..self };
            MicroOs { state: State::AppStarting { app, session }, ..issued.cancel_confirmation().0 }.one(
                Action::StartApp { app, session },
            )
        }
    }

    spec fn app_started_next(self, callback: AppSessionId) -> (MicroOs, Seq<Action>) {
        match self.state {
            State::AppStarting { app, session } => if session != callback {
                self.reject()
            } else {
                MicroOs { state: State::AppRunning { app, session }, ..self }.one(Action::Nothing)
            },
            _ => self.reject(),
        }
    }

    spec fn app_failed_next(self, callback: AppSessionId, reason: FailureReason) -> (MicroOs, Seq<Action>) {
        match self.state {
            State::AppStarting { app, session } | State::AppRunning { app, session } => if session == callback {
                MicroOs { state: State::AppError { app, session, reason }, ..self }.one(
                    Action::ShowAppError { app, session, reason },
                )
            } else {
                self.reject()
            },
            State::AppStopping { session, .. } => if session == callback {
                self.one(Action::Nothing)
            } else {
                self.reject()
            },
            _ => self.reject(),
        }
    }

    spec fn restart_app_next(self) -> (MicroOs, Seq<Action>) {
        match self.state {
            State::AppError { app, .. } => if self.next_app_session_id == u64::MAX {
                self.reject()
            } else {
                let session = AppSessionId(self.next_app_session_id);
                MicroOs {
                    next_app_session_id: (self.next_app_session_id + 1) as u64,
                    state: State::AppStarting { app, session },
                    ..self
                }.one(Action::StartApp { app, session })
            },
            _ => self.reject(),
        }
    }

    spec fn app_stopped_next(self, callback: AppSessionId) -> (MicroOs, Seq<Action>) {
        match self.state {
            State::AppStopping { session, destination, .. } => if session != callback {
                self.reject()
            } else {
                match destination {
                    AppDestination::Launcher => MicroOs { state: State::Launcher, ..self }.one(Action::ShowLauncher),
                }
            },
            _ => self.reject(),
        }
    }

    spec fn wifi_context(self) -> bool {
        self.state == State::FirstRunSetup || self.state == State::Settings
    }

    spec fn idle_or_failed(self) -> bool {
        self.provisioning_state is Idle || self.provisioning_state is Failed
    }

    spec fn admits_provisioning(self) -> bool {
        &&& self.idle_or_failed()
        &&& !(self.live_wifi_state is Connecting)
        &&& self.pending_confirmation is None
        &&& !self.destructive_in_flight()
    }

    spec fn wifi_operation_in_flight(self) -> bool {
        ||| self.live_wifi_state is Connecting
        ||| self.provisioning_state is Scanning
        ||| self.provisioning_state is ConnectingReplacement
        ||| self.provisioning_state is Persisting
    }

    /// Starting a scan (`scan`) or a replacement connection.
    spec fn provisioning_start_next(self, scan: bool) -> (MicroOs, Seq<Action>) {
        if !self.wifi_context() || !self.admits_provisioning() || self.next_wifi_operation_id == u64::MAX {
            self.reject()
        } else {
            let operation = WifiOperationId(self.next_wifi_operation_id);
            let started = MicroOs {
                next_wifi_operation_id: (self.next_wifi_operation_id + 1) as u64,
                provisioning_state: if scan {
                    ProvisioningState::Scanning(operation)
                } else {
                    ProvisioningState::ConnectingReplacement(operation)
                },
                ..self.cleared_reconnect()
            };
            if scan {
                started.one(Action::StartWifiScan { operation })
            } else {
                started.one(Action::ConnectWifi { operation })
            }
        }
    }

    spec fn wifi_scan_finished_next(self, operation: WifiOperationId, failure: Option<WifiFailure>) -> (MicroOs, Seq<Action>) {
        if self.provisioning_state != ProvisioningState::Scanning(operation) {
            self.reject()
        } else {
            match failure {
                None => MicroOs { provisioning_state: ProvisioningState::Idle, ..self }.one(Action::Nothing),
                Some(reason) => MicroOs {
                    provisioning_state: ProvisioningState::Failed { operation, reason },
                    ..self
                }.one(Action::Nothing),
            }
        }
    }

    spec fn wifi_connected_next(self, operation: WifiOperationId) -> (MicroOs, Seq<Action>) {
        if self.live_wifi_state == LiveWifiState::Connecting(operation) {
            MicroOs {
                live_wifi_state: LiveWifiState::Connected,
                reconnect_index: 0,
                ..self.cleared_reconnect()
            }.one(Action::Nothing)
        } else if self.provisioning_state == ProvisioningState::ConnectingReplacement(operation) {
            MicroOs {
                provisioning_state: ProvisioningState::Persisting(operation),
                reconnect_index: 0,
                ..self
            }.one(Action::PersistWifi { operation })
        } else {
            self.reject()
        }
    }

    spec fn wifi_persisted_next(self, operation: WifiOperationId) -> (MicroOs, Seq<Action>) {
        if self.provisioning_state != ProvisioningState::Persisting(operation) {
            self.reject()
        } else {
            let saved = MicroOs {
                network_configured: true,
                live_wifi_state: LiveWifiState::Connected,
                provisioning_state: ProvisioningState::Idle,
                ..self.cleared_reconnect()
            };
            if self.state == State::FirstRunSetup {
                MicroOs { state: State::Launcher, ..saved }.one(Action::ShowLauncher)
            } else {
                saved.one(Action::Nothing)
            }
        }
    }

    spec fn wifi_failed_next(self, operation: WifiOperationId, reason: WifiFailure) -> (MicroOs, Seq<Action>) {
        let saved_connect = self.live_wifi_state == LiveWifiState::Connecting(operation);
        let replacement = self.provisioning_state == ProvisioningState::ConnectingReplacement(operation)
            || self.provisioning_state == ProvisioningState::Persisting(operation);
        if !saved_connect && !replacement {
            self.reject()
        } else {
            // A configured device retries its saved network; during first-run
            // setup the failed network is retried.
            let needs_recovery = (self.network_configured && (saved_connect || self.live_wifi_state
                == LiveWifiState::Disconnected)) || (!self.network_configured && replacement);
            let can_issue = needs_recovery && self.next_wifi_operation_id != u64::MAX;
            let s1 = if can_issue {
                MicroOs { next_wifi_operation_id: (self.next_wifi_operation_id + 1) as u64, ..self }
            } else {
                self
            };
            let s2 = if saved_connect { MicroOs { live_wifi_state: LiveWifiState::Disconnected, ..s1 } } else { s1 };
            let s3 = if replacement {
                MicroOs { provisioning_state: ProvisioningState::Failed { operation, reason }, ..s2 }
            } else {
                s2
            };
            if can_issue {
                let reconnect = WifiOperationId(self.next_wifi_operation_id);
                let delay = reconnect_delay_at(self.reconnect_index as int);
                let next_index: usize = if self.reconnect_index + 1 < RECONNECT_STEPS {
                    (self.reconnect_index + 1) as usize
                } else {
                    (RECONNECT_STEPS - 1) as usize
                };
                let s4 = MicroOs {
                    reconnect_index: next_index,
                    pending_reconnect: Some(reconnect),
                    pending_reconnect_delay: Some(delay),
                    ..s3
                };
                let schedule = Action::ScheduleWifiReconnect { reconnect, after_secs: delay };
                if replacement {
                    (s4, seq![Action::ClearPendingWifi { operation }, schedule])
                } else {
                    s4.one(schedule)
                }
            } else if replacement {
                s3.cleared_reconnect().one(Action::ClearPendingWifi { operation })
            } else {
                s3.one(Action::Nothing)
            }
        }
    }

    /// Connecting the saved network again: `due` is the scheduled reconnect
    /// falling due (`None` for a user request to reconnect now).
    spec fn reconnect_next(self, due: Option<WifiOperationId>) -> (MicroOs, Seq<Action>) {
        let allowed = match due {
            Some(reconnect) => self.pending_reconnect == Some(reconnect)
                && self.live_wifi_state == LiveWifiState::Disconnected,
            None => !(self.live_wifi_state is Connecting),
        };
        if !allowed || !self.network_configured || self.pending_confirmation is Some || self.destructive_in_flight()
            || !self.idle_or_failed() || self.next_wifi_operation_id == u64::MAX {
            self.reject()
        } else {
            let operation = WifiOperationId(self.next_wifi_operation_id);
            MicroOs {
                next_wifi_operation_id: (self.next_wifi_operation_id + 1) as u64,
                live_wifi_state: LiveWifiState::Connecting(operation),
                ..self.cleared_reconnect()
            }.one(Action::ConnectSavedWifi { operation })
        }
    }

    spec fn confirmation_context(self) -> bool {
        self.state == State::Settings || self.state == State::SafeMode
    }

    /// Asking for confirmation of a clear-network (`factory == false`) or
    /// factory-reset operation.
    spec fn destructive_requested_next(self, factory: bool) -> (MicroOs, Seq<Action>) {
        if !self.confirmation_context() || self.pending_confirmation is Some || self.destructive_in_flight()
            || self.wifi_operation_in_flight() || self.next_confirmation_id == u64::MAX {
            self.reject()
        } else {
            let confirmation = ConfirmationId(self.next_confirmation_id);
            let issued = MicroOs { next_confirmation_id: (self.next_confirmation_id + 1) as u64, ..self };
            if factory {
                MicroOs { pending_confirmation: Some(PendingConfirmation::FactoryReset(confirmation)), ..issued }.one(
                    Action::ConfirmFactoryReset { confirmation },
                )
            } else {
                MicroOs { pending_confirmation: Some(PendingConfirmation::ClearNetwork(confirmation)), ..issued }.one(
                    Action::ConfirmClearNetwork { confirmation },
                )
            }
        }
    }

    spec fn clear_network_confirmed_next(self, confirmation: ConfirmationId) -> (MicroOs, Seq<Action>) {
        if self.pending_confirmation != Some(PendingConfirmation::ClearNetwork(confirmation)) {
            self.reject()
        } else {
            MicroOs {
                clearing_network: Some(ClearOperation { confirmation, safe_mode: self.state == State::SafeMode }),
                ..MicroOs { pending_confirmation: None, ..self }.suspend_reconnect()
            }.one(Action::ClearNetwork { confirmation })
        }
    }

    spec fn clear_network_completed_next(self, confirmation: ConfirmationId, result: Result<(), FailureReason>) -> (MicroOs, Seq<Action>) {
        match self.clearing_network {
            None => self.reject(),
            Some(operation) => if operation.confirmation != confirmation {
                self.reject()
            } else {
                let done = MicroOs { clearing_network: None, ..self };
                match result {
                    Err(_) => {
                        let (resumed, action) = done.resume_reconnect();
                        resumed.one(Self::or_nothing(action))
                    },
                    Ok(()) => {
                        let cleared = MicroOs {
                            network_configured: false,
                            live_wifi_state: LiveWifiState::Disconnected,
                            provisioning_state: ProvisioningState::Idle,
                            suspended_reconnect: None,
                            ..done.cleared_reconnect()
                        };
                        if operation.safe_mode {
                            MicroOs { state: State::SafeMode, ..cleared }.one(Action::Nothing)
                        } else {
                            MicroOs { state: State::FirstRunSetup, ..cleared }.one(Action::ShowFirstRunSetup)
                        }
                    },
                }
            },
        }
    }

    spec fn factory_reset_confirmed_next(self, confirmation: ConfirmationId) -> (MicroOs, Seq<Action>) {
        if self.pending_confirmation != Some(PendingConfirmation::FactoryReset(confirmation)) {
            self.reject()
        } else {
            MicroOs {
                factory_resetting: Some(confirmation),
                ..MicroOs { pending_confirmation: None, ..self }.suspend_reconnect()
            }.one(Action::FactoryReset { confirmation })
        }
    }

    spec fn factory_reset_completed_next(self, confirmation: ConfirmationId, result: Result<(), FailureReason>) -> (MicroOs, Seq<Action>) {
        if self.factory_resetting != Some(confirmation) {
            self.reject()
        } else {
            let done = MicroOs { factory_resetting: None, ..self };
            match result {
                Ok(()) => MicroOs { suspended_reconnect: None, ..done.cleared_reconnect() }.one(Action::Reboot),
                Err(_) => {
                    let (resumed, action) = done.resume_reconnect();
                    resumed.one(Self::or_nothing(action))
                },
            }
        }
    }

    /// Events that are refused while a destructive operation is in flight.
    pub open spec fn is_blocked_by_destructive(event: Event) -> bool {
        match event {
            Event::SetupSkipped | Event::OpenSettings | Event::BackPressed | Event::HomePressed
            | Event::OpenApp(_) | Event::AppStarted { .. } | Event::AppFailed { .. } | Event::RestartApp
            | Event::AppStopped { .. } | Event::WifiScanRequested | Event::WifiScanCompleted { .. }
            | Event::WifiScanFailed { .. } | Event::WifiConnectRequested | Event::WifiConnected { .. }
            | Event::WifiPersisted { .. } | Event::WifiFailed { .. } | Event::ReconnectDue { .. }
            | Event::ReconnectNowRequested => true,
            _ => false,
        }
    }

    /// The transition relation: the OS after `event` and the parts of the
    /// reply (see `is_reply`).
    pub closed spec fn next(self, event: Event) -> (MicroOs, Seq<Action>) {
        if self.destructive_in_flight() && Self::is_blocked_by_destructive(event) {
            self.reject()
        } else {
            match event {
                Event::BootSampled { safe_mode } => self.boot_sampled_next(safe_mode),
                Event::StorageInitialized(result) => self.storage_initialized_next(result),
                Event::ProfileValidated(result) => self.stage_next(
                    result, State::StorageReady, State::BoardProfileValidated, Action::InitializeDisplay),
                Event::DisplayInitialized(result) => self.stage_next(
                    result, State::BoardProfileValidated, State::DisplayReady, Action::InitializeSystemUi),
                Event::SystemUiInitialized(result) => self.stage_next(
                    result, State::DisplayReady, State::SystemUiReady, Action::LoadNetworkConfig),
                Event::NetworkConfigLoaded { configured } => self.network_config_loaded_next(configured),
                Event::SetupSkipped => self.setup_skipped_next(),
                Event::OpenSettings => self.open_settings_next(),
                Event::SetBacklight(backlight) => self.set_backlight_next(backlight),
                Event::BackPressed | Event::HomePressed => self.go_home_next(),
                Event::OpenApp(app) => self.open_app_next(app),
                Event::AppStarted { session } => self.app_started_next(session),
                Event::AppFailed { session, reason } => self.app_failed_next(session, reason),
                Event::RestartApp => self.restart_app_next(),
                Event::AppStopped { session } => self.app_stopped_next(session),
                Event::WifiScanRequested => self.provisioning_start_next(true),
                Event::WifiScanCompleted { operation } => self.wifi_scan_finished_next(operation, None),
                Event::WifiScanFailed { operation, reason } => self.wifi_scan_finished_next(operation, Some(reason)),
                Event::WifiConnectRequested => self.provisioning_start_next(false),
                Event::WifiConnected { operation } => self.wifi_connected_next(operation),
                Event::WifiPersisted { operation } => self.wifi_persisted_next(operation),
                Event::WifiFailed { operation, reason } => self.wifi_failed_next(operation, reason),
                Event::ReconnectDue { reconnect } => self.reconnect_next(Some(reconnect)),
                Event::ReconnectNowRequested => self.reconnect_next(None),
                Event::ClearNetworkRequested => self.destructive_requested_next(false),
                Event::ClearNetworkConfirmed { confirmation } => self.clear_network_confirmed_next(confirmation),
                Event::ClearNetworkCompleted { confirmation, result } => self.clear_network_completed_next(confirmation, result),
                Event::FactoryResetRequested => self.destructive_requested_next(true),
                Event::FactoryResetConfirmed { confirmation } => self.factory_reset_confirmed_next(confirmation),
                Event::FactoryResetCompleted { confirmation, result } => self.factory_reset_completed_next(confirmation, result),
                Event::RebootRequested => self.one(Action::Reboot),
            }
        }
    }
}

impl Default for MicroOs {
    fn default() -> (os: MicroOs)
        ensures
            os == MicroOs::initial(),
            os.wf(),
    {
        MicroOs::new()
    }
}

impl MicroOs {
    pub fn new() -> (os: MicroOs)
        ensures
            os == MicroOs::initial(),
            os.wf(),
            os.reconnect_step() == 0,
            os.screen() == State::EarlyBoot,
    {
        MicroOs {
            state: State::EarlyBoot,
            live_wifi_state: LiveWifiState::Disconnected,
            provisioning_state: ProvisioningState::Idle,
            network_configured: false,
            boot_started: false,
            pending_confirmation: None,
            clearing_network: None,
            factory_resetting: None,
            pending_reconnect: None,
            pending_reconnect_delay: None,
            suspended_reconnect: None,
            backlight: Backlight::High,
            reconnect_index: 0,
            next_confirmation_id: 1,
            next_wifi_operation_id: 1,
            next_app_session_id: 1,
        }
    }

    pub fn state(&self) -> (state: &State)
        ensures
            *state == self.screen(),
    {
        &self.state
    }

    pub fn live_wifi_state(&self) -> (wifi: &LiveWifiState)
        ensures
            *wifi == self.live_wifi(),
    {
        &self.live_wifi_state
    }

    pub fn provisioning_state(&self) -> (provisioning: &ProvisioningState)
        ensures
            *provisioning == self.provisioning(),
    {
        &self.provisioning_state
    }

    pub fn pending_confirmation(&self) -> (pending: Option<&PendingConfirmation>)
        ensures
            match self.confirmation() {
                Some(c) => pending == Some(&c),
                None => pending is None,
            },
    {
        match &self.pending_confirmation {
            Some(c) => Some(c),
            None => None,
        }
    }

    pub fn network_configured(&self) -> (configured: bool)
        ensures
            configured == self.configured(),
    {
        self.network_configured
    }

    pub fn backlight(&self) -> (backlight: &Backlight)
        ensures
            *backlight == self.backlight_level(),
    {
        &self.backlight
    }

    /// The delay that the next failed saved-network connection schedules.
    pub fn next_reconnect_delay(&self) -> (delay: u32)
        ensures
            delay == reconnect_delay_at(self.reconnect_step()),
    {
        reconnect_delay(self.reconnect_index)
    }

    fn clear_reconnect(&mut self)
        ensures
            *final(self) == old(self).cleared_reconnect(),
    {
        self.pending_reconnect = None;
        self.pending_reconnect_delay = None;
    }

    fn enter_safe_mode(&mut self, reason: FailureReason) -> (action: Action)
        ensures
            *final(self) == old(self).safe_mode_next(reason).0,
            is_reply(action, old(self).safe_mode_next(reason).1),
    {
        self.pending_confirmation = None;
        self.pending_reconnect = None;
        self.pending_reconnect_delay = None;
        self.suspended_reconnect = None;
        self.state = State::SafeMode;
        Action::EnterSafeMode(reason)
    }

    fn cancel_pending_confirmation(&mut self) -> (resumed: Option<Action>)
        ensures
            (*final(self), resumed) == old(self).cancel_confirmation(),
    {
        let was_pending = self.pending_confirmation.is_some();
        self.pending_confirmation = None;
        if !was_pending {
            return None;
        }
        match (self.pending_reconnect, self.pending_reconnect_delay) {
            (Some(reconnect), Some(after_secs)) => Some(Action::ScheduleWifiReconnect { reconnect, after_secs }),
            _ => None,
        }
    }

    fn suspend_pending_reconnect(&mut self)
        ensures
            *final(self) == old(self).suspend_reconnect(),
    {
        self.suspended_reconnect = match (self.pending_reconnect, self.pending_reconnect_delay) {
            (Some(reconnect), Some(after_secs)) => Some(PendingReconnect { reconnect, after_secs }),
            _ => None,
        };
        self.pending_reconnect = None;
        self.pending_reconnect_delay = None;
    }

    fn resume_suspended_reconnect(&mut self) -> (resumed: Option<Action>)
        ensures
            (*final(self), resumed) == old(self).resume_reconnect(),
    {
        let reconnect = match self.suspended_reconnect {
            Some(r) => r,
            None => return None,
        };
        self.suspended_reconnect = None;
        if !self.network_configured || self.live_wifi_state != LiveWifiState::Disconnected {
            return None;
        }
        self.pending_reconnect = Some(reconnect.reconnect);
        self.pending_reconnect_delay = Some(reconnect.after_secs);
        Some(Action::ScheduleWifiReconnect { reconnect: reconnect.reconnect, after_secs: reconnect.after_secs })
    }

    fn boot_sampled(&mut self, safe_mode: bool) -> (action: Action)
        ensures
            *final(self) == old(self).boot_sampled_next(safe_mode).0,
            is_reply(action, old(self).boot_sampled_next(safe_mode).1),
    {
        if self.state != State::EarlyBoot || self.boot_started {
            return Action::Rejected;
        }
        self.boot_started = true;
        if safe_mode {
            self.enter_safe_mode(FailureReason::SafeModeRequested)
        } else {
            Action::InitializeStorage
        }
    }

    fn stage(&mut self, result: Result<(), FailureReason>, from: State, to: State, then: Action) -> (action: Action)
        requires
            !(then is Actions),
        ensures
            *final(self) == old(self).stage_next(result, from, to, then).0,
            is_reply(action, old(self).stage_next(result, from, to, then).1),
    {
        if self.state != from {
            return Action::Rejected;
        }
        match result {
            Ok(()) => {
                self.state = to;
                then
            },
            Err(reason) => self.enter_safe_mode(reason),
        }
    }

    fn network_config_loaded(&mut self, configured: bool) -> (action: Action)
        ensures
            *final(self) == old(self).network_config_loaded_next(configured).0,
            is_reply(action, old(self).network_config_loaded_next(configured).1),
    {
        if self.state != State::SystemUiReady {
            return Action::Rejected;
        }
        if configured {
            if self.next_wifi_operation_id == u64::MAX {
                return Action::Rejected;
            }
            let operation = WifiOperationId(self.next_wifi_operation_id);
            self.next_wifi_operation_id = self.next_wifi_operation_id + 1;
            self.network_configured = true;
            self.live_wifi_state = LiveWifiState::Connecting(operation);
            self.state = State::Launcher;
            let actions = vec![Action::ShowLauncher, Action::ConnectSavedWifi { operation }];
            assert(actions@ =~= seq![Action::ShowLauncher, Action::ConnectSavedWifi { operation }]);
            Action::Actions(actions)
        } else {
            self.network_configured = false;
            self.live_wifi_state = LiveWifiState::Disconnected;
            self.state = State::FirstRunSetup;
            Action::ShowFirstRunSetup
        }
    }

    fn setup_skipped(&mut self) -> (action: Action)
        ensures
            *final(self) == old(self).setup_skipped_next().0,
            is_reply(action, old(self).setup_skipped_next().1),
    {
        if self.state != State::FirstRunSetup {
            return Action::Rejected;
        }
        self.state = State::Launcher;
        Action::ShowLauncher
    }

    fn open_settings(&mut self) -> (action: Action)
        ensures
            *final(self) == old(self).open_settings_next().0,
            is_reply(action, old(self).open_settings_next().1),
    {
        if self.state != State::Launcher {
            return Action::Rejected;
        }
        let _ = self.cancel_pending_confirmation();
        self.state = State::Settings;
        Action::ShowSettings
    }

    fn set_backlight(&mut self, backlight: Backlight) -> (action: Action)
        ensures
            *final(self) == old(self).set_backlight_next(backlight).0,
            is_reply(action, old(self).set_backlight_next(backlight).1),
    {
        if !(self.state == State::Launcher || self.state == State::Settings) {
            return Action::Rejected;
        }
        self.backlight = backlight;
        Action::ApplyBacklight(backlight)
    }

    fn go_home(&mut self) -> (action: Action)
        ensures
            *final(self) == old(self).go_home_next().0,
            is_reply(action, old(self).go_home_next().1),
    {
        match self.state {
            State::Settings => {
                let resumed = self.cancel_pending_confirmation();
                self.state = State::Launcher;
                match resumed {
                    Some(resumed) => {
                        let ghost r = resumed;
                        let actions = vec![Action::ShowLauncher, resumed];
                        assert(actions@ =~= seq![Action::ShowLauncher, r]);
                        Action::Actions(actions)
                    },
                    None => Action::ShowLauncher,
                }
            },
            State::AppStarting { app, session } | State::AppRunning { app, session } => {
                self.state = State::AppStopping { app, session, destination: AppDestination::Launcher };
                Action::StopApp { app, session }
            },
            State::AppStopping { .. } => Action::Rejected,
            State::AppError { .. } => {
                self.state = State::Launcher;
                Action::ShowLauncher
            },
            State::Launcher => Action::Nothing,
            _ => Action::Rejected,
        }
    }

    fn open_app(&mut self, app: AppId) -> (action: Action)
        ensures
            *final(self) == old(self).open_app_next(app).0,
            is_reply(action, old(self).open_app_next(app).1),
    {
        if self.state != State::Launcher || self.next_app_session_id == u64::MAX {
            return Action::Rejected;
        }
        let session = AppSessionId(self.next_app_session_id);
        self.next_app_session_id = self.next_app_session_id + 1;
        let _ = self.cancel_pending_confirmation();
        self.state = State::AppStarting { app, session };
        Action::StartApp { app, session }
    }

    fn app_started(&mut self, callback: AppSessionId) -> (action: Action)
        ensures
            *final(self) == old(self).app_started_next(callback).0,
            is_reply(action, old(self).app_started_next(callback).1),
    {
        match self.state {
            State::AppStarting { app, session } => {
                if session != callback {
                    return Action::Rejected;
                }
                self.state = State::AppRunning { app, session };
                Action::Nothing
            },
            _ => Action::Rejected,
        }
    }

    fn app_failed(&mut self, callback: AppSessionId, reason: FailureReason) -> (action: Action)
        ensures
            *final(self) == old(self).app_failed_next(callback, reason).0,
            is_reply(action, old(self).app_failed_next(callback, reason).1),
    {
        match self.state {
            State::AppStarting { app, session } | State::AppRunning { app, session } => {
                if session != callback {
                    return Action::Rejected;
                }
                self.state = State::AppError { app, session, reason };
                Action::ShowAppError { app, session, reason }
            },
            State::AppStopping { session, .. } => {
                if session == callback {
                    Action::Nothing
                } else {
                    Action::Rejected
                }
            },
            _ => Action::Rejected,
        }
    }

    fn restart_app(&mut self) -> (action: Action)
        ensures
            *final(self) == old(self).restart_app_next().0,
            is_reply(action, old(self).restart_app_next().1),
    {
        match self.state {
            State::AppError { app, .. } => {
                if self.next_app_session_id == u64::MAX {
                    return Action::Rejected;
                }
                let session = AppSessionId(self.next_app_session_id);
                self.next_app_session_id = self.next_app_session_id + 1;
                self.state = State::AppStarting { app, session };
                Action::StartApp { app, session }
            },
            _ => Action::Rejected,
        }
    }

    fn app_stopped(&mut self, callback: AppSessionId) -> (action: Action)
        ensures
            *final(self) == old(self).app_stopped_next(callback).0,
            is_reply(action, old(self).app_stopped_next(callback).1),
    {
        match self.state {
            State::AppStopping { session, destination, .. } => {
                if session != callback {
                    return Action::Rejected;
                }
                match destination {
                    AppDestination::Launcher => {
                        self.state = State::Launcher;
                        Action::ShowLauncher
                    },
                }
            },
            _ => Action::Rejected,
        }
    }

    fn destructive_operation_in_flight(&self) -> (in_flight: bool)
        ensures
            in_flight == self.destructive_in_flight(),
    {
        self.clearing_network.is_some() || self.factory_resetting.is_some()
    }

    fn provisioning_idle_or_failed(&self) -> (r: bool)
        ensures
            r == self.idle_or_failed(),
    {
        match self.provisioning_state {
            ProvisioningState::Idle | ProvisioningState::Failed { .. } => true,
            _ => false,
        }
    }

    fn live_connecting(&self) -> (r: bool)
        ensures
            r == self.live_wifi_state is Connecting,
    {
        match self.live_wifi_state {
            LiveWifiState::Connecting(_) => true,
            _ => false,
        }
    }

    fn provisioning_start(&mut self, scan: bool) -> (action: Action)
        ensures
            *final(self) == old(self).provisioning_start_next(scan).0,
            is_reply(action, old(self).provisioning_start_next(scan).1),
    {
        let wifi_context = self.state == State::FirstRunSetup || self.state == State::Settings;
        let admits = self.provisioning_idle_or_failed() && !self.live_connecting()
            && self.pending_confirmation.is_none() && !self.destructive_operation_in_flight();
        if !wifi_context || !admits || self.next_wifi_operation_id == u64::MAX {
            return Action::Rejected;
        }
        let operation = WifiOperationId(self.next_wifi_operation_id);
        self.next_wifi_operation_id = self.next_wifi_operation_id + 1;
        self.clear_reconnect();
        if scan {
            self.provisioning_state = ProvisioningState::Scanning(operation);
            Action::StartWifiScan { operation }
        } else {
            self.provisioning_state = ProvisioningState::ConnectingReplacement(operation);
            Action::ConnectWifi { operation }
        }
    }

    fn wifi_scan_finished(&mut self, operation: WifiOperationId, failure: Option<WifiFailure>) -> (action: Action)
        ensures
            *final(self) == old(self).wifi_scan_finished_next(operation, failure).0,
            is_reply(action, old(self).wifi_scan_finished_next(operation, failure).1),
    {
        if self.provisioning_state != ProvisioningState::Scanning(operation) {
            return Action::Rejected;
        }
        self.provisioning_state = match failure {
            None => ProvisioningState::Idle,
            Some(reason) => ProvisioningState::Failed { operation, reason },
        };
        Action::Nothing
    }

    fn wifi_connected(&mut self, operation: WifiOperationId) -> (action: Action)
        ensures
            *final(self) == old(self).wifi_connected_next(operation).0,
            is_reply(action, old(self).wifi_connected_next(operation).1),
    {
        if self.live_wifi_state == LiveWifiState::Connecting(operation) {
            self.live_wifi_state = LiveWifiState::Connected;
            self.reconnect_index = 0;
            self.clear_reconnect();
            return Action::Nothing;
        }
        if self.provisioning_state == ProvisioningState::ConnectingReplacement(operation) {
            self.provisioning_state = ProvisioningState::Persisting(operation);
            self.reconnect_index = 0;
            return Action::PersistWifi { operation };
        }
        Action::Rejected
    }

    fn wifi_persisted(&mut self, operation: WifiOperationId) -> (action: Action)
        ensures
            *final(self) == old(self).wifi_persisted_next(operation).0,
            is_reply(action, old(self).wifi_persisted_next(operation).1),
    {
        if self.provisioning_state != ProvisioningState::Persisting(operation) {
            return Action::Rejected;
        }
        let first_run = self.state == State::FirstRunSetup;
        self.network_configured = true;
        self.live_wifi_state = LiveWifiState::Connected;
        self.provisioning_state = ProvisioningState::Idle;
        self.clear_reconnect();
        if first_run {
            self.state = State::Launcher;
            Action::ShowLauncher
        } else {
            Action::Nothing
        }
    }

    fn wifi_failed(&mut self, operation: WifiOperationId, reason: WifiFailure) -> (action: Action)
        ensures
            *final(self) == old(self).wifi_failed_next(operation, reason).0,
            is_reply(action, old(self).wifi_failed_next(operation, reason).1),
    {
        let saved_connect = self.live_wifi_state == LiveWifiState::Connecting(operation);
        let replacement = self.provisioning_state == ProvisioningState::ConnectingReplacement(operation)
            || self.provisioning_state == ProvisioningState::Persisting(operation);
        if !saved_connect && !replacement {
            return Action::Rejected;
        }
        let needs_recovery = (self.network_configured
            && (saved_connect || self.live_wifi_state == LiveWifiState::Disconnected))
            || (!self.network_configured && replacement);
        let can_issue = needs_recovery && self.next_wifi_operation_id != u64::MAX;
        let reconnect = WifiOperationId(self.next_wifi_operation_id);
        if can_issue {
            self.next_wifi_operation_id = self.next_wifi_operation_id + 1;
        }
        if saved_connect {
            self.live_wifi_state = LiveWifiState::Disconnected;
        }
        if replacement {
            self.provisioning_state = ProvisioningState::Failed { operation, reason };
        }
        if can_issue {
            let delay = reconnect_delay(self.reconnect_index);
            self.reconnect_index = if self.reconnect_index < RECONNECT_STEPS - 1 {
                self.reconnect_index + 1
            } else {
                RECONNECT_STEPS - 1
            };
            self.pending_reconnect = Some(reconnect);
            self.pending_reconnect_delay = Some(delay);
            if replacement {
                let actions = vec![
                    Action::ClearPendingWifi { operation },
                    Action::ScheduleWifiReconnect { reconnect, after_secs: delay },
                ];
                assert(actions@ =~= seq![
                    Action::ClearPendingWifi { operation },
                    Action::ScheduleWifiReconnect { reconnect, after_secs: delay },
                ]);
                Action::Actions(actions)
            } else {
                Action::ScheduleWifiReconnect { reconnect, after_secs: delay }
            }
        } else if replacement {
            self.clear_reconnect();
            Action::ClearPendingWifi { operation }
        } else {
            Action::Nothing
        }
    }

    fn reconnect(&mut self, due: Option<WifiOperationId>) -> (action: Action)
        ensures
            *final(self) == old(self).reconnect_next(due).0,
            is_reply(action, old(self).reconnect_next(due).1),
    {
        let allowed = match due {
            Some(reconnect) => {
                let scheduled = match self.pending_reconnect {
                    Some(pending) => pending == reconnect,
                    None => false,
                };
                scheduled && self.live_wifi_state == LiveWifiState::Disconnected
            },
            None => !self.live_connecting(),
        };
        if !allowed || !self.network_configured || self.pending_confirmation.is_some()
            || self.destructive_operation_in_flight() || !self.provisioning_idle_or_failed()
            || self.next_wifi_operation_id == u64::MAX {
            return Action::Rejected;
        }
        let operation = WifiOperationId(self.next_wifi_operation_id);
        self.next_wifi_operation_id = self.next_wifi_operation_id + 1;
        self.clear_reconnect();
        self.live_wifi_state = LiveWifiState::Connecting(operation);
        Action::ConnectSavedWifi { operation }
    }

    fn destructive_requested(&mut self, factory: bool) -> (action: Action)
        ensures
            *final(self) == old(self).destructive_requested_next(factory).0,
            is_reply(action, old(self).destructive_requested_next(factory).1),
    {
        let context = self.state == State::Settings || self.state == State::SafeMode;
        let in_flight = self.live_connecting() || match self.provisioning_state {
            ProvisioningState::Scanning(_)
            | ProvisioningState::ConnectingReplacement(_)
            | ProvisioningState::Persisting(_) => true,
            _ => false,
        };
        if !context || self.pending_confirmation.is_some() || self.destructive_operation_in_flight()
            || in_flight || self.next_confirmation_id == u64::MAX {
            return Action::Rejected;
        }
        let confirmation = ConfirmationId(self.next_confirmation_id);
        self.next_confirmation_id = self.next_confirmation_id + 1;
        if factory {
            self.pending_confirmation = Some(PendingConfirmation::FactoryReset(confirmation));
            Action::ConfirmFactoryReset { confirmation }
        } else {
            self.pending_confirmation = Some(PendingConfirmation::ClearNetwork(confirmation));
            Action::ConfirmClearNetwork { confirmation }
        }
    }

    fn clear_network_confirmed(&mut self, confirmation: ConfirmationId) -> (action: Action)
        ensures
            *final(self) == old(self).clear_network_confirmed_next(confirmation).0,
            is_reply(action, old(self).clear_network_confirmed_next(confirmation).1),
    {
        let matches_pending = match self.pending_confirmation {
            Some(PendingConfirmation::ClearNetwork(pending)) => pending == confirmation,
            _ => false,
        };
        if !matches_pending {
            return Action::Rejected;
        }
        self.pending_confirmation = None;
        self.suspend_pending_reconnect();
        self.clearing_network = Some(ClearOperation { confirmation, safe_mode: self.state == State::SafeMode });
        Action::ClearNetwork { confirmation }
    }

    fn clear_network_completed(&mut self, confirmation: ConfirmationId, result: Result<(), FailureReason>) -> (action: Action)
        ensures
            *final(self) == old(self).clear_network_completed_next(confirmation, result).0,
            is_reply(action, old(self).clear_network_completed_next(confirmation, result).1),
    {
        let operation = match self.clearing_network {
            Some(operation) => operation,
            None => return Action::Rejected,
        };
        if operation.confirmation != confirmation {
            return Action::Rejected;
        }
        self.clearing_network = None;
        match result {
            Err(_) => match self.resume_suspended_reconnect() {
                Some(action) => action,
                None => Action::Nothing,
            },
            Ok(()) => {
                self.network_configured = false;
                self.live_wifi_state = LiveWifiState::Disconnected;
                self.provisioning_state = ProvisioningState::Idle;
                self.clear_reconnect();
                self.suspended_reconnect = None;
                if operation.safe_mode {
                    self.state = State::SafeMode;
                    Action::Nothing
                } else {
                    self.state = State::FirstRunSetup;
                    Action::ShowFirstRunSetup
                }
            },
        }
    }

    fn factory_reset_confirmed(&mut self, confirmation: ConfirmationId) -> (action: Action)
        ensures
            *final(self) == old(self).factory_reset_confirmed_next(confirmation).0,
            is_reply(action, old(self).factory_reset_confirmed_next(confirmation).1),
    {
        let matches_pending = match self.pending_confirmation {
            Some(PendingConfirmation::FactoryReset(pending)) => pending == confirmation,
            _ => false,
        };
        if !matches_pending {
            return Action::Rejected;
        }
        self.pending_confirmation = None;
        self.suspend_pending_reconnect();
        self.factory_resetting = Some(confirmation);
        Action::FactoryReset { confirmation }
    }

    fn factory_reset_completed(&mut self, confirmation: ConfirmationId, result: Result<(), FailureReason>) -> (action: Action)
        ensures
            *final(self) == old(self).factory_reset_completed_next(confirmation, result).0,
            is_reply(action, old(self).factory_reset_completed_next(confirmation, result).1),
    {
        let matches = match self.factory_resetting {
            Some(pending) => pending == confirmation,
            None => false,
        };
        if !matches {
            return Action::Rejected;
        }
        self.factory_resetting = None;
        match result {
            Ok(()) => {
                self.clear_reconnect();
                self.suspended_reconnect = None;
                Action::Reboot
            },
            Err(_) => match self.resume_suspended_reconnect() {
                Some(action) => action,
                None => Action::Nothing,
            },
        }
    }

    fn blocked_by_destructive(event: &Event) -> (blocked: bool)
        ensures
            blocked == Self::is_blocked_by_destructive(*event),
    {
        match event {
            Event::SetupSkipped | Event::OpenSettings | Event::BackPressed | Event::HomePressed
            | Event::OpenApp(_) | Event::AppStarted { .. } | Event::AppFailed { .. } | Event::RestartApp
            | Event::AppStopped { .. } | Event::WifiScanRequested | Event::WifiScanCompleted { .. }
            | Event::WifiScanFailed { .. } | Event::WifiConnectRequested | Event::WifiConnected { .. }
            | Event::WifiPersisted { .. } | Event::WifiFailed { .. } | Event::ReconnectDue { .. }
            | Event::ReconnectNowRequested => true,
            _ => false,
        }
    }

    /// Applies one event and answers with the platform action.
    pub fn dispatch(&mut self, event: Event) -> (action: Action)
        ensures
            *final(self) == old(self).next(event).0,
            is_reply(action, old(self).next(event).1),
            old(self).wf() ==> final(self).wf(),
    {
        if self.destructive_operation_in_flight() && Self::blocked_by_destructive(&event) {
            return Action::Rejected;
        }
        match event {
            Event::BootSampled { safe_mode } => self.boot_sampled(safe_mode),
            Event::StorageInitialized(result) => {
                if !self.boot_started {
                    return Action::Rejected;
                }
                self.stage(result, State::EarlyBoot, State::StorageReady, Action::ValidateProfile)
            },
            Event::ProfileValidated(result) => self.stage(
                result, State::StorageReady, State::BoardProfileValidated, Action::InitializeDisplay),
            Event::DisplayInitialized(result) => self.stage(
                result, State::BoardProfileValidated, State::DisplayReady, Action::InitializeSystemUi),
            Event::SystemUiInitialized(result) => self.stage(
                result, State::DisplayReady, State::SystemUiReady, Action::LoadNetworkConfig),
            Event::NetworkConfigLoaded { configured } => self.network_config_loaded(configured),
            Event::SetupSkipped => self.setup_skipped(),
            Event::OpenSettings => self.open_settings(),
            Event::SetBacklight(backlight) => self.set_backlight(backlight),
            Event::BackPressed | Event::HomePressed => self.go_home(),
            Event::OpenApp(app) => self.open_app(app),
            Event::AppStarted { session } => self.app_started(session),
            Event::AppFailed { session, reason } => self.app_failed(session, reason),
            Event::RestartApp => self.restart_app(),
            Event::AppStopped { session } => self.app_stopped(session),
            Event::WifiScanRequested => self.provisioning_start(true),
            Event::WifiScanCompleted { operation } => self.wifi_scan_finished(operation, None),
            Event::WifiScanFailed { operation, reason } => self.wifi_scan_finished(operation, Some(reason)),
            Event::WifiConnectRequested => self.provisioning_start(false),
            Event::WifiConnected { operation } => self.wifi_connected(operation),
            Event::WifiPersisted { operation } => self.wifi_persisted(operation),
            Event::WifiFailed { operation, reason } => self.wifi_failed(operation, reason),
            Event::ReconnectDue { reconnect } => self.reconnect(Some(reconnect)),
            Event::ReconnectNowRequested => self.reconnect(None),
            Event::ClearNetworkRequested => self.destructive_requested(false),
            Event::ClearNetworkConfirmed { confirmation } => self.clear_network_confirmed(confirmation),
            Event::ClearNetworkCompleted { confirmation, result } => self.clear_network_completed(confirmation, result),
            Event::FactoryResetRequested => self.destructive_requested(true),
            Event::FactoryResetConfirmed { confirmation } => self.factory_reset_confirmed(confirmation),
            Event::FactoryResetCompleted { confirmation, result } => self.factory_reset_completed(confirmation, result),
            Event::RebootRequested => Action::Reboot,
        }
    }
}



/// Splits a proof about `next` into one case per event.
proof fn lemma_next_by_event(os: MicroOs, event: Event)
    ensures
        os.next(event).1.len() == 1 || os.next(event).1.len() == 2,
        os.next(event).1.len() == 1 ==> os.next(event).1 == seq![os.next(event).1[0]],
        os.next(event).1.len() == 2 ==> os.next(event).1 == seq![os.next(event).1[0], os.next(event).1[1]],
{
    match event {
        Event::BootSampled { .. } => {},
        Event::StorageInitialized(..) => {},
        Event::ProfileValidated(..) => {},
        Event::DisplayInitialized(..) => {},
        Event::SystemUiInitialized(..) => {},
        Event::NetworkConfigLoaded { .. } => {},
        Event::SetupSkipped => {},
        Event::OpenSettings => {},
        Event::SetBacklight(..) => {},
        Event::BackPressed => {},
        Event::HomePressed => {},
        Event::OpenApp(..) => {},
        Event::AppStarted { .. } => {},
        Event::AppFailed { .. } => {},
        Event::RestartApp => {},
        Event::AppStopped { .. } => {},
        Event::WifiScanRequested => {},
        Event::WifiScanCompleted { .. } => {},
        Event::WifiScanFailed { .. } => {},
        Event::WifiConnectRequested => {},
        Event::WifiConnected { .. } => {},
        Event::WifiPersisted { .. } => {},
        Event::WifiFailed { .. } => {},
        Event::ReconnectDue { .. } => {},
        Event::ReconnectNowRequested => {},
        Event::ClearNetworkRequested => {},
        Event::ClearNetworkConfirmed { .. } => {},
        Event::ClearNetworkCompleted { .. } => {},
        Event::FactoryResetRequested => {},
        Event::FactoryResetConfirmed { .. } => {},
        Event::FactoryResetCompleted { .. } => {},
        Event::RebootRequested => {},
    }
}

/// The tree of a reply made of non-composite parts.
pub open spec fn reply_tree(parts: Seq<Action>) -> ActionTree {
    if parts.len() == 1 {
        ActionTree::Leaf(parts[0])
    } else {
        ActionTree::Group(parts.map_values(|part: Action| ActionTree::Leaf(part)))
    }
}

proof fn lemma_leaf_trees(parts: Seq<Action>)
    requires
        forall|i: int| 0 <= i < parts.len() ==> !(#[trigger] parts[i] is Actions),
    ensures
        action_trees(parts) == parts.map_values(|part: Action| ActionTree::Leaf(part)),
    decreases parts.len(),
{
    if parts.len() > 0 {
        lemma_leaf_trees(parts.drop_last());
        let last = parts[parts.len() - 1];
        assert(!(last is Actions));
        assert(action_tree(last) == ActionTree::Leaf(last));
        assert(action_trees(parts) == action_trees(parts.drop_last()).push(ActionTree::Leaf(last)));
        assert(action_trees(parts) =~= parts.map_values(|part: Action| ActionTree::Leaf(part)));
    } else {
        assert(action_trees(parts) =~= parts.map_values(|part: Action| ActionTree::Leaf(part)));
    }
}

/// Every reply of the reducer is made of non-composite parts, so the tree
/// of the returned action is the reply's tree.
pub proof fn lemma_reply_tree(os: MicroOs, event: Event, action: Action)
    requires
        is_reply(action, os.next(event).1),
    ensures
        action_tree(action) == reply_tree(os.next(event).1),
{
    lemma_next_by_event(os, event);
    match event {
        Event::BootSampled { .. } => {},
        Event::StorageInitialized(..) => {},
        Event::ProfileValidated(..) => {},
        Event::DisplayInitialized(..) => {},
        Event::SystemUiInitialized(..) => {},
        Event::NetworkConfigLoaded { .. } => {},
        Event::SetupSkipped => {},
        Event::OpenSettings => {},
        Event::SetBacklight(..) => {},
        Event::BackPressed => {},
        Event::HomePressed => {},
        Event::OpenApp(..) => {},
        Event::AppStarted { .. } => {},
        Event::AppFailed { .. } => {},
        Event::RestartApp => {},
        Event::AppStopped { .. } => {},
        Event::WifiScanRequested => {},
        Event::WifiScanCompleted { .. } => {},
        Event::WifiScanFailed { .. } => {},
        Event::WifiConnectRequested => {},
        Event::WifiConnected { .. } => {},
        Event::WifiPersisted { .. } => {},
        Event::WifiFailed { .. } => {},
        Event::ReconnectDue { .. } => {},
        Event::ReconnectNowRequested => {},
        Event::ClearNetworkRequested => {},
        Event::ClearNetworkConfirmed { .. } => {},
        Event::ClearNetworkCompleted { .. } => {},
        Event::FactoryResetRequested => {},
        Event::FactoryResetConfirmed { .. } => {},
        Event::FactoryResetCompleted { .. } => {},
        Event::RebootRequested => {},
    }
    let parts = os.next(event).1;
    assert(forall|i: int| 0 <= i < parts.len() ==> !(#[trigger] parts[i] is Actions));
    if parts.len() != 1 {
        lemma_leaf_trees(parts);
    }
}

/// A rejected event leaves the OS exactly as it was.
pub proof fn lemma_rejected_event_changes_nothing(os: MicroOs, event: Event)
    requires
        os.next(event).1 == seq![Action::Rejected],
    ensures
        os.next(event).0 == os,
{
    assert(os.next(event).1[0] == Action::Rejected);
    match event {
        Event::BootSampled { .. } => {},
        Event::StorageInitialized(..) => {},
        Event::ProfileValidated(..) => {},
        Event::DisplayInitialized(..) => {},
        Event::SystemUiInitialized(..) => {},
        Event::NetworkConfigLoaded { .. } => {},
        Event::SetupSkipped => {},
        Event::OpenSettings => {},
        Event::SetBacklight(..) => {},
        Event::BackPressed => {},
        Event::HomePressed => {},
        Event::OpenApp(..) => {},
        Event::AppStarted { .. } => {},
        Event::AppFailed { .. } => {},
        Event::RestartApp => {},
        Event::AppStopped { .. } => {},
        Event::WifiScanRequested => {},
        Event::WifiScanCompleted { .. } => {},
        Event::WifiScanFailed { .. } => {},
        Event::WifiConnectRequested => {},
        Event::WifiConnected { .. } => {},
        Event::WifiPersisted { .. } => {},
        Event::WifiFailed { .. } => {},
        Event::ReconnectDue { .. } => {},
        Event::ReconnectNowRequested => {},
        Event::ClearNetworkRequested => {},
        Event::ClearNetworkConfirmed { .. } => {},
        Event::ClearNetworkCompleted { .. } => {},
        Event::FactoryResetRequested => {},
        Event::FactoryResetConfirmed { .. } => {},
        Event::FactoryResetCompleted { .. } => {},
        Event::RebootRequested => {},
    }
}

/// The reducer's invariant holds initially and is kept by every event.
pub proof fn lemma_wf_preserved(os: MicroOs, event: Event)
    requires
        os.wf(),
    ensures
        MicroOs::initial().wf(),
        os.next(event).0.wf(),
{
    match event {
        Event::BootSampled { .. } => {},
        Event::StorageInitialized(..) => {},
        Event::ProfileValidated(..) => {},
        Event::DisplayInitialized(..) => {},
        Event::SystemUiInitialized(..) => {},
        Event::NetworkConfigLoaded { .. } => {},
        Event::SetupSkipped => {},
        Event::OpenSettings => {},
        Event::SetBacklight(..) => {},
        Event::BackPressed => {},
        Event::HomePressed => {},
        Event::OpenApp(..) => {},
        Event::AppStarted { .. } => {},
        Event::AppFailed { .. } => {},
        Event::RestartApp => {},
        Event::AppStopped { .. } => {},
        Event::WifiScanRequested => {},
        Event::WifiScanCompleted { .. } => {},
        Event::WifiScanFailed { .. } => {},
        Event::WifiConnectRequested => {},
        Event::WifiConnected { .. } => {},
        Event::WifiPersisted { .. } => {},
        Event::WifiFailed { .. } => {},
        Event::ReconnectDue { .. } => {},
        Event::ReconnectNowRequested => {},
        Event::ClearNetworkRequested => {},
        Event::ClearNetworkConfirmed { .. } => {},
        Event::ClearNetworkCompleted { .. } => {},
        Event::FactoryResetRequested => {},
        Event::FactoryResetConfirmed { .. } => {},
        Event::FactoryResetCompleted { .. } => {},
        Event::RebootRequested => {},
    }
}

/// Identifier counters never move backwards, so an identifier is never
/// issued twice; an issued identifier is the counter's previous value.
pub proof fn lemma_identifiers_are_fresh(os: MicroOs, event: Event)
    ensures
        os.next(event).0.next_app_session() >= os.next_app_session(),
        os.next(event).0.next_wifi_operation() >= os.next_wifi_operation(),
        os.next(event).0.next_confirmation() >= os.next_confirmation(),
        forall|i: int| 0 <= i < os.next(event).1.len() ==> match #[trigger] os.next(event).1[i] {
            Action::StartApp { session, .. } => session.0 == os.next_app_session()
                && os.next(event).0.next_app_session() == session.0 + 1,
            Action::StartWifiScan { operation } | Action::ConnectWifi { operation }
            | Action::ConnectSavedWifi { operation } => operation.0 == os.next_wifi_operation()
                && os.next(event).0.next_wifi_operation() == operation.0 + 1,
            Action::ConfirmClearNetwork { confirmation } | Action::ConfirmFactoryReset { confirmation } =>
                confirmation.0 == os.next_confirmation()
                && os.next(event).0.next_confirmation() == confirmation.0 + 1,
            _ => true,
        },
{
    match event {
        Event::BootSampled { .. } => {},
        Event::StorageInitialized(..) => {},
        Event::ProfileValidated(..) => {},
        Event::DisplayInitialized(..) => {},
        Event::SystemUiInitialized(..) => {},
        Event::NetworkConfigLoaded { .. } => {},
        Event::SetupSkipped => {},
        Event::OpenSettings => {},
        Event::SetBacklight(..) => {},
        Event::BackPressed => {},
        Event::HomePressed => {},
        Event::OpenApp(..) => {},
        Event::AppStarted { .. } => {},
        Event::AppFailed { .. } => {},
        Event::RestartApp => {},
        Event::AppStopped { .. } => {},
        Event::WifiScanRequested => {},
        Event::WifiScanCompleted { .. } => {},
        Event::WifiScanFailed { .. } => {},
        Event::WifiConnectRequested => {},
        Event::WifiConnected { .. } => {},
        Event::WifiPersisted { .. } => {},
        Event::WifiFailed { .. } => {},
        Event::ReconnectDue { .. } => {},
        Event::ReconnectNowRequested => {},
        Event::ClearNetworkRequested => {},
        Event::ClearNetworkConfirmed { .. } => {},
        Event::ClearNetworkCompleted { .. } => {},
        Event::FactoryResetRequested => {},
        Event::FactoryResetConfirmed { .. } => {},
        Event::FactoryResetCompleted { .. } => {},
        Event::RebootRequested => {},
    }
}

/// Identifiers stop before the largest value: with a counter at its maximum,
/// a request that needs a new identifier of that kind is refused and changes
/// nothing.
pub proof fn lemma_exhausted_identifiers_refuse(os: MicroOs, event: Event)
    requires
        os.wf(),
    ensures
        os.next_app_session() == u64::MAX && event is OpenApp ==> os.next(event) == (os, seq![Action::Rejected]),
        os.next_confirmation() == u64::MAX && os.confirmation() is None && (event is ClearNetworkRequested
            || event is FactoryResetRequested) ==> os.next(event) == (os, seq![Action::Rejected]),
        os.next_wifi_operation() == u64::MAX && os.provisioning() == ProvisioningState::Idle && (
        event is WifiScanRequested || event is WifiConnectRequested) ==> os.next(event) == (
            os,
            seq![Action::Rejected],
        ),
{
}

/// With the Wi-Fi operation counter at its maximum, a failed connection is
/// still recorded (the saved network drops to disconnected, a replacement
/// is marked failed) but no reconnect is scheduled. While a destructive
/// operation is in flight the failure is refused instead.
pub proof fn lemma_exhausted_reconnect_still_records_failure(
    os: MicroOs,
    operation: WifiOperationId,
    reason: WifiFailure,
)
    requires
        os.wf(),
        !os.destructive_in_flight(),
        os.next_wifi_operation() == u64::MAX,
        os.scheduled_reconnect() is None,
    ensures
        os.live_wifi() == LiveWifiState::Connecting(operation) && os.provisioning()
            != ProvisioningState::ConnectingReplacement(operation) && os.provisioning() != ProvisioningState::Persisting(
            operation,
        ) ==> {
            let (after, actions) = os.next(Event::WifiFailed { operation, reason });
            &&& after.live_wifi() == LiveWifiState::Disconnected
            &&& after.scheduled_reconnect() is None
            &&& actions == seq![Action::Nothing]
        },
        os.provisioning() == ProvisioningState::ConnectingReplacement(operation) ==> {
            let (after, actions) = os.next(Event::WifiFailed { operation, reason });
            &&& after.provisioning() == (ProvisioningState::Failed { operation, reason })
            &&& after.scheduled_reconnect() is None
            &&& actions == seq![Action::ClearPendingWifi { operation }]
        },
{
}

/// While a clear-network or factory reset is in flight, navigation, app and
/// Wi-Fi events are refused.
pub proof fn lemma_destructive_operation_blocks_navigation(os: MicroOs, event: Event)
    requires
        os.destructive_in_flight(),
        MicroOs::is_blocked_by_destructive(event),
    ensures
        os.next(event) == (os, seq![Action::Rejected]),
{
}

/// Entering safe mode drops any pending confirmation and any scheduled
/// reconnect.
pub proof fn lemma_safe_mode_discards_pending_work(os: MicroOs, event: Event, reason: FailureReason)
    requires
        os.next(event).1 == seq![Action::EnterSafeMode(reason)],
    ensures
        os.next(event).0.screen() == State::SafeMode,
        os.next(event).0.confirmation() is None,
        os.next(event).0.scheduled_reconnect() is None,
{
    assert(os.next(event).1[0] == Action::EnterSafeMode(reason));
    match event {
        Event::BootSampled { .. } => {},
        Event::StorageInitialized(..) => {},
        Event::ProfileValidated(..) => {},
        Event::DisplayInitialized(..) => {},
        Event::SystemUiInitialized(..) => {},
        Event::NetworkConfigLoaded { .. } => {},
        Event::SetupSkipped => {},
        Event::OpenSettings => {},
        Event::SetBacklight(..) => {},
        Event::BackPressed => {},
        Event::HomePressed => {},
        Event::OpenApp(..) => {},
        Event::AppStarted { .. } => {},
        Event::AppFailed { .. } => {},
        Event::RestartApp => {},
        Event::AppStopped { .. } => {},
        Event::WifiScanRequested => {},
        Event::WifiScanCompleted { .. } => {},
        Event::WifiScanFailed { .. } => {},
        Event::WifiConnectRequested => {},
        Event::WifiConnected { .. } => {},
        Event::WifiPersisted { .. } => {},
        Event::WifiFailed { .. } => {},
        Event::ReconnectDue { .. } => {},
        Event::ReconnectNowRequested => {},
        Event::ClearNetworkRequested => {},
        Event::ClearNetworkConfirmed { .. } => {},
        Event::ClearNetworkCompleted { .. } => {},
        Event::FactoryResetRequested => {},
        Event::FactoryResetConfirmed { .. } => {},
        Event::FactoryResetCompleted { .. } => {},
        Event::RebootRequested => {},
    }
}

/// Only an accepted `SetBacklight` changes the backlight, and it applies the
/// level it was given.
pub proof fn lemma_backlight_changes_only_on_request(os: MicroOs, event: Event)
    ensures
        os.next(event).0.backlight_level() != os.backlight_level() ==> event is SetBacklight,
        event matches Event::SetBacklight(level) ==> (os.next(event).1 != seq![Action::Rejected]
            ==> os.next(event).0.backlight_level() == level
                && os.next(event).1 == seq![Action::ApplyBacklight(level)]),
{
    match event {
        Event::BootSampled { .. } => {},
        Event::StorageInitialized(..) => {},
        Event::ProfileValidated(..) => {},
        Event::DisplayInitialized(..) => {},
        Event::SystemUiInitialized(..) => {},
        Event::NetworkConfigLoaded { .. } => {},
        Event::SetupSkipped => {},
        Event::OpenSettings => {},
        Event::SetBacklight(..) => {},
        Event::BackPressed => {},
        Event::HomePressed => {},
        Event::OpenApp(..) => {},
        Event::AppStarted { .. } => {},
        Event::AppFailed { .. } => {},
        Event::RestartApp => {},
        Event::AppStopped { .. } => {},
        Event::WifiScanRequested => {},
        Event::WifiScanCompleted { .. } => {},
        Event::WifiScanFailed { .. } => {},
        Event::WifiConnectRequested => {},
        Event::WifiConnected { .. } => {},
        Event::WifiPersisted { .. } => {},
        Event::WifiFailed { .. } => {},
        Event::ReconnectDue { .. } => {},
        Event::ReconnectNowRequested => {},
        Event::ClearNetworkRequested => {},
        Event::ClearNetworkConfirmed { .. } => {},
        Event::ClearNetworkCompleted { .. } => {},
        Event::FactoryResetRequested => {},
        Event::FactoryResetConfirmed { .. } => {},
        Event::FactoryResetCompleted { .. } => {},
        Event::RebootRequested => {},
    }
}

/// A destructive operation starts only with the confirmation that is
/// pending for that same operation, and consumes it.
pub proof fn lemma_destructive_actions_need_matching_confirmation(os: MicroOs, event: Event)
    ensures
        os.next(event).1 == seq![Action::ClearNetwork { confirmation: os.next(event).1[0]->ClearNetwork_confirmation }]
            ==> os.confirmation() == Some(PendingConfirmation::ClearNetwork(os.next(event).1[0]->ClearNetwork_confirmation))
                && os.next(event).0.confirmation() is None && os.next(event).0.destructive_in_flight(),
        os.next(event).1 == seq![Action::FactoryReset { confirmation: os.next(event).1[0]->FactoryReset_confirmation }]
            ==> os.confirmation() == Some(PendingConfirmation::FactoryReset(os.next(event).1[0]->FactoryReset_confirmation))
                && os.next(event).0.confirmation() is None && os.next(event).0.destructive_in_flight(),
{
    match event {
        Event::BootSampled { .. } => {},
        Event::StorageInitialized(..) => {},
        Event::ProfileValidated(..) => {},
        Event::DisplayInitialized(..) => {},
        Event::SystemUiInitialized(..) => {},
        Event::NetworkConfigLoaded { .. } => {},
        Event::SetupSkipped => {},
        Event::OpenSettings => {},
        Event::SetBacklight(..) => {},
        Event::BackPressed => {},
        Event::HomePressed => {},
        Event::OpenApp(..) => {},
        Event::AppStarted { .. } => {},
        Event::AppFailed { .. } => {},
        Event::RestartApp => {},
        Event::AppStopped { .. } => {},
        Event::WifiScanRequested => {},
        Event::WifiScanCompleted { .. } => {},
        Event::WifiScanFailed { .. } => {},
        Event::WifiConnectRequested => {},
        Event::WifiConnected { .. } => {},
        Event::WifiPersisted { .. } => {},
        Event::WifiFailed { .. } => {},
        Event::ReconnectDue { .. } => {},
        Event::ReconnectNowRequested => {},
        Event::ClearNetworkRequested => {},
        Event::ClearNetworkConfirmed { .. } => {},
        Event::ClearNetworkCompleted { .. } => {},
        Event::FactoryResetRequested => {},
        Event::FactoryResetConfirmed { .. } => {},
        Event::FactoryResetCompleted { .. } => {},
        Event::RebootRequested => {},
    }
}

/// App lifecycle callbacks are only accepted for the session they belong
/// to: a started/stopped callback for another session is rejected.
pub proof fn lemma_app_callbacks_match_session(os: MicroOs, event: Event)
    requires
        !os.destructive_in_flight(),
    ensures
        event matches Event::AppStarted { session } ==> (!(os.screen() matches State::AppStarting { session: s, .. } && s == session)
            ==> os.next(event) == (os, seq![Action::Rejected])),
        event matches Event::AppStopped { session } ==> (!(os.screen() matches State::AppStopping { session: s, .. } && s == session)
            ==> os.next(event) == (os, seq![Action::Rejected])),
{
}

/// A scheduled reconnect follows the back-off schedule and its step only
/// grows up to the last entry; a connected saved network resets it. The
/// next delay is always one of 1, 2, 5, 10 and 30 seconds, and its step
/// changes only by advancing on a failure that schedules a reconnect, or by
/// going back to the start.
pub proof fn lemma_reconnect_backoff(os: MicroOs, event: Event)
    requires
        os.wf(),
    ensures
        ({
            let d = reconnect_delay_at(os.next(event).0.reconnect_step());
            d == 1 || d == 2 || d == 5 || d == 10 || d == 30
        }),
        os.next(event).0.reconnect_step() == os.reconnect_step() || os.next(event).0.reconnect_step() == 0 || (
        event is WifiFailed && os.next(event).0.scheduled_reconnect() is Some && os.next(event).0.reconnect_step()
            == os.reconnect_step() + 1),
        forall|i: int| 0 <= i < os.next(event).1.len() ==> match #[trigger] os.next(event).1[i] {
            Action::ScheduleWifiReconnect { after_secs, reconnect } => event is WifiFailed ==> (
                after_secs == reconnect_delay_at(os.reconnect_step())
                && os.next(event).0.reconnect_step() == if os.reconnect_step() < 4 { os.reconnect_step() + 1 } else { 4 }
                && os.next(event).0.scheduled_reconnect() == Some(reconnect)),
            _ => true,
        },
        event matches Event::WifiConnected { operation } ==> (!os.destructive_in_flight()
            && os.live_wifi() == LiveWifiState::Connecting(operation)
            ==> os.next(event).0.reconnect_step() == 0 && os.next(event).0.live_wifi() == LiveWifiState::Connected),
        event matches Event::WifiConnected { operation } ==> (!os.destructive_in_flight()
            && os.provisioning() == ProvisioningState::ConnectingReplacement(operation)
            ==> os.next(event).0.reconnect_step() == 0),
        MicroOs::initial().reconnect_step() == 0,
        reconnect_delay_at(MicroOs::initial().reconnect_step()) == 1,
{
    lemma_wf_preserved(os, event);
    match event {
        Event::BootSampled { .. } => {},
        Event::StorageInitialized(..) => {},
        Event::ProfileValidated(..) => {},
        Event::DisplayInitialized(..) => {},
        Event::SystemUiInitialized(..) => {},
        Event::NetworkConfigLoaded { .. } => {},
        Event::SetupSkipped => {},
        Event::OpenSettings => {},
        Event::SetBacklight(..) => {},
        Event::BackPressed => {},
        Event::HomePressed => {},
        Event::OpenApp(..) => {},
        Event::AppStarted { .. } => {},
        Event::AppFailed { .. } => {},
        Event::RestartApp => {},
        Event::AppStopped { .. } => {},
        Event::WifiScanRequested => {},
        Event::WifiScanCompleted { .. } => {},
        Event::WifiScanFailed { .. } => {},
        Event::WifiConnectRequested => {},
        Event::WifiConnected { .. } => {},
        Event::WifiPersisted { .. } => {},
        Event::WifiFailed { .. } => {},
        Event::ReconnectDue { .. } => {},
        Event::ReconnectNowRequested => {},
        Event::ClearNetworkRequested => {},
        Event::ClearNetworkConfirmed { .. } => {},
        Event::ClearNetworkCompleted { .. } => {},
        Event::FactoryResetRequested => {},
        Event::FactoryResetConfirmed { .. } => {},
        Event::FactoryResetCompleted { .. } => {},
        Event::RebootRequested => {},
    }
}

/// First-run setup ends only by saving a network or by skipping setup.
pub proof fn lemma_first_run_exits(os: MicroOs, event: Event)
    requires
        os.wf(),
        os.screen() == State::FirstRunSetup,
    ensures
        os.next(event).0.screen() != State::FirstRunSetup ==> (event is SetupSkipped || event is WifiPersisted
            || event is BootSampled || event is StorageInitialized || event is ProfileValidated
            || event is DisplayInitialized || event is SystemUiInitialized),
        os.next(event).0.screen() == State::Launcher && event is WifiPersisted ==> os.next(event).0.configured(),
{
    match event {
        Event::BootSampled { .. } => {},
        Event::StorageInitialized(..) => {},
        Event::ProfileValidated(..) => {},
        Event::DisplayInitialized(..) => {},
        Event::SystemUiInitialized(..) => {},
        Event::NetworkConfigLoaded { .. } => {},
        Event::SetupSkipped => {},
        Event::OpenSettings => {},
        Event::SetBacklight(..) => {},
        Event::BackPressed => {},
        Event::HomePressed => {},
        Event::OpenApp(..) => {},
        Event::AppStarted { .. } => {},
        Event::AppFailed { .. } => {},
        Event::RestartApp => {},
        Event::AppStopped { .. } => {},
        Event::WifiScanRequested => {},
        Event::WifiScanCompleted { .. } => {},
        Event::WifiScanFailed { .. } => {},
        Event::WifiConnectRequested => {},
        Event::WifiConnected { .. } => {},
        Event::WifiPersisted { .. } => {},
        Event::WifiFailed { .. } => {},
        Event::ReconnectDue { .. } => {},
        Event::ReconnectNowRequested => {},
        Event::ClearNetworkRequested => {},
        Event::ClearNetworkConfirmed { .. } => {},
        Event::ClearNetworkCompleted { .. } => {},
        Event::FactoryResetRequested => {},
        Event::FactoryResetConfirmed { .. } => {},
        Event::FactoryResetCompleted { .. } => {},
        Event::RebootRequested => {},
    }
}

/// Every part of the reducer's state, open to read and to set.
#[derive(Debug, Clone, Copy, PartialEq, Eq)]
pub struct MicroOsParts {
    pub state: State,
    pub live_wifi_state: LiveWifiState,
    pub provisioning_state: ProvisioningState,
    pub network_configured: bool,
    pub boot_started: bool,
    pub pending_confirmation: Option<PendingConfirmation>,
    pub clearing_network: Option<ClearOperation>,
    pub factory_resetting: Option<ConfirmationId>,
    pub pending_reconnect: Option<WifiOperationId>,
    pub pending_reconnect_delay: Option<u32>,
    pub suspended_reconnect: Option<PendingReconnect>,
    pub backlight: Backlight,
    pub reconnect_index: usize,
    pub next_confirmation_id: u64,
    pub next_wifi_operation_id: u64,
    pub next_app_session_id: u64,
}

impl MicroOs {
    /// The reducer's state, part by part.
    pub closed spec fn fields(self) -> MicroOsParts {
        MicroOsParts {
            state: self.state,
            live_wifi_state: self.live_wifi_state,
            provisioning_state: self.provisioning_state,
            network_configured: self.network_configured,
            boot_started: self.boot_started,
            pending_confirmation: self.pending_confirmation,
            clearing_network: self.clearing_network,
            factory_resetting: self.factory_resetting,
            pending_reconnect: self.pending_reconnect,
            pending_reconnect_delay: self.pending_reconnect_delay,
            suspended_reconnect: self.suspended_reconnect,
            backlight: self.backlight,
            reconnect_index: self.reconnect_index,
            next_confirmation_id: self.next_confirmation_id,
            next_wifi_operation_id: self.next_wifi_operation_id,
            next_app_session_id: self.next_app_session_id,
        }
    }

    /// The reducer holding exactly `parts`.
    pub closed spec fn from_fields(parts: MicroOsParts) -> MicroOs {
        MicroOs {
            state: parts.state,
            live_wifi_state: parts.live_wifi_state,
            provisioning_state: parts.provisioning_state,
            network_configured: parts.network_configured,
            boot_started: parts.boot_started,
            pending_confirmation: parts.pending_confirmation,
            clearing_network: parts.clearing_network,
            factory_resetting: parts.factory_resetting,
            pending_reconnect: parts.pending_reconnect,
            pending_reconnect_delay: parts.pending_reconnect_delay,
            suspended_reconnect: parts.suspended_reconnect,
            backlight: parts.backlight,
            reconnect_index: parts.reconnect_index,
            next_confirmation_id: parts.next_confirmation_id,
            next_wifi_operation_id: parts.next_wifi_operation_id,
            next_app_session_id: parts.next_app_session_id,
        }
    }

    /// A reducer holding exactly `parts`.
    pub fn from_parts(parts: MicroOsParts) -> (os: MicroOs)
        ensures
            os.fields() == parts,
            os == MicroOs::from_fields(parts),
    {
        MicroOs {
            state: parts.state,
            live_wifi_state: parts.live_wifi_state,
            provisioning_state: parts.provisioning_state,
            network_configured: parts.network_configured,
            boot_started: parts.boot_started,
            pending_confirmation: parts.pending_confirmation,
            clearing_network: parts.clearing_network,
            factory_resetting: parts.factory_resetting,
            pending_reconnect: parts.pending_reconnect,
            pending_reconnect_delay: parts.pending_reconnect_delay,
            suspended_reconnect: parts.suspended_reconnect,
            backlight: parts.backlight,
            reconnect_index: parts.reconnect_index,
            next_confirmation_id: parts.next_confirmation_id,
            next_wifi_operation_id: parts.next_wifi_operation_id,
            next_app_session_id: parts.next_app_session_id,
        }
    }

    /// The reducer's state, part by part.
    pub fn parts(&self) -> (parts: MicroOsParts)
        ensures
            parts == self.fields(),
    {
        MicroOsParts {
            state: self.state,
            live_wifi_state: self.live_wifi_state,
            provisioning_state: self.provisioning_state,
            network_configured: self.network_configured,
            boot_started: self.boot_started,
            pending_confirmation: self.pending_confirmation,
            clearing_network: self.clearing_network,
            factory_resetting: self.factory_resetting,
            pending_reconnect: self.pending_reconnect,
            pending_reconnect_delay: self.pending_reconnect_delay,
            suspended_reconnect: self.suspended_reconnect,
            backlight: self.backlight,
            reconnect_index: self.reconnect_index,
            next_confirmation_id: self.next_confirmation_id,
            next_wifi_operation_id: self.next_wifi_operation_id,
            next_app_session_id: self.next_app_session_id,
        }
    }
}

/// A reducer is determined by its parts, and each view of it reads one of
/// them.
pub proof fn lemma_fields(os: MicroOs, other: MicroOs, parts: MicroOsParts)
    ensures
        MicroOs::from_fields(parts).fields() == parts,
        MicroOs::from_fields(os.fields()) == os,
        os.fields() == other.fields() ==> os == other,
        os.screen() == os.fields().state,
        os.live_wifi() == os.fields().live_wifi_state,
        os.provisioning() == os.fields().provisioning_state,
        os.configured() == os.fields().network_configured,
        os.confirmation() == os.fields().pending_confirmation,
        os.backlight_level() == os.fields().backlight,
        os.reconnect_step() == os.fields().reconnect_index as int,
        os.scheduled_reconnect() == os.fields().pending_reconnect,
        os.next_confirmation() == os.fields().next_confirmation_id,
        os.next_wifi_operation() == os.fields().next_wifi_operation_id,
        os.next_app_session() == os.fields().next_app_session_id,
        os.destructive_in_flight() <==> (os.fields().clearing_network is Some || os.fields().factory_resetting is Some),
{
}

/// The reconnect step is a position in the schedule: never negative, and
/// within the schedule in every well-formed state.
pub proof fn lemma_reconnect_step_range(os: MicroOs)
    ensures
        0 <= os.reconnect_step(),
        os.wf() ==> os.reconnect_step() < RECONNECT_STEPS,
{
}

/// The fresh reducer, part by part.
pub proof fn lemma_initial_parts()
    ensures
        MicroOs::initial().fields() == (MicroOsParts {
            state: State::EarlyBoot,
            live_wifi_state: LiveWifiState::Disconnected,
            provisioning_state: ProvisioningState::Idle,
            network_configured: false,
            boot_started: false,
            pending_confirmation: None,
            clearing_network: None,
            factory_resetting: None,
            pending_reconnect: None,
            pending_reconnect_delay: None,
            suspended_reconnect: None,
            backlight: MicroOs::initial().fields().backlight,
            reconnect_index: 0,
            next_confirmation_id: 1,
            next_wifi_operation_id: 1,
            next_app_session_id: 1,
        }),
{
}

/// The boot sequence: each stage that completes in its own state moves the
/// reducer to the next and asks for the next step; a storage result counts
/// only after the boot was sampled.
pub proof fn lemma_boot_stages(os: MicroOs)
    ensures
        ({
            let p = os.fields();
            &&& (p.state == State::EarlyBoot && !p.boot_started) ==> os.next(Event::BootSampled { safe_mode: false })
                == (MicroOs::from_fields(MicroOsParts { boot_started: true, ..p }), seq![Action::InitializeStorage])
            &&& (p.state == State::EarlyBoot && p.boot_started) ==> os.next(Event::StorageInitialized(Ok(())))
                == (MicroOs::from_fields(MicroOsParts { state: State::StorageReady, ..p }), seq![Action::ValidateProfile])
            &&& !p.boot_started ==> os.next(Event::StorageInitialized(Ok(()))) == (os, seq![Action::Rejected])
            &&& p.state == State::StorageReady ==> os.next(Event::ProfileValidated(Ok(()))) == (MicroOs::from_fields(
                MicroOsParts { state: State::BoardProfileValidated, ..p },
            ), seq![Action::InitializeDisplay])
            &&& p.state == State::BoardProfileValidated ==> os.next(Event::DisplayInitialized(Ok(()))) == (
            MicroOs::from_fields(MicroOsParts { state: State::DisplayReady, ..p }), seq![Action::InitializeSystemUi])
            &&& p.state == State::DisplayReady ==> os.next(Event::SystemUiInitialized(Ok(()))) == (MicroOs::from_fields(
                MicroOsParts { state: State::SystemUiReady, ..p },
            ), seq![Action::LoadNetworkConfig])
            &&& p.state == State::SystemUiReady ==> os.next(Event::NetworkConfigLoaded { configured: false }) == (
            MicroOs::from_fields(
                MicroOsParts {
                    state: State::FirstRunSetup,
                    network_configured: false,
                    live_wifi_state: LiveWifiState::Disconnected,
                    ..p
                },
            ), seq![Action::ShowFirstRunSetup])
            &&& (p.state == State::SystemUiReady && p.next_wifi_operation_id < u64::MAX) ==> os.next(
                Event::NetworkConfigLoaded { configured: true },
            ) == (MicroOs::from_fields(
                MicroOsParts {
                    state: State::Launcher,
                    network_configured: true,
                    live_wifi_state: LiveWifiState::Connecting(WifiOperationId(p.next_wifi_operation_id)),
                    next_wifi_operation_id: (p.next_wifi_operation_id + 1) as u64,
                    ..p
                },
            ), seq![Action::ShowLauncher, Action::ConnectSavedWifi { operation: WifiOperationId(p.next_wifi_operation_id) }])
        }),
{
}

/// Moving between the launcher, settings and apps when no confirmation is
/// pending and no destructive operation runs.
pub proof fn lemma_navigation(os: MicroOs, app: AppId)
    requires
        os.fields().pending_confirmation is None,
        !os.destructive_in_flight(),
    ensures
        ({
            let p = os.fields();
            &&& p.state == State::FirstRunSetup ==> os.next(Event::SetupSkipped) == (MicroOs::from_fields(
                MicroOsParts { state: State::Launcher, ..p },
            ), seq![Action::ShowLauncher])
            &&& p.state == State::Launcher ==> os.next(Event::OpenSettings) == (MicroOs::from_fields(
                MicroOsParts { state: State::Settings, ..p },
            ), seq![Action::ShowSettings])
            &&& p.state == State::Settings ==> os.next(Event::BackPressed) == (MicroOs::from_fields(
                MicroOsParts { state: State::Launcher, ..p },
            ), seq![Action::ShowLauncher])
            &&& p.state == State::Settings ==> os.next(Event::HomePressed) == os.next(Event::BackPressed)
            &&& p.state == State::Launcher ==> os.next(Event::HomePressed) == (os, seq![Action::Nothing])
            &&& (p.state == State::Launcher && p.next_app_session_id < u64::MAX) ==> os.next(Event::OpenApp(app)) == (
            MicroOs::from_fields(
                MicroOsParts {
                    state: State::AppStarting { app, session: AppSessionId(p.next_app_session_id) },
                    next_app_session_id: (p.next_app_session_id + 1) as u64,
                    ..p
                },
            ), seq![Action::StartApp { app, session: AppSessionId(p.next_app_session_id) }])
            &&& (p.state == State::Launcher && p.next_app_session_id == u64::MAX) ==> os.next(Event::OpenApp(app)) == (
            os, seq![Action::Rejected])
            &&& p.state != State::Launcher ==> os.next(Event::OpenApp(app)) == (os, seq![Action::Rejected])
        }),
{
}

/// The backlight can be set from the launcher and from settings, and only
/// there: the level requested becomes the reducer's level, nothing else
/// changes, and the platform is asked to apply that level. Elsewhere the
/// request is refused and nothing changes.
pub proof fn lemma_backlight_requests(os: MicroOs, level: Backlight)
    ensures
        (os.fields().state == State::Launcher || os.fields().state == State::Settings) ==> os.next(
            Event::SetBacklight(level),
        ) == (MicroOs::from_fields(MicroOsParts { backlight: level, ..os.fields() }), seq![Action::ApplyBacklight(level)]),
        !(os.fields().state == State::Launcher || os.fields().state == State::Settings) ==> os.next(
            Event::SetBacklight(level),
        ) == (os, seq![Action::Rejected]),
{
}

} // verus!
