//! Human-readable descriptions of reducer values, in the same notation as
//! their `Debug` output: `ApplyBacklight(Off)`,
//! `StartApp { app: Counter, session: AppSessionId(1) }`,
//! `Actions([ShowLauncher, ConnectSavedWifi { operation: WifiOperationId(1) }])`.
use vstd::prelude::*;
use vstd::string::StringExecFns;
use crate::os::{
    Action, ActionTree, AppId, AppSessionId, Backlight, ConfirmationId, FailureReason,
    LiveWifiState, State, WifiOperationId,
};
use crate::text::push_decimal;

verus! {

pub open spec fn app_text(app: AppId) -> Seq<char> {
    match app {
        AppId::Counter => "Counter"@,
    }
}

pub open spec fn failure_text(reason: FailureReason) -> Seq<char> {
    match reason {
        FailureReason::SafeModeRequested => "SafeModeRequested"@,
        FailureReason::StorageCorrupt => "StorageCorrupt"@,
        FailureReason::InvalidBoardProfile => "InvalidBoardProfile"@,
        FailureReason::HardwareUnavailable => "HardwareUnavailable"@,
        FailureReason::AppCrashed => "AppCrashed"@,
        FailureReason::Internal => "Internal"@,
    }
}

pub open spec fn backlight_text(level: Backlight) -> Seq<char> {
    match level {
        Backlight::Off => "Off"@,
        Backlight::Low => "Low"@,
        Backlight::Medium => "Medium"@,
        Backlight::High => "High"@,
    }
}

pub open spec fn operation_text(operation: WifiOperationId) -> Seq<char> {
    "WifiOperationId("@ + crate::text::decimal(operation.0 as nat) + ")"@
}

pub open spec fn session_text(session: AppSessionId) -> Seq<char> {
    "AppSessionId("@ + crate::text::decimal(session.0 as nat) + ")"@
}

pub open spec fn confirmation_text(confirmation: ConfirmationId) -> Seq<char> {
    "ConfirmationId("@ + crate::text::decimal(confirmation.0 as nat) + ")"@
}

pub open spec fn live_wifi_text(wifi: LiveWifiState) -> Seq<char> {
    match wifi {
        LiveWifiState::Disconnected => "Disconnected"@,
        LiveWifiState::Connecting(operation) => "Connecting("@ + operation_text(operation) + ")"@,
        LiveWifiState::Connected => "Connected"@,
    }
}

/// An app screen as `Name(App, session)`, e.g. `AppRunning(Counter, 1)`.
pub open spec fn app_screen_text(name: Seq<char>, app: AppId, session: AppSessionId) -> Seq<char> {
    name + "("@ + app_text(app) + ", "@ + crate::text::decimal(session.0 as nat)
}

/// The screen description: app screens name the app and the bare session
/// number, every other screen is its variant name.
pub open spec fn state_text(state: State) -> Seq<char> {
    match state {
        State::EarlyBoot => "EarlyBoot"@,
        State::SafeMode => "SafeMode"@,
        State::StorageReady => "StorageReady"@,
        State::BoardProfileValidated => "BoardProfileValidated"@,
        State::DisplayReady => "DisplayReady"@,
        State::SystemUiReady => "SystemUiReady"@,
        State::FirstRunSetup => "FirstRunSetup"@,
        State::Launcher => "Launcher"@,
        State::AppStarting { app, session } => app_screen_text("AppStarting"@, app, session) + ")"@,
        State::AppRunning { app, session } => app_screen_text("AppRunning"@, app, session) + ")"@,
        State::AppStopping { app, session, .. } => app_screen_text("AppStopping"@, app, session) + ")"@,
        State::AppError { app, session, reason } => app_screen_text("AppError"@, app, session) + ", "@
            + failure_text(reason) + ")"@,
        State::Settings => "Settings"@,
    }
}

pub open spec fn with_operation(name: Seq<char>, operation: WifiOperationId) -> Seq<char> {
    name + " { operation: "@ + operation_text(operation) + " }"@
}

pub open spec fn with_confirmation(name: Seq<char>, confirmation: ConfirmationId) -> Seq<char> {
    name + " { confirmation: "@ + confirmation_text(confirmation) + " }"@
}

pub open spec fn with_session(name: Seq<char>, app: AppId, session: AppSessionId) -> Seq<char> {
    name + " { app: "@ + app_text(app) + ", session: "@ + session_text(session)
}

/// The description of a non-composite action.
pub open spec fn leaf_text(action: Action) -> Seq<char> {
    match action {
        Action::Nothing => "None"@,
        Action::Rejected => "Rejected"@,
        Action::Actions(_) => "Actions"@,
        Action::EnterSafeMode(reason) => "EnterSafeMode("@ + failure_text(reason) + ")"@,
        Action::InitializeStorage => "InitializeStorage"@,
        Action::ValidateProfile => "ValidateProfile"@,
        Action::InitializeDisplay => "InitializeDisplay"@,
        Action::InitializeSystemUi => "InitializeSystemUi"@,
        Action::LoadNetworkConfig => "LoadNetworkConfig"@,
        Action::ShowFirstRunSetup => "ShowFirstRunSetup"@,
        Action::ShowLauncher => "ShowLauncher"@,
        Action::ShowSettings => "ShowSettings"@,
        Action::ApplyBacklight(level) => "ApplyBacklight("@ + backlight_text(level) + ")"@,
        Action::StartWifiScan { operation } => with_operation("StartWifiScan"@, operation),
        Action::ConnectWifi { operation } => with_operation("ConnectWifi"@, operation),
        Action::ConnectSavedWifi { operation } => with_operation("ConnectSavedWifi"@, operation),
        Action::PersistWifi { operation } => with_operation("PersistWifi"@, operation),
        Action::ClearPendingWifi { operation } => with_operation("ClearPendingWifi"@, operation),
        Action::ScheduleWifiReconnect { reconnect, after_secs } => "ScheduleWifiReconnect { reconnect: "@
            + operation_text(reconnect) + ", after_secs: "@ + crate::text::decimal(after_secs as nat)
            + " }"@,
        Action::StartApp { app, session } => with_session("StartApp"@, app, session) + " }"@,
        Action::StopApp { app, session } => with_session("StopApp"@, app, session) + " }"@,
        Action::ShowAppError { app, session, reason } => with_session("ShowAppError"@, app, session)
            + ", reason: "@ + failure_text(reason) + " }"@,
        Action::ConfirmClearNetwork { confirmation } => with_confirmation("ConfirmClearNetwork"@, confirmation),
        Action::ClearNetwork { confirmation } => with_confirmation("ClearNetwork"@, confirmation),
        Action::ConfirmFactoryReset { confirmation } => with_confirmation("ConfirmFactoryReset"@, confirmation),
        Action::FactoryReset { confirmation } => with_confirmation("FactoryReset"@, confirmation),
        Action::Reboot => "Reboot"@,
    }
}

/// The description of an action tree; a group lists its members in order.
pub open spec fn action_text(tree: ActionTree) -> Seq<char>
    decreases tree,
{
    match tree {
        ActionTree::Leaf(action) => leaf_text(action),
        ActionTree::Group(members) => "Actions(["@ + members_text(members) + "])"@,
    }
}

/// The descriptions of `trees`, separated by `", "`.
pub open spec fn members_text(trees: Seq<ActionTree>) -> Seq<char>
    decreases trees,
{
    if trees.len() == 0 {
        Seq::empty()
    } else if trees.len() == 1 {
        action_text(trees[0])
    } else {
        members_text(trees.drop_last()) + ", "@ + action_text(trees.last())
    }
}

/// The name `Debug` writes for each kind of action (the reducer's
/// `Nothing` is written `None`).
pub open spec fn variant_name(action: Action) -> Seq<char> {
    match action {
        Action::Nothing => ("None"@),
        Action::Actions(_) => ("Actions"@),
        Action::Rejected => ("Rejected"@),
        Action::InitializeStorage => ("InitializeStorage"@),
        Action::ValidateProfile => ("ValidateProfile"@),
        Action::InitializeDisplay => ("InitializeDisplay"@),
        Action::InitializeSystemUi => ("InitializeSystemUi"@),
        Action::LoadNetworkConfig => ("LoadNetworkConfig"@),
        Action::ShowFirstRunSetup => ("ShowFirstRunSetup"@),
        Action::ShowLauncher => ("ShowLauncher"@),
        Action::ShowSettings => ("ShowSettings"@),
        Action::Reboot => ("Reboot"@),
        Action::EnterSafeMode(_) => ("EnterSafeMode"@),
        Action::ApplyBacklight(_) => ("ApplyBacklight"@),
        Action::StartWifiScan { .. } => ("StartWifiScan"@),
        Action::ConnectWifi { .. } => ("ConnectWifi"@),
        Action::ConnectSavedWifi { .. } => ("ConnectSavedWifi"@),
        Action::PersistWifi { .. } => ("PersistWifi"@),
        Action::ClearPendingWifi { .. } => ("ClearPendingWifi"@),
        Action::ConfirmClearNetwork { .. } => ("ConfirmClearNetwork"@),
        Action::ClearNetwork { .. } => ("ClearNetwork"@),
        Action::ConfirmFactoryReset { .. } => ("ConfirmFactoryReset"@),
        Action::FactoryReset { .. } => ("FactoryReset"@),
        Action::ScheduleWifiReconnect { .. } => ("ScheduleWifiReconnect"@),
        Action::StartApp { .. } => ("StartApp"@),
        Action::StopApp { .. } => ("StopApp"@),
        Action::ShowAppError { .. } => ("ShowAppError"@),
    }
}

/// `text` begins with `name`, and the name ends there: the text ends, or an
/// opening bracket or a space follows.
pub open spec fn names_variant(text: Seq<char>, name: Seq<char>) -> bool {
    &&& name.len() <= text.len()
    &&& text.subrange(0, name.len() as int) == name
    &&& (text.len() == name.len() || text[name.len() as int] == '(' || text[name.len() as int] == ' ')
}

proof fn lemma_names_with(name: Seq<char>, rest: Seq<char>)
    requires
        rest.len() == 0 || rest[0] == '(' || rest[0] == ' ',
    ensures
        names_variant(name + rest, name),
{
    assert((name + rest).subrange(0, name.len() as int) =~= name);
}

/// Each non-composite action is described under its own name, as `Debug`
/// writes it: `ShowSettings` reads `ShowSettings`, `ApplyBacklight(Low)`
/// starts with `ApplyBacklight(`, `StartApp { .. }` with `StartApp `.
pub proof fn lemma_leaf_names(action: Action)
    requires
        !(action is Actions),
    ensures
        names_variant(leaf_text(action), variant_name(action)),
{
    reveal_strlit("(");
    reveal_strlit(" { operation: ");
    reveal_strlit(" { confirmation: ");
    reveal_strlit(" { app: ");
    reveal_strlit(" { reconnect: ");
    match action {
        Action::EnterSafeMode(reason) => {
            reveal_strlit("EnterSafeMode(");
            reveal_strlit("EnterSafeMode");
            assert("EnterSafeMode("@ =~= "EnterSafeMode"@ + "("@);
            let rest = "("@ + failure_text(reason) + ")"@;
            assert(leaf_text(action) =~= "EnterSafeMode"@ + rest);
            lemma_names_with("EnterSafeMode"@, rest);
        },
        Action::ApplyBacklight(level) => {
            reveal_strlit("ApplyBacklight(");
            reveal_strlit("ApplyBacklight");
            assert("ApplyBacklight("@ =~= "ApplyBacklight"@ + "("@);
            let rest = "("@ + backlight_text(level) + ")"@;
            assert(leaf_text(action) =~= "ApplyBacklight"@ + rest);
            lemma_names_with("ApplyBacklight"@, rest);
        },
        Action::ScheduleWifiReconnect { reconnect, after_secs } => {
            reveal_strlit("ScheduleWifiReconnect { reconnect: ");
            reveal_strlit("ScheduleWifiReconnect");
            assert("ScheduleWifiReconnect { reconnect: "@ =~= "ScheduleWifiReconnect"@ + " { reconnect: "@);
            let rest = " { reconnect: "@ + operation_text(reconnect) + ", after_secs: "@ + crate::text::decimal(
                after_secs as nat,
            ) + " }"@;
            assert(leaf_text(action) =~= "ScheduleWifiReconnect"@ + rest);
            lemma_names_with("ScheduleWifiReconnect"@, rest);
        },
        Action::StartApp { .. } | Action::StopApp { .. } | Action::ShowAppError { .. } => {
            let name = variant_name(action);
            assert(leaf_text(action) =~= name + leaf_text(action).skip(name.len() as int));
            lemma_names_with(name, leaf_text(action).skip(name.len() as int));
        },
        Action::StartWifiScan { .. } | Action::ConnectWifi { .. } | Action::ConnectSavedWifi { .. }
        | Action::PersistWifi { .. } | Action::ClearPendingWifi { .. } | Action::ConfirmClearNetwork { .. }
        | Action::ClearNetwork { .. } | Action::ConfirmFactoryReset { .. } | Action::FactoryReset { .. } => {
            let name = variant_name(action);
            assert(leaf_text(action) =~= name + leaf_text(action).skip(name.len() as int));
            lemma_names_with(name, leaf_text(action).skip(name.len() as int));
        },
        _ => {
            lemma_names_with(variant_name(action), Seq::empty());
            assert(variant_name(action) + Seq::<char>::empty() =~= variant_name(action));
        },
    }
}

proof fn lemma_cancel(p: Seq<char>, x: Seq<char>, y: Seq<char>, q: Seq<char>)
    requires
        p + x + q == p + y + q,
    ensures
        x == y,
{
    assert((p + x + q).len() == (p + y + q).len());
    assert(x =~= (p + x + q).subrange(p.len() as int, (p.len() + x.len()) as int));
    assert(y =~= (p + y + q).subrange(p.len() as int, (p.len() + y.len()) as int));
}

/// Different failure reasons are named differently.
pub proof fn lemma_failure_text_injective(x: FailureReason, y: FailureReason)
    ensures
        failure_text(x) == failure_text(y) ==> x == y,
{
    reveal_strlit("SafeModeRequested");
    reveal_strlit("StorageCorrupt");
    reveal_strlit("InvalidBoardProfile");
    reveal_strlit("HardwareUnavailable");
    reveal_strlit("AppCrashed");
    reveal_strlit("Internal");
    if failure_text(x) == failure_text(y) {
        match (x, y) {
        (FailureReason::SafeModeRequested, FailureReason::StorageCorrupt) | (FailureReason::StorageCorrupt, FailureReason::SafeModeRequested) => {
            assert(failure_text(x)[1] != failure_text(y)[1]);
        },
        (FailureReason::SafeModeRequested, FailureReason::InvalidBoardProfile) | (FailureReason::InvalidBoardProfile, FailureReason::SafeModeRequested) => {
            assert(failure_text(x)[0] != failure_text(y)[0]);
        },
        (FailureReason::SafeModeRequested, FailureReason::HardwareUnavailable) | (FailureReason::HardwareUnavailable, FailureReason::SafeModeRequested) => {
            assert(failure_text(x)[0] != failure_text(y)[0]);
        },
        (FailureReason::SafeModeRequested, FailureReason::AppCrashed) | (FailureReason::AppCrashed, FailureReason::SafeModeRequested) => {
            assert(failure_text(x)[0] != failure_text(y)[0]);
        },
        (FailureReason::SafeModeRequested, FailureReason::Internal) | (FailureReason::Internal, FailureReason::SafeModeRequested) => {
            assert(failure_text(x)[0] != failure_text(y)[0]);
        },
        (FailureReason::StorageCorrupt, FailureReason::InvalidBoardProfile) | (FailureReason::InvalidBoardProfile, FailureReason::StorageCorrupt) => {
            assert(failure_text(x)[0] != failure_text(y)[0]);
        },
        (FailureReason::StorageCorrupt, FailureReason::HardwareUnavailable) | (FailureReason::HardwareUnavailable, FailureReason::StorageCorrupt) => {
            assert(failure_text(x)[0] != failure_text(y)[0]);
        },
        (FailureReason::StorageCorrupt, FailureReason::AppCrashed) | (FailureReason::AppCrashed, FailureReason::StorageCorrupt) => {
            assert(failure_text(x)[0] != failure_text(y)[0]);
        },
        (FailureReason::StorageCorrupt, FailureReason::Internal) | (FailureReason::Internal, FailureReason::StorageCorrupt) => {
            assert(failure_text(x)[0] != failure_text(y)[0]);
        },
        (FailureReason::InvalidBoardProfile, FailureReason::HardwareUnavailable) | (FailureReason::HardwareUnavailable, FailureReason::InvalidBoardProfile) => {
            assert(failure_text(x)[0] != failure_text(y)[0]);
        },
        (FailureReason::InvalidBoardProfile, FailureReason::AppCrashed) | (FailureReason::AppCrashed, FailureReason::InvalidBoardProfile) => {
            assert(failure_text(x)[0] != failure_text(y)[0]);
        },
        (FailureReason::InvalidBoardProfile, FailureReason::Internal) | (FailureReason::Internal, FailureReason::InvalidBoardProfile) => {
            assert(failure_text(x)[2] != failure_text(y)[2]);
        },
        (FailureReason::HardwareUnavailable, FailureReason::AppCrashed) | (FailureReason::AppCrashed, FailureReason::HardwareUnavailable) => {
            assert(failure_text(x)[0] != failure_text(y)[0]);
        },
        (FailureReason::HardwareUnavailable, FailureReason::Internal) | (FailureReason::Internal, FailureReason::HardwareUnavailable) => {
            assert(failure_text(x)[0] != failure_text(y)[0]);
        },
        (FailureReason::AppCrashed, FailureReason::Internal) | (FailureReason::Internal, FailureReason::AppCrashed) => {
            assert(failure_text(x)[0] != failure_text(y)[0]);
        },
            _ => {},
        }
    }
}

/// Different backlight levels are named differently.
pub proof fn lemma_backlight_text_injective(x: Backlight, y: Backlight)
    ensures
        backlight_text(x) == backlight_text(y) ==> x == y,
{
    reveal_strlit("Off");
    reveal_strlit("Low");
    reveal_strlit("Medium");
    reveal_strlit("High");
    if backlight_text(x) == backlight_text(y) {
        match (x, y) {
        (Backlight::Off, Backlight::Low) | (Backlight::Low, Backlight::Off) => {
            assert(backlight_text(x)[0] != backlight_text(y)[0]);
        },
        (Backlight::Off, Backlight::Medium) | (Backlight::Medium, Backlight::Off) => {
            assert(backlight_text(x)[0] != backlight_text(y)[0]);
        },
        (Backlight::Off, Backlight::High) | (Backlight::High, Backlight::Off) => {
            assert(backlight_text(x)[0] != backlight_text(y)[0]);
        },
        (Backlight::Low, Backlight::Medium) | (Backlight::Medium, Backlight::Low) => {
            assert(backlight_text(x)[0] != backlight_text(y)[0]);
        },
        (Backlight::Low, Backlight::High) | (Backlight::High, Backlight::Low) => {
            assert(backlight_text(x)[0] != backlight_text(y)[0]);
        },
        (Backlight::Medium, Backlight::High) | (Backlight::High, Backlight::Medium) => {
            assert(backlight_text(x)[0] != backlight_text(y)[0]);
        },
            _ => {},
        }
    }
}

proof fn lemma_numbered(p: Seq<char>, m: nat, n: nat, q: Seq<char>)
    requires
        p + crate::text::decimal(m) + q == p + crate::text::decimal(n) + q,
    ensures
        m == n,
{
    lemma_cancel(p, crate::text::decimal(m), crate::text::decimal(n), q);
    crate::text::lemma_decimal_injective(m, n);
}

/// Distinct non-composite actions of one kind are described differently:
/// the level, the reason, the operation, the session or the confirmation
/// an action carries shows in its description.
pub proof fn lemma_leaf_text_injective(a: Action, b: Action)
    requires
        !(a is Actions),
        !(a is ScheduleWifiReconnect),
        !(a is ShowAppError),
        crate::esp::action_kind(a) == crate::esp::action_kind(b),
        leaf_text(a) == leaf_text(b),
    ensures
        a == b,
{
    match (a, b) {
        (Action::ApplyBacklight(x), Action::ApplyBacklight(y)) => {
            lemma_cancel("ApplyBacklight("@, backlight_text(x), backlight_text(y), ")"@);
            lemma_backlight_text_injective(x, y);
        },
        (Action::EnterSafeMode(x), Action::EnterSafeMode(y)) => {
            lemma_cancel("EnterSafeMode("@, failure_text(x), failure_text(y), ")"@);
            lemma_failure_text_injective(x, y);
        },
        (Action::StartApp { app: p, session: s }, Action::StartApp { app: q, session: t })
        | (Action::StopApp { app: p, session: s }, Action::StopApp { app: q, session: t }) => {
            let name = variant_name(a);
            let head = name + " { app: "@ + app_text(p) + ", session: "@ + "AppSessionId("@;
            let tail = ")"@ + " }"@;
            assert(leaf_text(a) =~= head + crate::text::decimal(s.0 as nat) + tail);
            assert(leaf_text(b) =~= head + crate::text::decimal(t.0 as nat) + tail);
            lemma_numbered(head, s.0 as nat, t.0 as nat, tail);
        },
        (Action::StartWifiScan { operation: x }, Action::StartWifiScan { operation: y })
        | (Action::ConnectWifi { operation: x }, Action::ConnectWifi { operation: y })
        | (Action::ConnectSavedWifi { operation: x }, Action::ConnectSavedWifi { operation: y })
        | (Action::PersistWifi { operation: x }, Action::PersistWifi { operation: y })
        | (Action::ClearPendingWifi { operation: x }, Action::ClearPendingWifi { operation: y }) => {
            let head = variant_name(a) + " { operation: "@ + "WifiOperationId("@;
            let tail = ")"@ + " }"@;
            assert(leaf_text(a) =~= head + crate::text::decimal(x.0 as nat) + tail);
            assert(leaf_text(b) =~= head + crate::text::decimal(y.0 as nat) + tail);
            lemma_numbered(head, x.0 as nat, y.0 as nat, tail);
        },
        (Action::ConfirmClearNetwork { confirmation: x }, Action::ConfirmClearNetwork { confirmation: y })
        | (Action::ClearNetwork { confirmation: x }, Action::ClearNetwork { confirmation: y })
        | (Action::ConfirmFactoryReset { confirmation: x }, Action::ConfirmFactoryReset { confirmation: y })
        | (Action::FactoryReset { confirmation: x }, Action::FactoryReset { confirmation: y }) => {
            let head = variant_name(a) + " { confirmation: "@ + "ConfirmationId("@;
            let tail = ")"@ + " }"@;
            assert(leaf_text(a) =~= head + crate::text::decimal(x.0 as nat) + tail);
            assert(leaf_text(b) =~= head + crate::text::decimal(y.0 as nat) + tail);
            lemma_numbered(head, x.0 as nat, y.0 as nat, tail);
        },
        _ => {},
    }
}

fn push_app(out: &mut String, app: AppId)
    ensures
        final(out)@ == old(out)@ + app_text(app),
{
    match app {
        AppId::Counter => out.append("Counter"),
    }
}

fn push_failure(out: &mut String, reason: FailureReason)
    ensures
        final(out)@ == old(out)@ + failure_text(reason),
{
    match reason {
        FailureReason::SafeModeRequested => out.append("SafeModeRequested"),
        FailureReason::StorageCorrupt => out.append("StorageCorrupt"),
        FailureReason::InvalidBoardProfile => out.append("InvalidBoardProfile"),
        FailureReason::HardwareUnavailable => out.append("HardwareUnavailable"),
        FailureReason::AppCrashed => out.append("AppCrashed"),
        FailureReason::Internal => out.append("Internal"),
    }
}

/// Appends the description of a backlight level.
pub fn push_backlight(out: &mut String, level: Backlight)
    ensures
        final(out)@ == old(out)@ + backlight_text(level),
{
    match level {
        Backlight::Off => out.append("Off"),
        Backlight::Low => out.append("Low"),
        Backlight::Medium => out.append("Medium"),
        Backlight::High => out.append("High"),
    }
}

fn push_operation(out: &mut String, operation: WifiOperationId)
    ensures
        final(out)@ == old(out)@ + operation_text(operation),
{
    out.append("WifiOperationId(");
    push_decimal(out, operation.0);
    out.append(")");
    assert(out@ =~= old(out)@ + operation_text(operation));
}

fn push_session(out: &mut String, session: AppSessionId)
    ensures
        final(out)@ == old(out)@ + session_text(session),
{
    out.append("AppSessionId(");
    push_decimal(out, session.0);
    out.append(")");
    assert(out@ =~= old(out)@ + session_text(session));
}

fn push_confirmation(out: &mut String, confirmation: ConfirmationId)
    ensures
        final(out)@ == old(out)@ + confirmation_text(confirmation),
{
    out.append("ConfirmationId(");
    push_decimal(out, confirmation.0);
    out.append(")");
    assert(out@ =~= old(out)@ + confirmation_text(confirmation));
}

/// Appends the description of the live Wi-Fi connection.
pub fn push_live_wifi(out: &mut String, wifi: LiveWifiState)
    ensures
        final(out)@ == old(out)@ + live_wifi_text(wifi),
{
    match wifi {
        LiveWifiState::Disconnected => out.append("Disconnected"),
        LiveWifiState::Connecting(operation) => {
            out.append("Connecting(");
            push_operation(out, operation);
            out.append(")");
            assert(out@ =~= old(out)@ + live_wifi_text(wifi));
        },
        LiveWifiState::Connected => out.append("Connected"),
    }
}

fn push_app_screen(out: &mut String, name: &str, app: AppId, session: AppSessionId)
    ensures
        final(out)@ == old(out)@ + app_screen_text(name@, app, session),
{
    out.append(name);
    out.append("(");
    push_app(out, app);
    out.append(", ");
    push_decimal(out, session.0);
    assert(out@ =~= old(out)@ + app_screen_text(name@, app, session));
}

/// Appends the description of a screen.
pub fn push_state(out: &mut String, state: &State)
    ensures
        final(out)@ == old(out)@ + state_text(*state),
{
    match state {
        State::EarlyBoot => out.append("EarlyBoot"),
        State::SafeMode => out.append("SafeMode"),
        State::StorageReady => out.append("StorageReady"),
        State::BoardProfileValidated => out.append("BoardProfileValidated"),
        State::DisplayReady => out.append("DisplayReady"),
        State::SystemUiReady => out.append("SystemUiReady"),
        State::FirstRunSetup => out.append("FirstRunSetup"),
        State::Launcher => out.append("Launcher"),
        State::AppStarting { app, session } => {
            push_app_screen(out, "AppStarting", *app, *session);
            out.append(")");
            assert(out@ =~= old(out)@ + state_text(*state));
        },
        State::AppRunning { app, session } => {
            push_app_screen(out, "AppRunning", *app, *session);
            out.append(")");
            assert(out@ =~= old(out)@ + state_text(*state));
        },
        State::AppStopping { app, session, .. } => {
            push_app_screen(out, "AppStopping", *app, *session);
            out.append(")");
            assert(out@ =~= old(out)@ + state_text(*state));
        },
        State::AppError { app, session, reason } => {
            push_app_screen(out, "AppError", *app, *session);
            out.append(", ");
            push_failure(out, *reason);
            out.append(")");
            assert(out@ =~= old(out)@ + state_text(*state));
        },
        State::Settings => out.append("Settings"),
    }
}

fn push_with_operation(out: &mut String, name: &str, operation: WifiOperationId)
    ensures
        final(out)@ == old(out)@ + with_operation(name@, operation),
{
    out.append(name);
    out.append(" { operation: ");
    push_operation(out, operation);
    out.append(" }");
    assert(out@ =~= old(out)@ + with_operation(name@, operation));
}

fn push_with_confirmation(out: &mut String, name: &str, confirmation: ConfirmationId)
    ensures
        final(out)@ == old(out)@ + with_confirmation(name@, confirmation),
{
    out.append(name);
    out.append(" { confirmation: ");
    push_confirmation(out, confirmation);
    out.append(" }");
    assert(out@ =~= old(out)@ + with_confirmation(name@, confirmation));
}

fn push_with_session(out: &mut String, name: &str, app: AppId, session: AppSessionId)
    ensures
        final(out)@ == old(out)@ + with_session(name@, app, session),
{
    out.append(name);
    out.append(" { app: ");
    push_app(out, app);
    out.append(", session: ");
    push_session(out, session);
    assert(out@ =~= old(out)@ + with_session(name@, app, session));
}

fn push_leaf(out: &mut String, action: &Action)
    requires
        !(*action is Actions),
    ensures
        final(out)@ == old(out)@ + leaf_text(*action),
{
    match action {
        Action::Nothing => out.append("None"),
        Action::Rejected => out.append("Rejected"),
        Action::Actions(_) => {},
        Action::EnterSafeMode(reason) => {
            out.append("EnterSafeMode(");
            push_failure(out, *reason);
            out.append(")");
            assert(out@ =~= old(out)@ + leaf_text(*action));
        },
        Action::InitializeStorage => out.append("InitializeStorage"),
        Action::ValidateProfile => out.append("ValidateProfile"),
        Action::InitializeDisplay => out.append("InitializeDisplay"),
        Action::InitializeSystemUi => out.append("InitializeSystemUi"),
        Action::LoadNetworkConfig => out.append("LoadNetworkConfig"),
        Action::ShowFirstRunSetup => out.append("ShowFirstRunSetup"),
        Action::ShowLauncher => out.append("ShowLauncher"),
        Action::ShowSettings => out.append("ShowSettings"),
        Action::ApplyBacklight(level) => {
            out.append("ApplyBacklight(");
            push_backlight(out, *level);
            out.append(")");
            assert(out@ =~= old(out)@ + leaf_text(*action));
        },
        Action::StartWifiScan { operation } => push_with_operation(out, "StartWifiScan", *operation),
        Action::ConnectWifi { operation } => push_with_operation(out, "ConnectWifi", *operation),
        Action::ConnectSavedWifi { operation } => push_with_operation(out, "ConnectSavedWifi", *operation),
        Action::PersistWifi { operation } => push_with_operation(out, "PersistWifi", *operation),
        Action::ClearPendingWifi { operation } => push_with_operation(out, "ClearPendingWifi", *operation),
        Action::ScheduleWifiReconnect { reconnect, after_secs } => {
            out.append("ScheduleWifiReconnect { reconnect: ");
            push_operation(out, *reconnect);
            out.append(", after_secs: ");
            push_decimal(out, *after_secs as u64);
            out.append(" }");
            assert(out@ =~= old(out)@ + leaf_text(*action));
        },
        Action::StartApp { app, session } => {
            push_with_session(out, "StartApp", *app, *session);
            out.append(" }");
            assert(out@ =~= old(out)@ + leaf_text(*action));
        },
        Action::StopApp { app, session } => {
            push_with_session(out, "StopApp", *app, *session);
            out.append(" }");
            assert(out@ =~= old(out)@ + leaf_text(*action));
        },
        Action::ShowAppError { app, session, reason } => {
            push_with_session(out, "ShowAppError", *app, *session);
            out.append(", reason: ");
            push_failure(out, *reason);
            out.append(" }");
            assert(out@ =~= old(out)@ + leaf_text(*action));
        },
        Action::ConfirmClearNetwork { confirmation } => push_with_confirmation(out, "ConfirmClearNetwork", *confirmation),
        Action::ClearNetwork { confirmation } => push_with_confirmation(out, "ClearNetwork", *confirmation),
        Action::ConfirmFactoryReset { confirmation } => push_with_confirmation(out, "ConfirmFactoryReset", *confirmation),
        Action::FactoryReset { confirmation } => push_with_confirmation(out, "FactoryReset", *confirmation),
        Action::Reboot => out.append("Reboot"),
    }
}

proof fn lemma_members_text_push(trees: Seq<ActionTree>, tree: ActionTree)
    ensures
        members_text(trees.push(tree)) == if trees.len() == 0 {
            action_text(tree)
        } else {
            members_text(trees) + ", "@ + action_text(tree)
        },
{
    assert(trees.push(tree).drop_last() =~= trees);
}

/// Appends the description of `action`.
pub fn push_action(out: &mut String, action: &Action)
    ensures
        final(out)@ == old(out)@ + action_text(crate::os::action_tree(*action)),
    decreases action,
{
    match action {
        Action::Actions(children) => {
            out.append("Actions([");
            let ghost start = out@;
            let mut i: usize = 0;
            assert(children@.take(0) =~= Seq::<Action>::empty());
            assert(out@ =~= start + members_text(crate::os::action_trees(children@.take(0))));
            while i < children.len()
                invariant
                    *action == Action::Actions(*children),
                    i <= children.len(),
                    out@ == start + members_text(crate::os::action_trees(children@.take(i as int))),
                decreases children.len() - i,
            {
                proof {
                    assert(decreases_to!(*action => (*action)->Actions_0));
                    assert(decreases_to!(*children => children@));
                    assert(decreases_to!(children@ => children@[i as int]));
                    crate::os::lemma_action_trees_take(children@, i as int);
                    lemma_members_text_push(
                        crate::os::action_trees(children@.take(i as int)),
                        crate::os::action_tree(children@[i as int]),
                    );
                }
                if i > 0 {
                    out.append(", ");
                }
                push_action(out, &children[i]);
                assert(out@ =~= start + members_text(crate::os::action_trees(children@.take(i + 1))));
                i = i + 1;
            }
            out.append("])");
            proof {
                assert(children@.take(children.len() as int) =~= children@);
            }
            assert(out@ =~= old(out)@ + action_text(crate::os::action_tree(*action)));
        },
        _ => push_leaf(out, action),
    }
}

} // verus!
