//! The browser system shell: named intents drive the OS reducer, the shell
//! remembers which app session and Wi-Fi operation are in flight, and every
//! reply is recorded as text in a bounded action log.
use vstd::prelude::*;
use vstd::string::StringExecFns;
use crate::describe::{push_action, push_backlight, push_live_wifi, push_state};
use crate::os::{Action, ActionTree, AppId, AppSessionId, Backlight, Event, MicroOs, State, WifiOperationId};

verus! {

/// How many action descriptions the shell keeps.
pub const ACTION_LOG_CAPACITY: usize = 24;

/// The closed set of intents the page may send.
#[derive(Debug, Clone, Copy, PartialEq, Eq, Structural)]
pub enum SystemIntent {
    OpenCounter,
    CounterStarted,
    CounterStopped,
    OpenSettings,
    Back,
    WifiScan,
    WifiConnect,
    WifiConnected,
    WifiPersisted,
    SafeMode,
    ToggleBacklight,
}

impl SystemIntent {
    /// The intent named by `text`, if any.
    pub open spec fn named(text: Seq<char>) -> Option<SystemIntent> {
        if text == "open-counter"@ {
            Some(SystemIntent::OpenCounter)
        } else if text == "counter-started"@ {
            Some(SystemIntent::CounterStarted)
        } else if text == "counter-stopped"@ {
            Some(SystemIntent::CounterStopped)
        } else if text == "open-settings"@ {
            Some(SystemIntent::OpenSettings)
        } else if text == "back"@ {
            Some(SystemIntent::Back)
        } else if text == "wifi-scan"@ {
            Some(SystemIntent::WifiScan)
        } else if text == "wifi-connect"@ {
            Some(SystemIntent::WifiConnect)
        } else if text == "wifi-connected"@ {
            Some(SystemIntent::WifiConnected)
        } else if text == "wifi-persisted"@ {
            Some(SystemIntent::WifiPersisted)
        } else if text == "safe-mode"@ {
            Some(SystemIntent::SafeMode)
        } else if text == "backlight-toggle"@ {
            Some(SystemIntent::ToggleBacklight)
        } else {
            None
        }
    }

    /// Parses an intent name; any other text is refused.
    pub fn parse(value: &str) -> (intent: Option<SystemIntent>)
        ensures
            intent == SystemIntent::named(value@),
    {
        let value = String::from_str(value);
        if text_is(&value, "open-counter") {
            Some(SystemIntent::OpenCounter)
        } else if text_is(&value, "counter-started") {
            Some(SystemIntent::CounterStarted)
        } else if text_is(&value, "counter-stopped") {
            Some(SystemIntent::CounterStopped)
        } else if text_is(&value, "open-settings") {
            Some(SystemIntent::OpenSettings)
        } else if text_is(&value, "back") {
            Some(SystemIntent::Back)
        } else if text_is(&value, "wifi-scan") {
            Some(SystemIntent::WifiScan)
        } else if text_is(&value, "wifi-connect") {
            Some(SystemIntent::WifiConnect)
        } else if text_is(&value, "wifi-connected") {
            Some(SystemIntent::WifiConnected)
        } else if text_is(&value, "wifi-persisted") {
            Some(SystemIntent::WifiPersisted)
        } else if text_is(&value, "safe-mode") {
            Some(SystemIntent::SafeMode)
        } else if text_is(&value, "backlight-toggle") {
            Some(SystemIntent::ToggleBacklight)
        } else {
            None
        }
    }
}

fn text_is(value: &String, expected: &str) -> (same: bool)
    ensures
        same == (value@ == expected@),
{
    let expected = String::from_str(expected);
    *value == expected
}

/// What the page shows: the screen, the Wi-Fi link, the backlight, and the
/// recorded actions.
#[derive(Debug, Clone, PartialEq, Eq)]
pub struct SystemSnapshot {
    pub screen: String,
    pub wifi: String,
    pub backlight: String,
    pub last_action: String,
    pub actions: Vec<String>,
    pub counter_session: Option<u64>,
}

/// Which identifier to look for in a reply.
#[derive(Debug, Clone, Copy, PartialEq, Eq, Structural)]
pub enum Lookup {
    /// The operation of a reconnect to the saved network.
    SavedWifi,
    /// The operation of a scan or of any connect.
    AnyWifi,
    /// The session of a started app.
    AppSession,
}

/// The identifier a single action carries for `lookup`.
pub open spec fn leaf_id(action: Action, lookup: Lookup) -> Option<u64> {
    match lookup {
        Lookup::SavedWifi => match action {
            Action::ConnectSavedWifi { operation } => Some(operation.0),
            _ => None,
        },
        Lookup::AnyWifi => match action {
            Action::StartWifiScan { operation } => Some(operation.0),
            Action::ConnectWifi { operation } => Some(operation.0),
            Action::ConnectSavedWifi { operation } => Some(operation.0),
            _ => None,
        },
        Lookup::AppSession => match action {
            Action::StartApp { session, .. } => Some(session.0),
            _ => None,
        },
    }
}

/// The first identifier for `lookup` in a pre-order walk of `tree`.
pub open spec fn find_id(tree: ActionTree, lookup: Lookup) -> Option<u64>
    decreases tree,
{
    match tree {
        ActionTree::Leaf(action) => leaf_id(action, lookup),
        ActionTree::Group(members) => find_in(members, lookup),
    }
}

/// The first identifier for `lookup` among `trees`, in order.
pub open spec fn find_in(trees: Seq<ActionTree>, lookup: Lookup) -> Option<u64>
    decreases trees,
{
    if trees.len() == 0 {
        None
    } else {
        match find_in(trees.drop_last(), lookup) {
            Some(id) => Some(id),
            None => find_id(trees.last(), lookup),
        }
    }
}

proof fn lemma_find_in_prefix(trees: Seq<ActionTree>, k: int, lookup: Lookup)
    requires
        0 <= k <= trees.len(),
        find_in(trees.take(k), lookup) is Some,
    ensures
        find_in(trees, lookup) == find_in(trees.take(k), lookup),
    decreases trees.len(),
{
    if k < trees.len() {
        assert(trees.drop_last().take(k) =~= trees.take(k));
        lemma_find_in_prefix(trees.drop_last(), k, lookup);
    } else {
        assert(trees.take(k) =~= trees);
    }
}

proof fn lemma_find_in_push(trees: Seq<ActionTree>, tree: ActionTree, lookup: Lookup)
    ensures
        find_in(trees.push(tree), lookup) == match find_in(trees, lookup) {
            Some(id) => Some(id),
            None => find_id(tree, lookup),
        },
{
    assert(trees.push(tree).drop_last() =~= trees);
}

fn leaf_action_id(action: &Action, lookup: Lookup) -> (id: Option<u64>)
    ensures
        id == leaf_id(*action, lookup),
{
    match lookup {
        Lookup::SavedWifi => match action {
            Action::ConnectSavedWifi { operation } => Some(operation.0),
            _ => None,
        },
        Lookup::AnyWifi => match action {
            Action::StartWifiScan { operation } => Some(operation.0),
            Action::ConnectWifi { operation } => Some(operation.0),
            Action::ConnectSavedWifi { operation } => Some(operation.0),
            _ => None,
        },
        Lookup::AppSession => match action {
            Action::StartApp { session, .. } => Some(session.0),
            _ => None,
        },
    }
}

/// The first identifier for `lookup` in a pre-order walk of `action`.
pub fn find_action_id(action: &Action, lookup: Lookup) -> (id: Option<u64>)
    ensures
        id == find_id(crate::os::action_tree(*action), lookup),
    decreases action,
{
    match action {
        Action::Actions(children) => {
            let mut i: usize = 0;
            assert(children@.take(0) =~= Seq::<Action>::empty());
            while i < children.len()
                invariant
                    *action == Action::Actions(*children),
                    i <= children.len(),
                    find_in(crate::os::action_trees(children@.take(i as int)), lookup) is None,
                decreases children.len() - i,
            {
                proof {
                    assert(decreases_to!(*action => (*action)->Actions_0));
                    assert(decreases_to!(*children => children@));
                    assert(decreases_to!(children@ => children@[i as int]));
                    crate::os::lemma_action_trees_take(children@, i as int);
                    lemma_find_in_push(
                        crate::os::action_trees(children@.take(i as int)),
                        crate::os::action_tree(children@[i as int]),
                        lookup,
                    );
                }
                let found = find_action_id(&children[i], lookup);
                if found.is_some() {
                    proof {
                        assert(children@.take(children.len() as int) =~= children@);
                        crate::os::lemma_action_trees_take(children@, i as int);
                        lemma_action_trees_len(children@);
                        assert(crate::os::action_trees(children@).take(i + 1) =~= crate::os::action_trees(
                            children@.take(i + 1),
                        )) by {
                            lemma_action_trees_prefix(children@, i + 1);
                        }
                        lemma_find_in_prefix(crate::os::action_trees(children@), i + 1, lookup);
                    }
                    return found;
                }
                i = i + 1;
            }
            proof {
                assert(children@.take(children.len() as int) =~= children@);
            }
            None
        },
        _ => leaf_action_id(action, lookup),
    }
}

proof fn lemma_action_trees_len(actions: Seq<Action>)
    ensures
        crate::os::action_trees(actions).len() == actions.len(),
    decreases actions.len(),
{
    if actions.len() > 0 {
        lemma_action_trees_len(actions.drop_last());
    }
}

proof fn lemma_action_trees_prefix(actions: Seq<Action>, k: int)
    requires
        0 <= k <= actions.len(),
    ensures
        crate::os::action_trees(actions).take(k) == crate::os::action_trees(actions.take(k)),
    decreases actions.len(),
{
    lemma_action_trees_len(actions);
    lemma_action_trees_len(actions.take(k));
    if k < actions.len() {
        assert(actions.drop_last().take(k) =~= actions.take(k));
        lemma_action_trees_prefix(actions.drop_last(), k);
        assert(crate::os::action_trees(actions).take(k) =~= crate::os::action_trees(actions.drop_last()).take(k));
    } else {
        assert(actions.take(k) =~= actions);
        assert(crate::os::action_trees(actions).take(k) =~= crate::os::action_trees(actions));
    }
}

/// The shell as values: the reducer, the app session and Wi-Fi operation
/// in flight, the action log and the last description.
pub struct ShellModel {
    pub os: MicroOs,
    pub app: Option<AppSessionId>,
    pub wifi: Option<WifiOperationId>,
    pub log: Seq<Seq<char>>,
    pub last: Seq<char>,
}

/// Records a description: it becomes the last action and joins the log,
/// whose oldest entry leaves once there are more than the capacity.
pub open spec fn remember(m: ShellModel, text: Seq<char>) -> ShellModel {
    let log = m.log.push(text);
    ShellModel {
        log: if log.len() > ACTION_LOG_CAPACITY { log.drop_first() } else { log },
        last: text,
        ..m
    }
}

/// Feeds one event to the reducer and records its reply.
pub open spec fn issue(m: ShellModel, event: Event) -> (ShellModel, ActionTree) {
    let tree = crate::os::reply_tree(m.os.next(event).1);
    (remember(ShellModel { os: m.os.next(event).0, ..m }, crate::describe::action_text(tree)), tree)
}

/// A callback arrived for nothing in flight: only `Rejected` is recorded.
pub open spec fn reject_missing(m: ShellModel) -> ShellModel {
    remember(m, crate::describe::action_text(ActionTree::Leaf(Action::Rejected)))
}

pub open spec fn wifi_of(id: Option<u64>) -> Option<WifiOperationId> {
    match id {
        Some(op) => Some(WifiOperationId(op)),
        None => None,
    }
}

pub open spec fn session_of(id: Option<u64>) -> Option<AppSessionId> {
    match id {
        Some(s) => Some(AppSessionId(s)),
        None => None,
    }
}

/// What one intent does to the shell.
pub open spec fn step(m: ShellModel, intent: SystemIntent) -> ShellModel {
    match intent {
        SystemIntent::OpenCounter => {
            let (m1, tree) = issue(m, Event::OpenApp(AppId::Counter));
            ShellModel { app: session_of(find_id(tree, Lookup::AppSession)), ..m1 }
        },
        SystemIntent::CounterStarted => match m.app {
            Some(session) => issue(m, Event::AppStarted { session }).0,
            None => reject_missing(m),
        },
        SystemIntent::CounterStopped => match m.app {
            Some(session) => {
                let m1 = issue(m, Event::AppStopped { session }).0;
                if m1.os.screen() == State::Launcher {
                    ShellModel { app: None, ..m1 }
                } else {
                    m1
                }
            },
            None => reject_missing(m),
        },
        SystemIntent::OpenSettings => issue(m, Event::OpenSettings).0,
        SystemIntent::Back => issue(m, Event::BackPressed).0,
        SystemIntent::WifiScan => {
            let (m1, tree) = issue(m, Event::WifiScanRequested);
            match find_id(tree, Lookup::AnyWifi) {
                Some(op) => issue(
                    ShellModel { wifi: Some(WifiOperationId(op)), ..m1 },
                    Event::WifiScanCompleted { operation: WifiOperationId(op) },
                ).0,
                None => m1,
            }
        },
        SystemIntent::WifiConnect => {
            let (m1, tree) = issue(m, Event::WifiConnectRequested);
            ShellModel { wifi: wifi_of(find_id(tree, Lookup::AnyWifi)), ..m1 }
        },
        SystemIntent::WifiConnected => match m.wifi {
            Some(operation) => issue(m, Event::WifiConnected { operation }).0,
            None => reject_missing(m),
        },
        SystemIntent::WifiPersisted => match m.wifi {
            Some(operation) => ShellModel { wifi: None, ..issue(m, Event::WifiPersisted { operation }).0 },
            None => reject_missing(m),
        },
        SystemIntent::SafeMode => issue(
            ShellModel { os: MicroOs::initial(), app: None, wifi: None, ..m },
            Event::BootSampled { safe_mode: true },
        ).0,
        SystemIntent::ToggleBacklight => {
            let level = if m.os.backlight_level() == Backlight::Off {
                Backlight::High
            } else {
                Backlight::Off
            };
            issue(m, Event::SetBacklight(level)).0
        },
    }
}

/// A freshly created shell: nothing in flight, nothing recorded.
pub open spec fn fresh() -> ShellModel {
    ShellModel { os: MicroOs::initial(), app: None, wifi: None, log: Seq::empty(), last: Seq::empty() }
}

/// The boot of a device with a saved network: the boot steps all succeed,
/// the configuration loads, and the reconnect it asks for succeeds.
pub open spec fn configured_boot_model() -> ShellModel {
    let m1 = issue(fresh(), Event::BootSampled { safe_mode: false }).0;
    let m2 = issue(m1, Event::StorageInitialized(Ok(()))).0;
    let m3 = issue(m2, Event::ProfileValidated(Ok(()))).0;
    let m4 = issue(m3, Event::DisplayInitialized(Ok(()))).0;
    let m5 = issue(m4, Event::SystemUiInitialized(Ok(()))).0;
    let (m6, tree) = issue(m5, Event::NetworkConfigLoaded { configured: true });
    match find_id(tree, Lookup::SavedWifi) {
        Some(op) => issue(m6, Event::WifiConnected { operation: WifiOperationId(op) }).0,
        None => m6,
    }
}

/// The browser shell around the OS reducer.
pub struct SystemShell {
    os: MicroOs,
    active_app: Option<AppSessionId>,
    active_wifi: Option<WifiOperationId>,
    actions: Vec<String>,
    last_action: String,
}

impl SystemShell {
    pub closed spec fn model(self) -> ShellModel {
        ShellModel {
            os: self.os,
            app: self.active_app,
            wifi: self.active_wifi,
            log: self.actions@.map_values(|text: String| text@),
            last: self.last_action@,
        }
    }

    pub closed spec fn wf(self) -> bool {
        &&& self.os.wf()
        &&& self.actions.len() <= ACTION_LOG_CAPACITY
    }

    fn new() -> (shell: SystemShell)
        ensures
            shell.wf(),
            shell.model() == fresh(),
    {
        let shell = SystemShell {
            os: MicroOs::new(),
            active_app: None,
            active_wifi: None,
            actions: Vec::new(),
            last_action: String::new(),
        };
        assert(shell.model().log =~= Seq::<Seq<char>>::empty());
        shell
    }

    /// Boots a device whose network is configured, up to the launcher with
    /// the saved network connected.
    pub fn configured_boot() -> (shell: SystemShell)
        ensures
            shell.wf(),
            shell.model() == configured_boot_model(),
    {
        let mut shell = SystemShell::new();
        shell.issue(Event::BootSampled { safe_mode: false });
        shell.issue(Event::StorageInitialized(Ok(())));
        shell.issue(Event::ProfileValidated(Ok(())));
        shell.issue(Event::DisplayInitialized(Ok(())));
        shell.issue(Event::SystemUiInitialized(Ok(())));
        let action = shell.issue(Event::NetworkConfigLoaded { configured: true });
        if let Some(operation) = find_action_id(&action, Lookup::SavedWifi) {
            shell.issue(Event::WifiConnected { operation: WifiOperationId(operation) });
        }
        shell
    }

    /// The page's view of the shell.
    pub fn snapshot(&self) -> (snapshot: SystemSnapshot)
        ensures
            snapshot.screen@ == crate::describe::state_text(self.model().os.screen()),
            snapshot.wifi@ == crate::describe::live_wifi_text(self.model().os.live_wifi()),
            snapshot.backlight@ == crate::describe::backlight_text(self.model().os.backlight_level()),
            snapshot.last_action@ == self.model().last,
            snapshot.actions@.map_values(|text: String| text@) == self.model().log,
            snapshot.counter_session == match self.model().app {
                Some(session) => Some(session.0),
                None => None::<u64>,
            },
    {
        let mut screen = String::new();
        push_state(&mut screen, self.os.state());
        let mut wifi = String::new();
        push_live_wifi(&mut wifi, *self.os.live_wifi_state());
        let mut backlight = String::new();
        push_backlight(&mut backlight, *self.os.backlight());
        let actions = self.actions.clone();
        assert(actions@.map_values(|text: String| text@) =~= self.actions@.map_values(|text: String| text@));
        SystemSnapshot {
            screen,
            wifi,
            backlight,
            last_action: self.last_action.clone(),
            actions,
            counter_session: match self.active_app {
                Some(session) => Some(session.0),
                None => None,
            },
        }
    }

    /// Carries out one intent and answers with the new snapshot.
    pub fn dispatch(&mut self, intent: SystemIntent) -> (snapshot: SystemSnapshot)
        ensures
            old(self).wf() ==> final(self).wf(),
            final(self).model() == step(old(self).model(), intent),
            snapshot.screen@ == crate::describe::state_text(final(self).model().os.screen()),
            snapshot.wifi@ == crate::describe::live_wifi_text(final(self).model().os.live_wifi()),
            snapshot.backlight@ == crate::describe::backlight_text(final(self).model().os.backlight_level()),
            snapshot.last_action@ == final(self).model().last,
            snapshot.actions@.map_values(|text: String| text@) == final(self).model().log,
            snapshot.counter_session == match final(self).model().app {
                Some(session) => Some(session.0),
                None => None::<u64>,
            },
    {
        match intent {
            SystemIntent::OpenCounter => {
                let action = self.issue(Event::OpenApp(AppId::Counter));
                self.active_app = match find_action_id(&action, Lookup::AppSession) {
                    Some(session) => Some(AppSessionId(session)),
                    None => None,
                };
            },
            SystemIntent::CounterStarted => {
                if let Some(session) = self.active_app {
                    self.issue(Event::AppStarted { session });
                } else {
                    self.reject_missing_callback();
                }
            },
            SystemIntent::CounterStopped => {
                if let Some(session) = self.active_app {
                    self.issue(Event::AppStopped { session });
                    if *self.os.state() == State::Launcher {
                        self.active_app = None;
                    }
                } else {
                    self.reject_missing_callback();
                }
            },
            SystemIntent::OpenSettings => {
                self.issue(Event::OpenSettings);
            },
            SystemIntent::Back => {
                self.issue(Event::BackPressed);
            },
            SystemIntent::WifiScan => {
                let action = self.issue(Event::WifiScanRequested);
                if let Some(operation) = find_action_id(&action, Lookup::AnyWifi) {
                    self.active_wifi = Some(WifiOperationId(operation));
                    self.issue(Event::WifiScanCompleted { operation: WifiOperationId(operation) });
                }
            },
            SystemIntent::WifiConnect => {
                let action = self.issue(Event::WifiConnectRequested);
                self.active_wifi = match find_action_id(&action, Lookup::AnyWifi) {
                    Some(operation) => Some(WifiOperationId(operation)),
                    None => None,
                };
            },
            SystemIntent::WifiConnected => {
                if let Some(operation) = self.active_wifi {
                    self.issue(Event::WifiConnected { operation });
                } else {
                    self.reject_missing_callback();
                }
            },
            SystemIntent::WifiPersisted => {
                if let Some(operation) = self.active_wifi {
                    self.issue(Event::WifiPersisted { operation });
                    self.active_wifi = None;
                } else {
                    self.reject_missing_callback();
                }
            },
            SystemIntent::SafeMode => {
                self.os = MicroOs::new();
                self.active_app = None;
                self.active_wifi = None;
                self.issue(Event::BootSampled { safe_mode: true });
            },
            SystemIntent::ToggleBacklight => {
                let level = if *self.os.backlight() == Backlight::Off {
                    Backlight::High
                } else {
                    Backlight::Off
                };
                self.issue(Event::SetBacklight(level));
            },
        }
        self.snapshot()
    }

    fn issue(&mut self, event: Event) -> (action: Action)
        ensures
            old(self).wf() ==> final(self).wf(),
            final(self).model() == issue(old(self).model(), event).0,
            crate::os::action_tree(action) == issue(old(self).model(), event).1,
    {
        let ghost before = self.os;
        let action = self.os.dispatch(event);
        proof {
            crate::os::lemma_reply_tree(before, event, action);
        }
        self.remember_action(&action);
        action
    }

    fn reject_missing_callback(&mut self)
        ensures
            old(self).wf() ==> final(self).wf(),
            final(self).model() == reject_missing(old(self).model()),
    {
        let rejected = Action::Rejected;
        self.remember_action(&rejected);
    }

    fn remember_action(&mut self, action: &Action)
        ensures
            old(self).wf() ==> final(self).wf(),
            final(self).model() == remember(
                old(self).model(),
                crate::describe::action_text(crate::os::action_tree(*action)),
            ),
    {
        let mut description = String::new();
        push_action(&mut description, action);
        let ghost text = description@;
        let ghost log = old(self).model().log.push(text);
        self.last_action = description.clone();
        self.actions.push(description);
        assert(self.actions@.map_values(|t: String| t@) =~= log);
        if self.actions.len() > ACTION_LOG_CAPACITY {
            self.actions.remove(0);
            assert(self.actions@.map_values(|t: String| t@) =~= log.drop_first());
        }
    }
}

/// The action log never holds more than its capacity, and after any intent
/// its newest entry is the last action.
pub proof fn lemma_log_is_bounded(m: ShellModel, intent: SystemIntent)
    requires
        m.log.len() <= ACTION_LOG_CAPACITY,
    ensures
        step(m, intent).log.len() <= ACTION_LOG_CAPACITY,
        step(m, intent).log.len() > 0,
        step(m, intent).log.last() == step(m, intent).last,
{
    let n = step(m, intent);
    assert forall|k: ShellModel, t: Seq<char>| k.log.len() <= ACTION_LOG_CAPACITY implies {
        &&& #[trigger] remember(k, t).log.len() <= ACTION_LOG_CAPACITY
        &&& remember(k, t).log.len() > 0
        &&& remember(k, t).log.last() == t
    } by {
        let log = k.log.push(t);
        if log.len() > ACTION_LOG_CAPACITY {
            assert(log.drop_first().last() == t);
        }
    }
    match intent {
        SystemIntent::WifiScan => {
            let (m1, tree) = issue(m, Event::WifiScanRequested);
            assert(m1.log.len() <= ACTION_LOG_CAPACITY);
        },
        _ => {},
    }
}

/// The newest `ACTION_LOG_CAPACITY` entries of `log`.
pub open spec fn newest(log: Seq<Seq<char>>) -> Seq<Seq<char>> {
    if log.len() > ACTION_LOG_CAPACITY {
        log.skip(log.len() - ACTION_LOG_CAPACITY)
    } else {
        log
    }
}

proof fn lemma_newest_push(a: Seq<Seq<char>>, t: Seq<char>)
    ensures
        newest(newest(a).push(t)) == newest(a.push(t)),
{
    if a.len() > ACTION_LOG_CAPACITY {
        assert(newest(a).push(t).skip(1) =~= a.push(t).skip(a.push(t).len() - ACTION_LOG_CAPACITY));
    }
}

/// Every intent appends one or two action descriptions to the history,
/// ending with the last action, and the log shows the newest
/// `ACTION_LOG_CAPACITY` entries of that history.
pub proof fn lemma_log_keeps_newest(m: ShellModel, intent: SystemIntent)
    requires
        m.log.len() <= ACTION_LOG_CAPACITY,
    ensures
        exists|added: Seq<Seq<char>>|
            1 <= added.len() <= 2 && added.last() == step(m, intent).last && step(m, intent).log == newest(
                m.log + added,
            ),
{
    assert forall|k: ShellModel, t: Seq<char>| k.log.len() <= ACTION_LOG_CAPACITY implies #[trigger] remember(
        k,
        t,
    ).log == newest(k.log.push(t)) by {
        let log = k.log.push(t);
        if log.len() > ACTION_LOG_CAPACITY {
            assert(log.drop_first() =~= log.skip(log.len() - ACTION_LOG_CAPACITY));
        }
    }
    let n = step(m, intent);
    match intent {
        SystemIntent::WifiScan => {
            let (m1, tree) = issue(m, Event::WifiScanRequested);
            let t1 = m1.last;
            match find_id(tree, Lookup::AnyWifi) {
                Some(op) => {
                    lemma_newest_push(m.log.push(t1), n.last);
                    let added = seq![t1, n.last];
                    assert(m.log + added =~= m.log.push(t1).push(n.last));
                    assert(1 <= added.len() <= 2 && added.last() == n.last && n.log == newest(m.log + added));
                },
                None => {
                    let added = seq![n.last];
                    assert(m.log + added =~= m.log.push(n.last));
                    assert(1 <= added.len() <= 2 && added.last() == n.last && n.log == newest(m.log + added));
                },
            }
        },
        _ => {
            let added = seq![n.last];
            assert(m.log + added =~= m.log.push(n.last));
            assert(1 <= added.len() <= 2 && added.last() == n.last && n.log == newest(m.log + added));
        },
    }
}

/// A shell in good standing never holds more than `ACTION_LOG_CAPACITY`
/// log entries, so the log laws apply to every shell the public functions
/// hand out.
pub proof fn lemma_wf_log_bound(shell: SystemShell)
    requires
        shell.wf(),
    ensures
        shell.model().log.len() <= ACTION_LOG_CAPACITY,
{
}

} // verus!
