//! The menu bar application: what it remembers, what its menu shows, and what it
//! does when.
use vstd::prelude::*;
use vstd::string::StringExecFns;

use crate::config;
use crate::config::{AppConfig, ProcessWaitConfig};
use crate::controller_config;
use crate::lease;
use crate::lease::LeaseRecord;
use crate::login::start_at_login_text;
use crate::process_menu;
use crate::process_menu::{build_process_submenu, process_menu_variant, process_tree_changed, ProcessDisplayState,
    ProcessSubmenu};
use crate::service;
use crate::service::{background_service_action_text, ServiceStatus};
use crate::system;
use crate::system::{has_needle, LidState};
use crate::text::str_eq;
use crate::time::{Moment, Span};

verus! {

pub const OPEN_CONFIG_ID: &'static str = "open-config";

pub const ENABLED_ID: &'static str = "enabled";

pub const RELOAD_CONFIG_ID: &'static str = "reload-config";

pub const BACKGROUND_SERVICE_ID: &'static str = "background-service";

pub const START_AT_LOGIN_ID: &'static str = "start-at-login";

pub const QUIT_ID: &'static str = "quit";

/// The seconds between two renewals of the lease.
pub const HEARTBEAT_SECONDS: u64 = 5;

/// The seconds between two looks at the services.
pub const SERVICE_CHECK_SECONDS: u64 = 15;

/// The seconds between two looks at processes that are waited for.
pub const PROCESS_WAIT_REFRESH_SECONDS: u64 = 1;

/// The seconds for which a notice is shown.
pub const NOTICE_SECONDS: u64 = 10;

/// The menu bar application.
#[derive(Debug)]
pub struct MenuBarApp {
    /// The configuration as the file has it.
    pub config: AppConfig,
    /// The configuration as it was last applied.
    pub applied_config: AppConfig,
    pub enabled: bool,
    pub config_path: String,
    pub reload_generation: u64,
    pub config_notice: Option<String>,
    /// When the notice ends, where it does by itself.
    pub config_notice_until: Option<Moment>,
    pub service_installing: bool,
    pub service_status: ServiceStatus,
    /// The number of the application's own process.
    pub own_pid: u32,
    pub last_lid: Option<LidState>,
    pub lid_closed_since: Option<Moment>,
    /// Whether processes that are waited for were seen since the lid was closed.
    pub saw_process_wait_matches: bool,
    pub process_grace_started: Option<Moment>,
    pub process_display_state: ProcessDisplayState,
    /// What the menu shows of the processes.
    pub last_process_display_state: ProcessDisplayState,
    pub next_lease_refresh: Moment,
    pub next_service_check: Moment,
    pub next_refresh: Moment,
}

/// What the application holds.
pub struct MenuModel {
    pub config: config::AppModel,
    pub applied_config: config::AppModel,
    pub enabled: bool,
    pub config_path: Seq<char>,
    pub reload_generation: u64,
    pub config_notice: Option<Seq<char>>,
    pub config_notice_until: Option<Moment>,
    pub service_installing: bool,
    pub service_status: service::StatusModel,
    pub own_pid: u32,
    pub last_lid: Option<LidState>,
    pub lid_closed_since: Option<Moment>,
    pub saw_process_wait_matches: bool,
    pub process_grace_started: Option<Moment>,
    pub process_display_state: process_menu::DisplayModel,
    pub last_process_display_state: process_menu::DisplayModel,
    pub next_lease_refresh: Moment,
    pub next_service_check: Moment,
    pub next_refresh: Moment,
}

/// What an optional string holds.
pub open spec fn text_in(s: Option<String>) -> Option<Seq<char>> {
    match s {
        Some(text) => Some(text@),
        None => None,
    }
}

impl View for MenuBarApp {
    type V = MenuModel;

    open spec fn view(&self) -> MenuModel {
        MenuModel {
            config: self.config@,
            applied_config: self.applied_config@,
            enabled: self.enabled,
            config_path: self.config_path@,
            reload_generation: self.reload_generation,
            config_notice: text_in(self.config_notice),
            config_notice_until: self.config_notice_until,
            service_installing: self.service_installing,
            service_status: self.service_status@,
            own_pid: self.own_pid,
            last_lid: self.last_lid,
            lid_closed_since: self.lid_closed_since,
            saw_process_wait_matches: self.saw_process_wait_matches,
            process_grace_started: self.process_grace_started,
            process_display_state: self.process_display_state.model(),
            last_process_display_state: self.last_process_display_state.model(),
            next_lease_refresh: self.next_lease_refresh,
            next_service_check: self.next_service_check,
            next_refresh: self.next_refresh,
        }
    }
}

/// The application is at its start.
pub open spec fn starts_with(
    config: config::AppModel,
    config_path: Seq<char>,
    reload_generation: u64,
    service_status: service::StatusModel,
    own_pid: u32,
    now: Moment,
) -> MenuModel {
    MenuModel {
        config,
        applied_config: config,
        enabled: config.enabled,
        config_path,
        reload_generation,
        config_notice: None,
        config_notice_until: None,
        service_installing: false,
        service_status,
        own_pid,
        last_lid: None,
        lid_closed_since: None,
        saw_process_wait_matches: false,
        process_grace_started: None,
        process_display_state: process_menu::DisplayModel::Hidden,
        last_process_display_state: process_menu::DisplayModel::Hidden,
        next_lease_refresh: after(now, HEARTBEAT_SECONDS),
        next_service_check: after(now, SERVICE_CHECK_SECONDS),
        next_refresh: now,
    }
}

/// The moment that is some seconds after another.
pub open spec fn after(now: Moment, seconds: u64) -> Moment {
    Moment { nanos: (now.nanos + controller_config::secs(seconds).nanos) as u128 }
}

/// The clock is far from the last moment that it can tell.
pub open spec fn clock_goes_on(now: Moment) -> bool {
    now.nanos <= u128::MAX / 2
}

pub(crate) fn later(now: Moment, seconds: u64) -> (r: Moment)
    requires
        clock_goes_on(now),
    ensures
        r == after(now, seconds),
{
    now.plus(Span::from_secs(seconds))
}

/// The settings of the controller differ.
pub open spec fn controller_differs(current: config::AppModel, applied: config::AppModel) -> bool {
    ||| current.enabled != applied.enabled
    ||| current.delay_seconds != applied.delay_seconds
    ||| current.poll_seconds != applied.poll_seconds
    ||| current.process_wait != applied.process_wait
}

/// Whether two lists of strings hold the same.
fn same_strings(left: &Vec<String>, right: &Vec<String>) -> (r: bool)
    ensures
        r == (system::string_views(left@) == system::string_views(right@)),
{
    let ghost a = system::string_views(left@);
    let ghost b = system::string_views(right@);
    if left.len() != right.len() {
        assert(a.len() != b.len());
        return false;
    }
    let mut i: usize = 0;
    while i < left.len()
        invariant
            i <= left@.len(),
            left@.len() == right@.len(),
            a == system::string_views(left@),
            b == system::string_views(right@),
            forall|j: int| 0 <= j < i ==> a[j] == b[j],
        decreases left@.len() - i,
    {
        assert(a[i as int] == left@[i as int]@);
        assert(b[i as int] == right@[i as int]@);
        if !str_eq(left[i].as_str(), right[i].as_str()) {
            return false;
        }
        i = i + 1;
    }
    assert(a =~= b);
    true
}

/// Whether the settings of the controller differ. Colors and the refresh of the
/// menu are none of its business.
pub fn controller_config_changed(current: &AppConfig, applied: &AppConfig) -> (r: bool)
    ensures
        r == controller_differs(current@, applied@),
{
    current.enabled != applied.enabled || current.delay_seconds != applied.delay_seconds || current.poll_seconds
        != applied.poll_seconds || current.process_wait.enabled != applied.process_wait.enabled
        || current.process_wait.exit_grace_seconds != applied.process_wait.exit_grace_seconds || !same_strings(
        &current.process_wait.command_substrings,
        &applied.process_wait.command_substrings,
    )
}

/// Processes are looked for often: the controller is on, the lid is closed, the
/// delay has passed, and there is something to look for.
pub open spec fn refresh_is_relevant(
    enabled: bool,
    lid: Option<LidState>,
    delay_elapsed: bool,
    wait: config::WaitModel,
) -> bool {
    enabled && lid == Some(LidState::Closed) && delay_elapsed && wait.enabled && system::any_needle(
        wait.command_substrings,
    )
}

pub fn process_wait_refresh_relevant(
    enabled: bool,
    lid: Option<LidState>,
    delay_elapsed: bool,
    wait: &ProcessWaitConfig,
) -> (r: bool)
    ensures
        r == refresh_is_relevant(enabled, lid, delay_elapsed, wait@),
{
    let closed = match lid {
        Some(LidState::Closed) => true,
        _ => false,
    };
    enabled && closed && delay_elapsed && wait.enabled && has_needle(wait.command_substrings.as_slice())
}

/// The time to the next refresh.
pub open spec fn refresh_interval(relevant: bool, delay_remaining: Option<Span>, menu_refresh_seconds: u64) -> Span {
    let configured = controller_config::secs(config::at_least_one(menu_refresh_seconds));
    if relevant {
        controller_config::secs(PROCESS_WAIT_REFRESH_SECONDS)
    } else {
        match delay_remaining {
            Some(remaining) => remaining.shorter(configured),
            None => configured,
        }
    }
}

pub fn process_wait_refresh_interval(
    process_wait_relevant: bool,
    delay_remaining: Option<Span>,
    menu_refresh_seconds: u64,
) -> (r: Span)
    ensures
        r == refresh_interval(process_wait_relevant, delay_remaining, menu_refresh_seconds),
{
    let configured = Span::from_secs(
        if menu_refresh_seconds == 0 {
            1
        } else {
            menu_refresh_seconds
        },
    );
    if process_wait_relevant {
        Span::from_secs(PROCESS_WAIT_REFRESH_SECONDS)
    } else {
        match delay_remaining {
            Some(remaining) => remaining.min(configured),
            None => configured,
        }
    }
}

/// The menu is never refreshed later than configured.
pub proof fn refresh_is_never_late(relevant: bool, delay_remaining: Option<Span>, menu_refresh_seconds: u64)
    ensures
        refresh_interval(relevant, delay_remaining, menu_refresh_seconds).nanos <= controller_config::secs(
            config::at_least_one(menu_refresh_seconds),
        ).nanos,
{
}

/// An item of the menu.
#[derive(Debug, Eq, PartialEq)]
pub enum MenuEntry {
    /// A line of text; it can be chosen where it is enabled.
    Item { id: Option<&'static str>, label: String, enabled: bool },
    /// A line with a check mark.
    Check { id: &'static str, label: String, checked: bool },
    /// The processes that are waited for.
    Processes(ProcessSubmenu),
    Separator,
}

/// What an item of the menu holds.
#[verifier::ext_equal]
pub enum EntryModel {
    Item { id: Option<Seq<char>>, label: Seq<char>, enabled: bool },
    Check { id: Seq<char>, label: Seq<char>, checked: bool },
    Processes { title: Seq<char>, items: Seq<process_menu::ItemModel> },
    Separator,
}

impl View for MenuEntry {
    type V = EntryModel;

    open spec fn view(&self) -> EntryModel {
        match *self {
            MenuEntry::Item { id, label, enabled } => EntryModel::Item {
                id: match id {
                    Some(name) => Some(name@),
                    None => None,
                },
                label: label@,
                enabled,
            },
            MenuEntry::Check { id, label, checked } => EntryModel::Check { id: id@, label: label@, checked },
            MenuEntry::Processes(submenu) => EntryModel::Processes {
                title: submenu.title@,
                items: process_menu::item_models(submenu.items@),
            },
            MenuEntry::Separator => EntryModel::Separator,
        }
    }
}

/// What some items of the menu hold.
pub open spec fn entry_models(entries: Seq<MenuEntry>) -> Seq<EntryModel> {
    entries.map_values(|e: MenuEntry| e@)
}

/// An item that can be chosen.
pub open spec fn choice(id: Seq<char>, label: Seq<char>) -> EntryModel {
    EntryModel::Item { id: Some(id), label, enabled: true }
}

/// A line of text that cannot be chosen.
pub open spec fn remark(label: Seq<char>) -> EntryModel {
    EntryModel::Item { id: None, label, enabled: false }
}

/// What the menu shows of the processes.
pub open spec fn process_entries(display: process_menu::DisplayModel) -> Seq<EntryModel> {
    match display {
        process_menu::DisplayModel::Hidden => seq![],
        process_menu::DisplayModel::Waiting(tree) => seq![
            EntryModel::Processes {
                title: process_menu::title_text(tree.match_count),
                items: process_menu::items_for(tree.roots),
            },
        ],
        process_menu::DisplayModel::Unavailable => seq![remark("Waiting Processes: unavailable"@)],
    }
}

/// What the menu offers about the services.
pub open spec fn service_entries(status: service::StatusModel) -> Seq<EntryModel> {
    match service::action_text(status) {
        Some(label) => seq![
            EntryModel::Item {
                id: Some(BACKGROUND_SERVICE_ID@),
                label,
                enabled: status != service::StatusModel::Installing,
            },
        ],
        None => seq![],
    }
}

/// The menu.
pub open spec fn menu_entries(
    display: process_menu::DisplayModel,
    enabled: bool,
    status: service::StatusModel,
    starts_at_login: bool,
) -> Seq<EntryModel> {
    seq![remark("Loading status"@)] + process_entries(display) + seq![
        EntryModel::Separator,
        EntryModel::Check { id: ENABLED_ID@, label: "No Sleep Till Done Enabled"@, checked: enabled },
        choice(RELOAD_CONFIG_ID@, "Reload Configuration"@),
        choice(OPEN_CONFIG_ID@, "Open Configuration..."@),
    ] + service_entries(status) + seq![
        choice(
            START_AT_LOGIN_ID@,
            if starts_at_login {
                "Start at Login: On"@
            } else {
                "Start at Login: Off"@
            },
        ),
        EntryModel::Separator,
        choice(QUIT_ID@, "Quit"@),
    ]
}

fn item(id: &'static str, label: &str) -> (r: MenuEntry)
    ensures
        r@ == choice(id@, label@),
{
    MenuEntry::Item { id: Some(id), label: label.to_owned(), enabled: true }
}

/// What choosing an item of the menu asks for.
#[derive(Clone, Copy, Debug, Eq, PartialEq, Structural)]
pub enum MenuCommand {
    OpenConfig,
    /// Turn the application on or off.
    SetEnabled(bool),
    ReloadConfig,
    SetUpService,
    ToggleLogin,
    Quit,
}

/// What choosing the item with an id asks for.
pub open spec fn command_for(id: Seq<char>, enabled: bool) -> Option<MenuCommand> {
    if id == OPEN_CONFIG_ID@ {
        Some(MenuCommand::OpenConfig)
    } else if id == ENABLED_ID@ {
        Some(MenuCommand::SetEnabled(!enabled))
    } else if id == RELOAD_CONFIG_ID@ {
        Some(MenuCommand::ReloadConfig)
    } else if id == BACKGROUND_SERVICE_ID@ {
        Some(MenuCommand::SetUpService)
    } else if id == START_AT_LOGIN_ID@ {
        Some(MenuCommand::ToggleLogin)
    } else if id == QUIT_ID@ {
        Some(MenuCommand::Quit)
    } else {
        None
    }
}

/// How the menu follows what it is to show of the processes.
#[derive(Debug, Eq, PartialEq)]
pub enum MenuUpdate {
    /// Not at all.
    Nothing,
    /// The submenu of the processes is filled anew.
    Processes(ProcessSubmenu),
    /// The menu is built anew.
    Rebuild,
}

/// The menu has to be built anew: something else asks for it, or the processes
/// are shown in another form.
pub open spec fn must_rebuild(m: MenuModel, rebuild: bool) -> bool {
    rebuild || process_menu::variant_of(m.last_process_display_state) != process_menu::variant_of(
        m.process_display_state,
    )
}

/// How the menu follows.
pub open spec fn follows(update: MenuUpdate, m: MenuModel, rebuild: bool) -> bool {
    if must_rebuild(m, rebuild) {
        update is Rebuild
    } else {
        match (m.last_process_display_state, m.process_display_state) {
            (process_menu::DisplayModel::Waiting(previous), process_menu::DisplayModel::Waiting(current)) => if process_menu::nodes_differ(
                previous,
                current,
            ) {
                update matches MenuUpdate::Processes(submenu) && process_menu::submenu_shows(submenu, current)
            } else {
                update is Nothing
            },
            _ => update is Nothing,
        }
    }
}

impl MenuBarApp {
    /// The application at its start.
    pub fn new(
        config: AppConfig,
        config_path: String,
        reload_generation: u64,
        service_status: ServiceStatus,
        own_pid: u32,
        now: Moment,
    ) -> (r: MenuBarApp)
        requires
            clock_goes_on(now),
        ensures
            r@ == starts_with(config@, config_path@, reload_generation, service_status@, own_pid, now),
    {
        MenuBarApp {
            applied_config: config.clone(),
            enabled: config.enabled,
            config,
            config_path,
            reload_generation,
            config_notice: None,
            config_notice_until: None,
            service_installing: false,
            service_status,
            own_pid,
            last_lid: None,
            lid_closed_since: None,
            saw_process_wait_matches: false,
            process_grace_started: None,
            process_display_state: ProcessDisplayState::Hidden,
            last_process_display_state: ProcessDisplayState::Hidden,
            next_lease_refresh: later(now, HEARTBEAT_SECONDS),
            next_service_check: later(now, SERVICE_CHECK_SECONDS),
            next_refresh: now,
        }
    }

    /// Builds the menu.
    pub fn build_menu(&mut self, starts_at_login: bool) -> (entries: Vec<MenuEntry>)
        ensures
            entry_models(entries@) == menu_entries(
                old(self)@.process_display_state,
                old(self)@.enabled,
                old(self)@.service_status,
                starts_at_login,
            ),
            final(self)@ == (MenuModel {
                last_process_display_state: old(self)@.process_display_state,
                ..old(self)@
            }),
    {
        let ghost display = self@.process_display_state;
        let ghost services = self@.service_status;
        let mut entries: Vec<MenuEntry> = Vec::new();
        entries.push(MenuEntry::Item { id: None, label: "Loading status".to_owned(), enabled: false });
        match &self.process_display_state {
            ProcessDisplayState::Hidden => {},
            ProcessDisplayState::Waiting(tree) => {
                entries.push(MenuEntry::Processes(build_process_submenu(tree)));
            },
            ProcessDisplayState::Unavailable => {
                entries.push(
                    MenuEntry::Item {
                        id: None,
                        label: "Waiting Processes: unavailable".to_owned(),
                        enabled: false,
                    },
                );
            },
        }
        let ghost top = seq![remark("Loading status"@)] + process_entries(display);
        assert(entry_models(entries@) =~= top);
        entries.push(MenuEntry::Separator);
        entries.push(
            MenuEntry::Check {
                id: ENABLED_ID,
                label: "No Sleep Till Done Enabled".to_owned(),
                checked: self.enabled,
            },
        );
        entries.push(item(RELOAD_CONFIG_ID, "Reload Configuration"));
        entries.push(item(OPEN_CONFIG_ID, "Open Configuration..."));
        let ghost middle = top + seq![
            EntryModel::Separator,
            EntryModel::Check { id: ENABLED_ID@, label: "No Sleep Till Done Enabled"@, checked: self.enabled },
            choice(RELOAD_CONFIG_ID@, "Reload Configuration"@),
            choice(OPEN_CONFIG_ID@, "Open Configuration..."@),
        ];
        assert(entry_models(entries@) =~= middle);
        if let Some(label) = background_service_action_text(&self.service_status) {
            let installing = match &self.service_status {
                ServiceStatus::Installing => true,
                _ => false,
            };
            entries.push(
                MenuEntry::Item {
                    id: Some(BACKGROUND_SERVICE_ID),
                    label: label.to_owned(),
                    enabled: !installing,
                },
            );
        }
        assert(entry_models(entries@) =~= middle + service_entries(services));
        entries.push(item(START_AT_LOGIN_ID, start_at_login_text(starts_at_login)));
        entries.push(MenuEntry::Separator);
        entries.push(item(QUIT_ID, "Quit"));
        assert(entry_models(entries@) =~= menu_entries(display, self.enabled, services, starts_at_login));
        self.last_process_display_state = self.process_display_state.copied();
        entries
    }

    /// Decides how the menu follows what it is to show of the processes.
    pub fn sync_process_menu(&mut self, rebuild_menu: bool) -> (update: MenuUpdate)
        ensures
            follows(update, old(self)@, rebuild_menu),
            final(self)@ == (if must_rebuild(old(self)@, rebuild_menu) {
                old(self)@
            } else {
                MenuModel { last_process_display_state: old(self)@.process_display_state, ..old(self)@ }
            }),
    {
        if rebuild_menu || process_menu_variant(&self.last_process_display_state) != process_menu_variant(
            &self.process_display_state,
        ) {
            return MenuUpdate::Rebuild;
        }
        let update = match (&self.last_process_display_state, &self.process_display_state) {
            (ProcessDisplayState::Waiting(previous), ProcessDisplayState::Waiting(current)) => {
                if process_tree_changed(previous, current) {
                    MenuUpdate::Processes(build_process_submenu(current))
                } else {
                    MenuUpdate::Nothing
                }
            },
            _ => MenuUpdate::Nothing,
        };
        self.last_process_display_state = self.process_display_state.copied();
        update
    }

    /// What choosing the item with an id asks for.
    pub fn handle_menu_event(&self, id: &str) -> (r: Option<MenuCommand>)
        ensures
            r == command_for(id@, self@.enabled),
    {
        if str_eq(id, OPEN_CONFIG_ID) {
            Some(MenuCommand::OpenConfig)
        } else if str_eq(id, ENABLED_ID) {
            Some(MenuCommand::SetEnabled(!self.enabled))
        } else if str_eq(id, RELOAD_CONFIG_ID) {
            Some(MenuCommand::ReloadConfig)
        } else if str_eq(id, BACKGROUND_SERVICE_ID) {
            Some(MenuCommand::SetUpService)
        } else if str_eq(id, START_AT_LOGIN_ID) {
            Some(MenuCommand::ToggleLogin)
        } else if str_eq(id, QUIT_ID) {
            Some(MenuCommand::Quit)
        } else {
            None
        }
    }

    /// Shows a notice until something else replaces it.
    fn set_notice(&mut self, message: String)
        ensures
            final(self)@ == (MenuModel {
                config_notice: Some(message@),
                config_notice_until: None,
                ..old(self)@
            }),
    {
        self.config_notice = Some(message);
        self.config_notice_until = None;
    }

    /// Shows a notice for a while.
    pub fn set_temporary_notice(&mut self, message: &str, now: Moment)
        requires
            clock_goes_on(now),
        ensures
            final(self)@ == (MenuModel {
                config_notice: Some(message@),
                config_notice_until: Some(after(now, NOTICE_SECONDS)),
                ..old(self)@
            }),
    {
        self.config_notice = Some(message.to_owned());
        self.config_notice_until = Some(later(now, NOTICE_SECONDS));
    }

    /// Applies a configuration that was read again; says what the lease becomes.
    pub fn reload_configuration(&mut self, config: AppConfig, path: String) -> (lease: LeaseRecord)
        ensures
            final(self)@ == (MenuModel {
                config: config@,
                applied_config: config@,
                enabled: config@.enabled,
                config_path: path@,
                reload_generation: next_generation(old(self)@.reload_generation),
                ..old(self)@
            }),
            lease.enabled == config@.enabled,
            lease.reload_generation == next_generation(old(self)@.reload_generation),
            final(self)@ == reloaded(old(self)@, config@, path@),
            lease.reload_generation != old(self)@.reload_generation,
            lease.reload_generation == final(self)@.reload_generation,
            final(self)@.applied_config == config@,
            final(self)@.config == config@,
            final(self)@.enabled == config@.enabled,
            final(self)@.lid_closed_since == old(self)@.lid_closed_since,
            final(self)@.last_lid == old(self)@.last_lid,
    {
        self.enabled = config.enabled;
        self.applied_config = config.clone();
        self.config = config;
        self.config_path = path;
        self.reload_generation = if self.reload_generation == u64::MAX {
            0
        } else {
            self.reload_generation + 1
        };
        LeaseRecord { enabled: self.enabled, reload_generation: self.reload_generation }
    }

    /// After the lease of a configuration that was read again was written.
    pub fn reload_finished(&mut self, now: Moment)
        requires
            clock_goes_on(now),
        ensures
            final(self)@ == (MenuModel {
                next_lease_refresh: after(now, HEARTBEAT_SECONDS),
                config_notice: Some("configuration reload requested"@),
                config_notice_until: Some(after(now, NOTICE_SECONDS)),
                ..old(self)@
            }),
            final(self)@ == noticed(
                (MenuModel { next_lease_refresh: after(now, HEARTBEAT_SECONDS), ..old(self)@ }),
                "configuration reload requested"@,
                Some(after(now, NOTICE_SECONDS)),
            ),
    {
        self.next_lease_refresh = later(now, HEARTBEAT_SECONDS);
        self.set_temporary_notice("configuration reload requested", now);
    }

    /// After a configuration could not be read again.
    pub fn reload_failed(&mut self, error: &str)
        ensures
            final(self)@ == (MenuModel {
                config_notice: Some("configuration error: "@ + error@),
                config_notice_until: None,
                ..old(self)@
            }),
            final(self)@ == noticed(old(self)@, "configuration error: "@ + error@, None),
    {
        let mut message = "configuration error: ".to_owned();
        message.append(error);
        self.set_notice(message);
    }

    /// After the application was turned on or off, and the configuration read again.
    pub fn set_app_enabled(&mut self, enabled: bool, now: Moment)
        requires
            clock_goes_on(now),
        ensures
            final(self)@ == (MenuModel {
                config_notice: Some(
                    if enabled {
                        "No Sleep Till Done enabled"@
                    } else {
                        "No Sleep Till Done disabled"@
                    },
                ),
                config_notice_until: Some(after(now, NOTICE_SECONDS)),
                ..old(self)@
            }),
            enabled ==> final(self)@ == noticed(
                old(self)@,
                "No Sleep Till Done enabled"@,
                Some(after(now, NOTICE_SECONDS)),
            ),
            !enabled ==> final(self)@ == noticed(
                old(self)@,
                "No Sleep Till Done disabled"@,
                Some(after(now, NOTICE_SECONDS)),
            ),
    {
        self.set_temporary_notice(
            if enabled {
                "No Sleep Till Done enabled"
            } else {
                "No Sleep Till Done disabled"
            },
            now,
        );
    }

    /// After the application could not be turned on or off.
    pub fn set_app_enabled_failed(&mut self, error: &str)
        ensures
            final(self)@ == (MenuModel {
                config_notice: Some("failed to change enabled state: "@ + error@),
                config_notice_until: None,
                ..old(self)@
            }),
            final(self)@ == noticed(old(self)@, "failed to change enabled state: "@ + error@, None),
    {
        let mut message = "failed to change enabled state: ".to_owned();
        message.append(error);
        self.set_notice(message);
    }

    /// Starts setting the services up, unless that is going on; says whether it
    /// is to be done.
    pub fn start_background_service_setup(&mut self) -> (r: bool)
        ensures
            r == !old(self)@.service_installing,
            final(self)@ == (if r {
                MenuModel {
                    service_installing: true,
                    service_status: service::StatusModel::Installing,
                    ..old(self)@
                }
            } else {
                old(self)@
            }),
            final(self)@ == setup_begun(old(self)@),
    {
        if self.service_installing {
            return false;
        }
        self.service_installing = true;
        self.service_status = ServiceStatus::Installing;
        true
    }
}

/// The menu with a configuration that was read again.
pub open spec fn reloaded(m: MenuModel, config: config::AppModel, path: Seq<char>) -> MenuModel {
    MenuModel {
        config,
        applied_config: config,
        enabled: config.enabled,
        config_path: path,
        reload_generation: next_generation(m.reload_generation),
        ..m
    }
}

/// The menu with a notice, which may end by itself.
pub open spec fn noticed(m: MenuModel, notice: Seq<char>, until: Option<Moment>) -> MenuModel {
    MenuModel { config_notice: Some(notice), config_notice_until: until, ..m }
}

/// The menu while the services are set up.
pub open spec fn setup_begun(m: MenuModel) -> MenuModel {
    if m.service_installing {
        m
    } else {
        MenuModel { service_installing: true, service_status: service::StatusModel::Installing, ..m }
    }
}

/// The generation after another.
pub open spec fn next_generation(generation: u64) -> u64 {
    if generation == u64::MAX {
        0
    } else {
        (generation + 1) as u64
    }
}

/// Reading the configuration again always tells the controller: the generation
/// of the lease is another than before.
pub proof fn reload_changes_the_generation(generation: u64)
    ensures
        next_generation(generation) != generation,
{
}

/// The id by which an item of the menu is chosen.
pub open spec fn id_of(entry: EntryModel) -> Option<Seq<char>> {
    match entry {
        EntryModel::Item { id, .. } => id,
        EntryModel::Check { id, .. } => Some(id),
        _ => None,
    }
}

/// Every item of the menu that can be chosen asks for something, and the check
/// mark asks for the other of on and off.
pub proof fn every_choice_is_answered(
    display: process_menu::DisplayModel,
    enabled: bool,
    status: service::StatusModel,
    starts_at_login: bool,
    i: int,
)
    requires
        0 <= i < menu_entries(display, enabled, status, starts_at_login).len(),
    ensures
        ({
            let entry = menu_entries(display, enabled, status, starts_at_login)[i];
            &&& id_of(entry) matches Some(id) ==> command_for(id, enabled) is Some
            &&& entry is Check ==> command_for(id_of(entry)->0, enabled) == Some(MenuCommand::SetEnabled(!enabled))
        }),
{
    reveal_strlit("enabled");
    reveal_strlit("open-config");
    assert(ENABLED_ID@[0] != OPEN_CONFIG_ID@[0]);
}

/// The menu offers to set the services up exactly where they are not in order.
pub proof fn maintenance_shows_when_needed(
    display: process_menu::DisplayModel,
    enabled: bool,
    status: service::StatusModel,
    starts_at_login: bool,
)
    ensures
        (exists|i: int|
            0 <= i < menu_entries(display, enabled, status, starts_at_login).len() && id_of(
                #[trigger] menu_entries(display, enabled, status, starts_at_login)[i],
            ) == Some(BACKGROUND_SERVICE_ID@)) == (status != service::StatusModel::Ready),
{
    reveal_strlit("background-service");
    reveal_strlit("enabled");
    reveal_strlit("open-config");
    reveal_strlit("reload-config");
    reveal_strlit("start-at-login");
    reveal_strlit("quit");
    let entries = menu_entries(display, enabled, status, starts_at_login);
    let at = 1 + process_entries(display).len() + 4;
    assert(BACKGROUND_SERVICE_ID@[0] == 'b');
    assert(ENABLED_ID@[0] == 'e' && OPEN_CONFIG_ID@[0] == 'o' && RELOAD_CONFIG_ID@[0] == 'r');
    assert(START_AT_LOGIN_ID@[0] == 's' && QUIT_ID@[0] == 'q');
    if status != service::StatusModel::Ready {
        assert(id_of(entries[at as int]) == Some(BACKGROUND_SERVICE_ID@));
    }
}

/// The lease is renewed well before it ends, the services are looked at every
/// fifteen seconds, processes that are waited for every second, and a notice is
/// shown for ten.
pub proof fn menu_keeps_its_times(now: Moment)
    requires
        clock_goes_on(now),
    ensures
        after(now, HEARTBEAT_SECONDS).nanos == now.nanos + 5_000_000_000,
        after(now, SERVICE_CHECK_SECONDS).nanos == now.nanos + 15_000_000_000,
        after(now, PROCESS_WAIT_REFRESH_SECONDS).nanos == now.nanos + 1_000_000_000,
        after(now, NOTICE_SECONDS).nanos == now.nanos + 10_000_000_000,
        HEARTBEAT_SECONDS * 2 < lease::LEASE_TIMEOUT_SECONDS,
{
}

/// An application starts with the configuration applied, its first refresh due,
/// and nothing known of the lid or of processes.
pub proof fn application_starts_afresh(
    config: config::AppModel,
    path: Seq<char>,
    generation: u64,
    services: service::StatusModel,
    own_pid: u32,
    now: Moment,
)
    requires
        clock_goes_on(now),
    ensures
        ({
            let m = starts_with(config, path, generation, services, own_pid, now);
            &&& m.config == config && m.applied_config == config && m.enabled == config.enabled
            &&& m.config_path == path && m.reload_generation == generation && m.service_status == services
            &&& m.own_pid == own_pid && m.next_refresh == now
            &&& m.next_lease_refresh.nanos == now.nanos + 5_000_000_000
            &&& m.next_service_check.nanos == now.nanos + 15_000_000_000
            &&& m.config_notice is None && m.config_notice_until is None && !m.service_installing
            &&& m.last_lid is None && m.lid_closed_since is None
            &&& !m.saw_process_wait_matches && m.process_grace_started is None
            &&& m.process_display_state is Hidden && m.last_process_display_state is Hidden
        }),
{
}

/// A change of the switch, the delay, the polling or the waiting concerns the
/// controller; colors and the refresh of the menu do not.
pub proof fn controller_is_concerned_by_its_own(a: config::AppModel, b: config::AppModel)
    ensures
        a.enabled != b.enabled ==> controller_differs(a, b),
        a.delay_seconds != b.delay_seconds ==> controller_differs(a, b),
        a.poll_seconds != b.poll_seconds ==> controller_differs(a, b),
        a.process_wait.enabled != b.process_wait.enabled ==> controller_differs(a, b),
        a.process_wait.command_substrings != b.process_wait.command_substrings ==> controller_differs(a, b),
        a.process_wait.exit_grace_seconds != b.process_wait.exit_grace_seconds ==> controller_differs(a, b),
        !controller_differs(
            a,
            config::AppModel { colors: b.colors, menu_refresh_seconds: b.menu_refresh_seconds, ..a },
        ),
        controller_differs(a, b) == controller_differs(b, a),
{
}

/// Processes are looked at often exactly where the application is on, the lid is
/// closed, the delay is over, and something is waited for.
pub proof fn processes_are_looked_at_often_when_waited_for(
    enabled: bool,
    lid: Option<LidState>,
    delay_elapsed: bool,
    wait: config::WaitModel,
)
    ensures
        refresh_is_relevant(enabled, lid, delay_elapsed, wait) <==> enabled && lid == Some(LidState::Closed)
            && delay_elapsed && wait.enabled && exists|i: int|
            0 <= i < wait.command_substrings.len() && (#[trigger] wait.command_substrings[i]).len() > 0,
{
    system::commands_match_by_any_string(seq![], wait.command_substrings);
}

/// The next refresh comes after a second while processes are looked at often, and
/// otherwise after the configured time, or when the delay is over where that is
/// sooner. A configured time of zero counts as a second.
pub proof fn refreshes_come_in_time(remaining: Span, menu_refresh_seconds: u64)
    ensures
        refresh_interval(true, Some(remaining), menu_refresh_seconds).nanos == 1_000_000_000,
        refresh_interval(true, None, menu_refresh_seconds).nanos == 1_000_000_000,
        menu_refresh_seconds > 0 ==> refresh_interval(false, None, menu_refresh_seconds).nanos
            == menu_refresh_seconds * 1_000_000_000,
        refresh_interval(false, None, 0).nanos == 1_000_000_000,
        ({
            let configured = refresh_interval(false, None, menu_refresh_seconds);
            let sooner = refresh_interval(false, Some(remaining), menu_refresh_seconds);
            sooner.nanos == (if remaining.nanos <= configured.nanos {
                remaining.nanos
            } else {
                configured.nanos
            })
        }),
{
    assert(menu_refresh_seconds * 1_000_000_000 <= u128::MAX);
}

/// The generation goes up by one with every reload, and starts again after the last.
pub proof fn generations_go_up(generation: u64)
    ensures
        generation < u64::MAX ==> next_generation(generation) == generation + 1,
        next_generation(u64::MAX) == 0,
{
}

/// Each item of the menu asks for its own; the check mark for the other of on and
/// off; anything else for nothing.
pub proof fn items_ask_for_their_own(id: Seq<char>, enabled: bool)
    ensures
        command_for("open-config"@, enabled) == Some(MenuCommand::OpenConfig),
        command_for("enabled"@, enabled) == Some(MenuCommand::SetEnabled(!enabled)),
        command_for("reload-config"@, enabled) == Some(MenuCommand::ReloadConfig),
        command_for("background-service"@, enabled) == Some(MenuCommand::SetUpService),
        command_for("start-at-login"@, enabled) == Some(MenuCommand::ToggleLogin),
        command_for("quit"@, enabled) == Some(MenuCommand::Quit),
        id != "open-config"@ && id != "enabled"@ && id != "reload-config"@ && id != "background-service"@ && id
            != "start-at-login"@ && id != "quit"@ ==> command_for(id, enabled) is None,
{
    reveal_strlit("background-service");
    reveal_strlit("enabled");
    reveal_strlit("open-config");
    reveal_strlit("reload-config");
    reveal_strlit("start-at-login");
    reveal_strlit("quit");
    assert("background-service"@[0] == 'b' && "enabled"@[0] == 'e' && "open-config"@[0] == 'o');
    assert("reload-config"@[0] == 'r' && "start-at-login"@[0] == 's' && "quit"@[0] == 'q');
}

/// The menu is laid out from the state of things down to leaving: the processes
/// where they are shown, the check mark, the configuration, the services where
/// they are not in order, the start at login.
pub proof fn menu_is_laid_out(
    display: process_menu::DisplayModel,
    enabled: bool,
    status: service::StatusModel,
    starts_at_login: bool,
)
    ensures
        ({
            let e = menu_entries(display, enabled, status, starts_at_login);
            let n: int = if display is Hidden {
                0
            } else {
                1
            };
            let k: int = if status is Ready {
                0
            } else {
                1
            };
            &&& e.len() == 8 + n + k
            &&& e[0] == (EntryModel::Item { id: None, label: "Loading status"@, enabled: false })
            &&& display is Unavailable ==> e[1] == (EntryModel::Item {
                id: None,
                label: "Waiting Processes: unavailable"@,
                enabled: false,
            })
            &&& display matches process_menu::DisplayModel::Waiting(tree) ==> e[1] == (EntryModel::Processes {
                title: process_menu::title_text(tree.match_count),
                items: process_menu::items_for(tree.roots),
            })
            &&& e[1 + n] is Separator
            &&& e[2 + n] == (EntryModel::Check {
                id: "enabled"@,
                label: "No Sleep Till Done Enabled"@,
                checked: enabled,
            })
            &&& e[3 + n] == (EntryModel::Item {
                id: Some("reload-config"@),
                label: "Reload Configuration"@,
                enabled: true,
            })
            &&& e[4 + n] == (EntryModel::Item {
                id: Some("open-config"@),
                label: "Open Configuration..."@,
                enabled: true,
            })
            &&& k == 1 ==> e[5 + n] == (EntryModel::Item {
                id: Some("background-service"@),
                label: service::action_text(status)->0,
                enabled: !(status is Installing),
            })
            &&& e[5 + n + k] == (EntryModel::Item {
                id: Some("start-at-login"@),
                label: if starts_at_login {
                    "Start at Login: On"@
                } else {
                    "Start at Login: Off"@
                },
                enabled: true,
            })
            &&& e[6 + n + k] is Separator
            &&& e[7 + n + k] == (EntryModel::Item { id: Some("quit"@), label: "Quit"@, enabled: true })
        }),
{
}

/// The menu is built anew where something asks for it, or where the processes are
/// shown in another form than before; where the processes differ they alone are
/// shown anew, and where nothing does nothing is.
pub proof fn menu_follows_what_it_shows(update: MenuUpdate, m: MenuModel, rebuild: bool)
    requires
        follows(update, m, rebuild),
    ensures
        ({
            let before = m.last_process_display_state;
            let now = m.process_display_state;
            let same_form = before is Hidden == now is Hidden && before is Waiting == now is Waiting
                && before is Unavailable == now is Unavailable;
            &&& update is Rebuild <==> rebuild || !same_form
            &&& update is Processes ==> before is Waiting && now is Waiting
            &&& !rebuild && before is Waiting && now is Waiting ==> (update is Processes
                <==> process_menu::nodes_differ(before->Waiting_0, now->Waiting_0))
            &&& update matches MenuUpdate::Processes(submenu) ==> process_menu::submenu_shows(submenu, now->Waiting_0)
        }),
{
}

/// Reading the configuration again makes it the one that is followed, and that the
/// controller has; it is told by another generation. What was seen of the lid, of
/// processes and of the services stays.
pub proof fn reading_again_applies_the_file(m: MenuModel, config: config::AppModel, path: Seq<char>)
    ensures
        ({
            let r = reloaded(m, config, path);
            &&& r.config == config && r.applied_config == config
            &&& r.enabled == config.enabled
            &&& r.config_path == path
            &&& r.reload_generation != m.reload_generation
            &&& m.reload_generation < u64::MAX ==> r.reload_generation == m.reload_generation + 1
            &&& !controller_differs(r.config, r.applied_config)
            &&& r == (MenuModel {
                config: r.config,
                applied_config: r.applied_config,
                enabled: r.enabled,
                config_path: r.config_path,
                reload_generation: r.reload_generation,
                ..m
            })
            &&& reloaded(r, config, path).config == r.config
        }),
{
}

/// A notice says its text, for as long as it is to be shown, and changes nothing
/// else: a later one takes its place.
pub proof fn notices_change_nothing_else(
    m: MenuModel,
    notice: Seq<char>,
    until: Option<Moment>,
    later: Seq<char>,
    later_until: Option<Moment>,
)
    ensures
        noticed(m, notice, until).config_notice == Some(notice),
        noticed(m, notice, until).config_notice_until == until,
        noticed(noticed(m, notice, until), later, later_until) == noticed(m, later, later_until),
        (MenuModel {
            config_notice: m.config_notice,
            config_notice_until: m.config_notice_until,
            ..noticed(m, notice, until)
        }) == m,
{
}

/// Setting the services up begins once: until it is over, beginning it again
/// changes nothing. Only what is said of the services changes.
pub proof fn setup_begins_once(m: MenuModel)
    ensures
        setup_begun(m).service_installing,
        setup_begun(setup_begun(m)) == setup_begun(m),
        m.service_installing ==> setup_begun(m) == m,
        !m.service_installing ==> setup_begun(m).service_status == service::StatusModel::Installing,
        (MenuModel {
            service_installing: m.service_installing,
            service_status: m.service_status,
            ..setup_begun(m)
        }) == m,
{
}

} // verus!
