//! How the menu bar application follows the lid, the processes, the services and
//! the configuration.
use vstd::prelude::*;
use vstd::string::StringExecFns;

use crate::config;
use crate::config::AppConfig;
use crate::controller_config;
use crate::lease::LeaseRecord;
use crate::menu;
use crate::menu::{controller_config_changed, later, process_wait_refresh_interval, process_wait_refresh_relevant,
    MenuBarApp};
use crate::process_menu;
use crate::process_menu::ProcessDisplayState;
use crate::process_tree;
use crate::process_tree::build_process_tree;
use crate::service;
use crate::service::{same_status, ServiceStatus};
use crate::status;
use crate::status::{ProcessWaitStatus, StatusSnapshot};
use crate::system;
use crate::system::{filter_processes, has_needle, BatteryState, LidState, ProcessInfo, SystemError};
use crate::time::{Moment, Span};

verus! {

/// What came of a look at the processes, and when that was.
#[derive(Debug)]
pub struct ProcessScan {
    pub table: Result<Vec<ProcessInfo>, SystemError>,
    pub finished: Moment,
}

/// What a status of waiting holds.
pub open spec fn wait_model(wait: Option<ProcessWaitStatus>) -> Option<status::WaitStatusModel> {
    match wait {
        Some(status) => Some(status.model()),
        None => None,
    }
}

/// The table of a look that worked.
pub open spec fn table_in(scan: Result<Vec<ProcessInfo>, SystemError>) -> Option<Seq<ProcessInfo>> {
    match scan {
        Ok(table) => Some(table@),
        Err(_) => None,
    }
}

/// The processes of a table that are waited for.
pub open spec fn waited_for(m: menu::MenuModel, table: Seq<ProcessInfo>) -> Seq<ProcessInfo> {
    table.filter(system::wanted(m.applied_config.process_wait.command_substrings, m.own_pid))
}

/// When the grace started, if it lasts now.
pub open spec fn grace_start(m: menu::MenuModel, now: Moment) -> Moment {
    match m.process_grace_started {
        Some(started) => started,
        None => now,
    }
}

/// After a look that found processes, which a tree shows.
pub open spec fn waiting_after(m: menu::MenuModel, tree: process_tree::TreeModel) -> menu::MenuModel {
    menu::MenuModel {
        saw_process_wait_matches: true,
        process_grace_started: None,
        process_display_state: process_menu::DisplayModel::Waiting(tree),
        ..m
    }
}

/// What a look at the processes makes of the application, and what it says of
/// the waiting. A look that failed leaves the waiting as it was. A look that
/// found nothing starts the grace, where processes were seen before.
pub open spec fn scan_leads_to(
    before: menu::MenuModel,
    table: Option<Seq<ProcessInfo>>,
    now: Moment,
    clock: Moment,
    now_model: menu::MenuModel,
    wait: Option<status::WaitStatusModel>,
) -> bool {
    match table {
        None => {
            &&& now_model == menu::MenuModel {
                process_display_state: process_menu::DisplayModel::Unavailable,
                ..before
            }
            &&& wait == Some(status::WaitStatusModel::Unavailable)
        },
        Some(processes) => if waited_for(before, processes).len() > 0 {
            exists|tree: process_tree::TreeModel|
                {
                    &&& #[trigger] process_tree::tree_shows(tree, processes, waited_for(before, processes))
                    &&& now_model == waiting_after(before, tree)
                    &&& wait == Some(status::WaitStatusModel::Waiting(tree))
                }
        } else if before.saw_process_wait_matches {
            &&& now_model == menu::MenuModel {
                process_display_state: process_menu::DisplayModel::Hidden,
                process_grace_started: Some(grace_start(before, now)),
                ..before
            }
            &&& wait == Some(
                status::WaitStatusModel::Grace(
                    controller_config::secs(before.applied_config.process_wait.exit_grace_seconds).less(
                        clock.after(grace_start(before, now)),
                    ),
                ),
            )
        } else {
            &&& now_model == menu::MenuModel {
                process_display_state: process_menu::DisplayModel::Hidden,
                ..before
            }
            &&& wait is None
        },
    }
}

/// Processes could be waited for: the application is on, the lid is closed, and
/// waiting is turned on.
pub open spec fn may_wait(m: menu::MenuModel, lid: Option<LidState>) -> bool {
    m.enabled && lid == Some(LidState::Closed) && m.applied_config.process_wait.enabled
}

/// After a lid that is not closed, or without waiting: nothing is remembered of it.
pub open spec fn without_waiting(m: menu::MenuModel) -> menu::MenuModel {
    menu::MenuModel {
        saw_process_wait_matches: false,
        process_grace_started: None,
        process_display_state: process_menu::DisplayModel::Hidden,
        ..m
    }
}

/// The delay of the closed lid, as it was last applied.
pub open spec fn applied_delay(m: menu::MenuModel) -> Span {
    controller_config::secs(m.applied_config.delay_seconds)
}

/// It is time to look at the processes.
pub open spec fn scan_is_due(m: menu::MenuModel, clock: Moment) -> bool {
    &&& m.lid_closed_since matches Some(since) && clock.after(since).nanos >= applied_delay(m).nanos
    &&& system::any_needle(m.applied_config.process_wait.command_substrings)
}

/// The lid was read. A lid that was closed starts its time; a lid that was
/// opened ends everything that the closed lid had started.
pub open spec fn lid_seen(m: menu::MenuModel, lid: Option<LidState>, now: Moment) -> menu::MenuModel {
    if lid == m.last_lid {
        m
    } else {
        match lid {
            Some(LidState::Closed) => menu::MenuModel { lid_closed_since: Some(now), last_lid: lid, ..m },
            Some(LidState::Open) => menu::MenuModel {
                lid_closed_since: None,
                last_lid: lid,
                ..without_waiting(m)
            },
            None => menu::MenuModel { last_lid: lid, ..m },
        }
    }
}

/// The time to forced sleep, where the lid is closed.
pub open spec fn remaining_delay(m: menu::MenuModel, lid: Option<LidState>, clock: Moment) -> Option<Span> {
    match (lid, m.lid_closed_since) {
        (Some(LidState::Closed), Some(since)) => Some(applied_delay(m).less(clock.after(since))),
        _ => None,
    }
}

/// The time until the processes are looked at, where they will be.
pub open spec fn wait_delay(m: menu::MenuModel, now: Moment) -> Option<Span> {
    if may_wait(m, m.last_lid) && system::any_needle(m.applied_config.process_wait.command_substrings) {
        match m.lid_closed_since {
            Some(since) => Some(applied_delay(m).less(now.after(since))),
            None => None,
        }
    } else {
        None
    }
}

/// What was read at a moment.
#[derive(Debug)]
pub struct Readings {
    pub lid: Option<LidState>,
    pub battery: Option<BatteryState>,
    pub sleep_disabled: Option<bool>,
}

/// A snapshot shows the readings, and what the application knows.
pub open spec fn snapshot_shows(
    snapshot: StatusSnapshot,
    readings: Readings,
    seen: menu::MenuModel,
    clock: Moment,
) -> bool {
    &&& snapshot.battery == readings.battery
    &&& snapshot.lid == readings.lid
    &&& snapshot.sleep_disabled == readings.sleep_disabled
    &&& snapshot.remaining == remaining_delay(seen, readings.lid, clock)
    &&& snapshot.enabled == seen.enabled
    &&& snapshot.service_status@ == seen.service_status
    &&& menu::text_in(snapshot.config_notice) == seen.config_notice
}

/// What becomes of the application and of the waiting, where `scanned` says what
/// a look at the processes would make of them.
pub open spec fn wait_leads_to(
    before: menu::MenuModel,
    lid: Option<LidState>,
    clock: Moment,
    now_model: menu::MenuModel,
    wait: Option<status::WaitStatusModel>,
    scanned: bool,
) -> bool {
    if !may_wait(before, lid) {
        now_model == without_waiting(before) && wait is None
    } else if scan_is_due(before, clock) {
        scanned
    } else {
        &&& now_model == if before.lid_closed_since is Some {
            menu::MenuModel { process_display_state: process_menu::DisplayModel::Hidden, ..before }
        } else {
            before
        }
        &&& wait is None
    }
}

fn is_closed(lid: Option<LidState>) -> (r: bool)
    ensures
        r == (lid == Some(LidState::Closed)),
{
    match lid {
        Some(LidState::Closed) => true,
        _ => false,
    }
}

fn same_lid(left: Option<LidState>, right: Option<LidState>) -> (r: bool)
    ensures
        r == (left == right),
{
    match (left, right) {
        (Some(a), Some(b)) => a == b,
        (None, None) => true,
        _ => false,
    }
}

fn copied_text(s: &Option<String>) -> (r: Option<String>)
    ensures
        menu::text_in(r) == menu::text_in(*s),
{
    match s {
        Some(text) => Some(text.clone()),
        None => None,
    }
}

impl MenuBarApp {
    /// What a look at the processes says of the waiting.
    pub fn process_wait_status_from_scan(
        &mut self,
        scan: Result<Vec<ProcessInfo>, SystemError>,
        now: Moment,
        clock: Moment,
    ) -> (wait: Option<ProcessWaitStatus>)
        ensures
            scan_leads_to(old(self)@, table_in(scan), now, clock, final(self)@, wait_model(wait)),
    {
        let ghost before = self@;
        let table = match scan {
            Ok(table) => table,
            Err(_) => {
                self.process_display_state = ProcessDisplayState::Unavailable;
                return Some(ProcessWaitStatus::Unavailable);
            },
        };
        let matches = filter_processes(
            table.as_slice(),
            self.applied_config.process_wait.command_substrings.as_slice(),
            self.own_pid,
        );
        assert(matches@ == waited_for(before, table@));
        if matches.len() == 0 {
            self.process_display_state = ProcessDisplayState::Hidden;
            if !self.saw_process_wait_matches {
                return None;
            }
            let started = match self.process_grace_started {
                Some(started) => started,
                None => now,
            };
            self.process_grace_started = Some(started);
            let grace = Span::from_secs(self.applied_config.process_wait.exit_grace_seconds);
            return Some(
                ProcessWaitStatus::Grace {
                    remaining: grace.saturating_sub(clock.saturating_duration_since(started)),
                },
            );
        }
        let tree = build_process_tree(table.as_slice(), matches.as_slice());
        self.saw_process_wait_matches = true;
        self.process_grace_started = None;
        self.process_display_state = ProcessDisplayState::Waiting(tree.copied());
        assert(self@ == waiting_after(before, tree.model()));
        Some(ProcessWaitStatus::Waiting { tree })
    }

    /// What is known of the waiting. The processes are looked at, by `scan`, only
    /// where it is time to.
    pub fn process_wait_status_with_scan<F: FnOnce() -> ProcessScan>(
        &mut self,
        lid: Option<LidState>,
        now: Moment,
        clock: Moment,
        scan: F,
    ) -> (wait: Option<ProcessWaitStatus>)
        requires
            may_wait(old(self)@, lid) && scan_is_due(old(self)@, clock) ==> scan.requires(()),
        ensures
            wait_leads_to(
                old(self)@,
                lid,
                clock,
                final(self)@,
                wait_model(wait),
                exists|s: ProcessScan| #[trigger]
                    scan.ensures((), s) && scan_leads_to(
                        old(self)@,
                        table_in(s.table),
                        now,
                        s.finished,
                        final(self)@,
                        wait_model(wait),
                    ),
            ),
    {
        if !self.enabled || !is_closed(lid) || !self.applied_config.process_wait.enabled {
            self.saw_process_wait_matches = false;
            self.process_grace_started = None;
            self.process_display_state = ProcessDisplayState::Hidden;
            return None;
        }
        let closed_since = match self.lid_closed_since {
            Some(since) => since,
            None => {
                return None;
            },
        };
        let delay = Span::from_secs(self.applied_config.delay_seconds);
        if clock.saturating_duration_since(closed_since).nanos < delay.nanos || !has_needle(
            self.applied_config.process_wait.command_substrings.as_slice(),
        ) {
            self.process_display_state = ProcessDisplayState::Hidden;
            return None;
        }
        let found = scan();
        self.process_wait_status_from_scan(found.table, now, found.finished)
    }

    /// Takes the lid as it was read.
    fn see_lid(&mut self, lid: Option<LidState>, now: Moment)
        ensures
            final(self)@ == lid_seen(old(self)@, lid, now),
    {
        if !same_lid(lid, self.last_lid) {
            match lid {
                Some(LidState::Closed) => {
                    self.lid_closed_since = Some(now);
                },
                Some(LidState::Open) => {
                    self.lid_closed_since = None;
                    self.saw_process_wait_matches = false;
                    self.process_grace_started = None;
                    self.process_display_state = ProcessDisplayState::Hidden;
                },
                None => {},
            }
            self.last_lid = lid;
        }
    }

    /// The state of things, by what was read at `now`; `clock` is when that was done.
    pub fn snapshot<F: FnOnce() -> ProcessScan>(
        &mut self,
        readings: Readings,
        now: Moment,
        clock: Moment,
        scan: F,
    ) -> (snapshot: StatusSnapshot)
        requires
            may_wait(lid_seen(old(self)@, readings.lid, now), readings.lid) && scan_is_due(
                lid_seen(old(self)@, readings.lid, now),
                clock,
            ) ==> scan.requires(()),
        ensures
            snapshot_shows(snapshot, readings, lid_seen(old(self)@, readings.lid, now), clock),
            wait_leads_to(
                lid_seen(old(self)@, readings.lid, now),
                readings.lid,
                clock,
                final(self)@,
                wait_model(snapshot.process_wait),
                exists|s: ProcessScan| #[trigger]
                    scan.ensures((), s) && scan_leads_to(
                        lid_seen(old(self)@, readings.lid, now),
                        table_in(s.table),
                        now,
                        s.finished,
                        final(self)@,
                        wait_model(snapshot.process_wait),
                    ),
            ),
    {
        self.see_lid(readings.lid, now);
        let remaining = match (readings.lid, self.lid_closed_since) {
            (Some(LidState::Closed), Some(since)) => {
                let delay = Span::from_secs(self.applied_config.delay_seconds);
                Some(delay.saturating_sub(clock.saturating_duration_since(since)))
            },
            _ => None,
        };
        let service_status = self.service_status.clone();
        let config_notice = copied_text(&self.config_notice);
        let enabled = self.enabled;
        let process_wait = self.process_wait_status_with_scan(readings.lid, now, clock, scan);
        StatusSnapshot {
            battery: readings.battery,
            lid: readings.lid,
            sleep_disabled: readings.sleep_disabled,
            remaining,
            process_wait,
            enabled,
            service_status,
            config_notice,
        }
    }

    /// The time until the processes are looked at, where they will be.
    pub fn process_wait_delay_remaining(&self, now: Moment) -> (r: Option<Span>)
        ensures
            r == wait_delay(self@, now),
    {
        if !self.enabled || !is_closed(self.last_lid) || !self.applied_config.process_wait.enabled || !has_needle(
            self.applied_config.process_wait.command_substrings.as_slice(),
        ) {
            return None;
        }
        match self.lid_closed_since {
            Some(since) => {
                let elapsed = now.saturating_duration_since(since);
                Some(Span::from_secs(self.applied_config.delay_seconds).saturating_sub(elapsed))
            },
            None => None,
        }
    }

    /// Whether the processes are looked at often.
    pub fn process_wait_refresh_relevant(&self, delay_remaining: Option<Span>) -> (r: bool)
        ensures
            r == menu::refresh_is_relevant(
                self@.enabled,
                self@.last_lid,
                delay_remaining matches Some(span) && span.nanos == 0,
                self@.applied_config.process_wait,
            ),
    {
        let elapsed = match delay_remaining {
            Some(span) => span.is_zero(),
            None => false,
        };
        process_wait_refresh_relevant(
            self.enabled,
            self.last_lid,
            elapsed,
            &self.applied_config.process_wait,
        )
    }
}

/// A step of a refresh: what is wanted next. It is remembered whether the menu
/// has to be built anew.
#[derive(Debug, Eq, PartialEq)]
pub enum RefreshStep {
    /// Is there word from setting the services up?
    Messages { rebuild: bool },
    /// Write the lease.
    WriteLease { rebuild: bool },
    /// Read the configuration.
    LoadConfig { rebuild: bool },
    /// Look at the services.
    CheckService { rebuild: bool },
    /// Show the state of things.
    Show { rebuild: bool },
    /// Give the refresh up.
    Failed(String),
}

/// What a step of a refresh holds.
pub enum RefreshStepModel {
    Messages { rebuild: bool },
    WriteLease { rebuild: bool },
    LoadConfig { rebuild: bool },
    CheckService { rebuild: bool },
    Show { rebuild: bool },
    Failed(Seq<char>),
}

impl View for RefreshStep {
    type V = RefreshStepModel;

    open spec fn view(&self) -> RefreshStepModel {
        match *self {
            RefreshStep::Messages { rebuild } => RefreshStepModel::Messages { rebuild },
            RefreshStep::WriteLease { rebuild } => RefreshStepModel::WriteLease { rebuild },
            RefreshStep::LoadConfig { rebuild } => RefreshStepModel::LoadConfig { rebuild },
            RefreshStep::CheckService { rebuild } => RefreshStepModel::CheckService { rebuild },
            RefreshStep::Show { rebuild } => RefreshStepModel::Show { rebuild },
            RefreshStep::Failed(error) => RefreshStepModel::Failed(error@),
        }
    }
}

/// What came of a step of a refresh.
#[derive(Debug)]
pub enum RefreshEvent {
    /// What setting the services up has to say, if anything.
    Message(Option<ServiceStatus>),
    LeaseWritten(Result<(), String>),
    /// The configuration and the path of its file.
    ConfigLoaded(Result<(AppConfig, String), String>),
    ServiceChecked(ServiceStatus),
}

/// What an event of a refresh holds.
pub enum RefreshEventModel {
    Message(Option<service::StatusModel>),
    LeaseWritten(Result<(), Seq<char>>),
    ConfigLoaded(Result<(config::AppModel, Seq<char>), Seq<char>>),
    ServiceChecked(service::StatusModel),
}

impl View for RefreshEvent {
    type V = RefreshEventModel;

    open spec fn view(&self) -> RefreshEventModel {
        match *self {
            RefreshEvent::Message(Some(status)) => RefreshEventModel::Message(Some(status@)),
            RefreshEvent::Message(None) => RefreshEventModel::Message(None),
            RefreshEvent::LeaseWritten(Ok(())) => RefreshEventModel::LeaseWritten(Ok(())),
            RefreshEvent::LeaseWritten(Err(error)) => RefreshEventModel::LeaseWritten(Err(error@)),
            RefreshEvent::ConfigLoaded(Ok((config, path))) => RefreshEventModel::ConfigLoaded(Ok((config@, path@))),
            RefreshEvent::ConfigLoaded(Err(error)) => RefreshEventModel::ConfigLoaded(Err(error@)),
            RefreshEvent::ServiceChecked(status) => RefreshEventModel::ServiceChecked(status@),
        }
    }
}

/// The application at the start of a refresh: a notice whose time is over is gone.
pub open spec fn refresh_begun(m: menu::MenuModel, now: Moment) -> menu::MenuModel {
    match m.config_notice_until {
        Some(until) => if now.nanos >= until.nanos {
            menu::MenuModel { config_notice: None, config_notice_until: None, ..m }
        } else {
            m
        },
        None => m,
    }
}

/// The application after the configuration was read, or was not.
pub open spec fn config_seen(
    m: menu::MenuModel,
    loaded: Result<(config::AppModel, Seq<char>), Seq<char>>,
) -> menu::MenuModel {
    match loaded {
        Ok((file, path)) => {
            let read = menu::MenuModel { config: file, config_path: path, ..m };
            if menu::controller_differs(file, m.applied_config) {
                menu::MenuModel {
                    config_notice: Some("configuration changed; reload required"@),
                    config_notice_until: None,
                    ..read
                }
            } else {
                read
            }
        },
        Err(error) => menu::MenuModel {
            config_notice: Some("configuration error: "@ + error),
            config_notice_until: None,
            ..m
        },
    }
}

/// What an event of a refresh makes of the application, and the next step. An
/// event that does not answer the step changes nothing.
pub open spec fn refreshed(
    m: menu::MenuModel,
    step: RefreshStepModel,
    event: RefreshEventModel,
    now: Moment,
) -> (menu::MenuModel, RefreshStepModel) {
    match (step, event) {
        (RefreshStepModel::Messages { rebuild }, RefreshEventModel::Message(message)) => match message {
            Some(status) => (
                menu::MenuModel { service_installing: false, service_status: status, ..m },
                RefreshStepModel::Messages { rebuild: rebuild || status != m.service_status },
            ),
            None => (
                m,
                if now.nanos >= m.next_lease_refresh.nanos {
                    RefreshStepModel::WriteLease { rebuild }
                } else {
                    RefreshStepModel::LoadConfig { rebuild }
                },
            ),
        },
        (RefreshStepModel::WriteLease { rebuild }, RefreshEventModel::LeaseWritten(written)) => match written {
            Ok(()) => (
                menu::MenuModel { next_lease_refresh: menu::after(now, menu::HEARTBEAT_SECONDS), ..m },
                RefreshStepModel::LoadConfig { rebuild },
            ),
            Err(error) => (m, RefreshStepModel::Failed(error)),
        },
        (RefreshStepModel::LoadConfig { rebuild }, RefreshEventModel::ConfigLoaded(loaded)) => (
            config_seen(m, loaded),
            if !m.service_installing && now.nanos >= m.next_service_check.nanos {
                RefreshStepModel::CheckService { rebuild }
            } else {
                RefreshStepModel::Show { rebuild }
            },
        ),
        (RefreshStepModel::CheckService { rebuild }, RefreshEventModel::ServiceChecked(status)) => (
            menu::MenuModel {
                service_status: status,
                next_service_check: menu::after(now, menu::SERVICE_CHECK_SECONDS),
                ..m
            },
            RefreshStepModel::Show { rebuild: rebuild || status != m.service_status },
        ),
        _ => (m, step),
    }
}

impl MenuBarApp {
    /// Begins a refresh.
    pub fn begin_refresh(&mut self, now: Moment) -> (step: RefreshStep)
        ensures
            final(self)@ == refresh_begun(old(self)@, now),
            step@ == (RefreshStepModel::Messages { rebuild: false }),
    {
        if let Some(until) = self.config_notice_until {
            if now.nanos >= until.nanos {
                self.config_notice = None;
                self.config_notice_until = None;
            }
        }
        RefreshStep::Messages { rebuild: false }
    }

    /// The lease that keeps the controller at work.
    pub fn lease(&self) -> (r: LeaseRecord)
        ensures
            r.enabled == self@.enabled,
            r.reload_generation == self@.reload_generation,
    {
        LeaseRecord { enabled: self.enabled, reload_generation: self.reload_generation }
    }

    /// Takes the configuration as it was read, or was not.
    fn see_config(&mut self, loaded: Result<(AppConfig, String), String>)
        ensures
            final(self)@ == config_seen(
                old(self)@,
                match loaded {
                    Ok((config, path)) => Ok((config@, path@)),
                    Err(error) => Err(error@),
                },
            ),
    {
        match loaded {
            Ok((config, path)) => {
                self.config = config;
                self.config_path = path;
                if controller_config_changed(&self.config, &self.applied_config) {
                    self.config_notice = Some("configuration changed; reload required".to_owned());
                    self.config_notice_until = None;
                }
            },
            Err(error) => {
                let mut message = "configuration error: ".to_owned();
                message.append(error.as_str());
                self.config_notice = Some(message);
                self.config_notice_until = None;
            },
        }
    }

    /// Goes on with a refresh, by what came of its last step.
    pub fn refresh(&mut self, step: RefreshStep, event: RefreshEvent, now: Moment) -> (next: RefreshStep)
        requires
            menu::clock_goes_on(now),
        ensures
            (final(self)@, next@) == refreshed(old(self)@, step@, event@, now),
    {
        match (step, event) {
            (RefreshStep::Messages { rebuild }, RefreshEvent::Message(Some(status))) => {
                self.service_installing = false;
                if same_status(&status, &self.service_status) {
                    return RefreshStep::Messages { rebuild };
                }
                self.service_status = status;
                RefreshStep::Messages { rebuild: true }
            },
            (RefreshStep::Messages { rebuild }, RefreshEvent::Message(None)) => {
                if now.nanos >= self.next_lease_refresh.nanos {
                    RefreshStep::WriteLease { rebuild }
                } else {
                    RefreshStep::LoadConfig { rebuild }
                }
            },
            (RefreshStep::WriteLease { rebuild }, RefreshEvent::LeaseWritten(Ok(()))) => {
                self.next_lease_refresh = later(now, menu::HEARTBEAT_SECONDS);
                RefreshStep::LoadConfig { rebuild }
            },
            (RefreshStep::WriteLease { .. }, RefreshEvent::LeaseWritten(Err(error))) => RefreshStep::Failed(error),
            (RefreshStep::LoadConfig { rebuild }, RefreshEvent::ConfigLoaded(loaded)) => {
                let check = !self.service_installing && now.nanos >= self.next_service_check.nanos;
                self.see_config(loaded);
                if check {
                    RefreshStep::CheckService { rebuild }
                } else {
                    RefreshStep::Show { rebuild }
                }
            },
            (RefreshStep::CheckService { rebuild }, RefreshEvent::ServiceChecked(status)) => {
                let changed = !same_status(&status, &self.service_status);
                self.service_status = status;
                self.next_service_check = later(now, menu::SERVICE_CHECK_SECONDS);
                RefreshStep::Show { rebuild: rebuild || changed }
            },
            (step, _) => step,
        }
    }

    /// Sets the time of the next refresh.
    pub fn schedule_refresh(&mut self, now: Moment)
        requires
            menu::clock_goes_on(now),
        ensures
            final(self)@ == (menu::MenuModel { next_refresh: next_refresh_after(old(self)@, now), ..old(self)@ }),
    {
        let delay_remaining = self.process_wait_delay_remaining(now);
        let relevant = self.process_wait_refresh_relevant(delay_remaining);
        let interval = process_wait_refresh_interval(relevant, delay_remaining, self.config.menu_refresh_seconds);
        proof {
            menu::refresh_is_never_late(relevant, delay_remaining, self.config.menu_refresh_seconds);
        }
        self.next_refresh = now.plus(interval);
    }

    /// Whether it is time for a refresh.
    pub fn refresh_is_due(&self, now: Moment) -> (r: bool)
        ensures
            r == (now.nanos >= self@.next_refresh.nanos),
    {
        now.nanos >= self.next_refresh.nanos
    }
}

/// The time of the next refresh: while processes are waited for it comes soon,
/// and otherwise as configured, or when the delay is over where that is sooner.
pub open spec fn next_refresh_after(m: menu::MenuModel, now: Moment) -> Moment {
    let remaining = wait_delay(m, now);
    let relevant = menu::refresh_is_relevant(
        m.enabled,
        m.last_lid,
        remaining matches Some(span) && span.nanos == 0,
        m.applied_config.process_wait,
    );
    Moment {
        nanos: (now.nanos + menu::refresh_interval(relevant, remaining, m.config.menu_refresh_seconds).nanos) as u128,
    }
}

/// A refresh never touches what was last applied, nor the generation of the
/// lease: only a reload does.
pub proof fn refresh_applies_nothing(
    m: menu::MenuModel,
    step: RefreshStepModel,
    event: RefreshEventModel,
    now: Moment,
)
    ensures
        refreshed(m, step, event, now).0.applied_config == m.applied_config,
        refreshed(m, step, event, now).0.enabled == m.enabled,
        refreshed(m, step, event, now).0.reload_generation == m.reload_generation,
{
}

/// A changed state of the services has the menu built anew, and nothing makes a
/// refresh forget that.
pub proof fn changed_services_rebuild_the_menu(
    m: menu::MenuModel,
    step: RefreshStepModel,
    event: RefreshEventModel,
    now: Moment,
)
    ensures
        refreshed(m, step, event, now).0.service_status != m.service_status ==> asks_rebuild(
            refreshed(m, step, event, now).1,
        ),
        asks_rebuild(step) && !(refreshed(m, step, event, now).1 is Failed) ==> asks_rebuild(
            refreshed(m, step, event, now).1,
        ),
{
}

/// A step after which the menu is built anew.
pub open spec fn asks_rebuild(step: RefreshStepModel) -> bool {
    match step {
        RefreshStepModel::Messages { rebuild } => rebuild,
        RefreshStepModel::WriteLease { rebuild } => rebuild,
        RefreshStepModel::LoadConfig { rebuild } => rebuild,
        RefreshStepModel::CheckService { rebuild } => rebuild,
        RefreshStepModel::Show { rebuild } => rebuild,
        RefreshStepModel::Failed(_) => false,
    }
}

/// A look at the processes that failed neither starts the grace nor ends it, and
/// says nothing of how many processes there are.
pub proof fn failed_look_changes_no_grace(
    before: menu::MenuModel,
    now: Moment,
    clock: Moment,
    now_model: menu::MenuModel,
    wait: Option<status::WaitStatusModel>,
)
    requires
        scan_leads_to(before, None, now, clock, now_model, wait),
    ensures
        now_model.process_grace_started == before.process_grace_started,
        now_model.saw_process_wait_matches == before.saw_process_wait_matches,
        wait == Some(status::WaitStatusModel::Unavailable),
{
}

/// The grace starts when the processes are gone, and lasts from then on until
/// processes are found again.
pub proof fn grace_keeps_its_start(
    before: menu::MenuModel,
    table: Seq<ProcessInfo>,
    now: Moment,
    clock: Moment,
    now_model: menu::MenuModel,
    wait: Option<status::WaitStatusModel>,
)
    requires
        scan_leads_to(before, Some(table), now, clock, now_model, wait),
    ensures
        waited_for(before, table).len() > 0 ==> now_model.process_grace_started is None
            && now_model.saw_process_wait_matches,
        waited_for(before, table).len() == 0 && before.process_grace_started is Some
            ==> now_model.process_grace_started == before.process_grace_started,
        waited_for(before, table).len() == 0 && before.process_grace_started is None
            && before.saw_process_wait_matches ==> now_model.process_grace_started == Some(now),
{
}

/// A lid that is seen closed starts its time then, and not again while it stays
/// closed. A lid that is seen open ends everything that the closed one had
/// started. A lid that cannot be read ends nothing. Nothing else changes.
pub proof fn lid_starts_and_ends_its_time(m: menu::MenuModel, lid: Option<LidState>, now: Moment)
    ensures
        ({
            let seen = lid_seen(m, lid, now);
            let closed = lid == Some(LidState::Closed);
            let opened = lid == Some(LidState::Open) && m.last_lid != lid;
            &&& seen.last_lid == lid
            &&& closed && m.last_lid != lid ==> seen.lid_closed_since == Some(now)
            &&& closed && m.last_lid == lid ==> seen.lid_closed_since == m.lid_closed_since
            &&& lid is None ==> seen.lid_closed_since == m.lid_closed_since
            &&& opened ==> seen.lid_closed_since is None && !seen.saw_process_wait_matches
                && seen.process_grace_started is None && seen.process_display_state is Hidden
            &&& !opened ==> {
                &&& seen.saw_process_wait_matches == m.saw_process_wait_matches
                &&& seen.process_grace_started == m.process_grace_started
                &&& seen.process_display_state == m.process_display_state
            }
            &&& seen.config == m.config && seen.applied_config == m.applied_config && seen.enabled == m.enabled
            &&& seen.reload_generation == m.reload_generation && seen.service_status == m.service_status
            &&& seen.config_notice == m.config_notice && seen.own_pid == m.own_pid
        }),
{
    if let Some(l) = lid {
        assert(l == LidState::Open || l == LidState::Closed);
    }
}

/// The time to forced sleep is what is left of the applied delay since the lid was
/// closed; it is told only while the lid is.
pub proof fn time_to_sleep_is_counted_down(m: menu::MenuModel, lid: Option<LidState>, clock: Moment)
    ensures
        remaining_delay(m, lid, clock) is Some <==> lid == Some(LidState::Closed) && m.lid_closed_since is Some,
        lid == Some(LidState::Closed) && m.lid_closed_since is Some && (m.lid_closed_since->0).nanos <= clock.nanos ==> {
            let delay = m.applied_config.delay_seconds * 1_000_000_000;
            let passed = clock.nanos - (m.lid_closed_since->0).nanos;
            remaining_delay(m, lid, clock)->0.nanos == (if passed <= delay {
                delay - passed
            } else {
                0
            })
        },
{
    assert(m.applied_config.delay_seconds * 1_000_000_000 <= u128::MAX);
}

/// Processes are waited for only with the application on, the lid closed and the
/// waiting turned on; they are looked at once the applied delay has passed since
/// the lid was closed, and only where there is something to look for.
pub proof fn processes_are_looked_at_after_the_delay(m: menu::MenuModel, lid: Option<LidState>, clock: Moment)
    ensures
        may_wait(m, lid) <==> m.enabled && lid == Some(LidState::Closed) && m.applied_config.process_wait.enabled,
        m.lid_closed_since is None ==> !scan_is_due(m, clock),
        m.lid_closed_since is Some && (m.lid_closed_since->0).nanos <= clock.nanos ==> (scan_is_due(m, clock)
            <==> clock.nanos >= (m.lid_closed_since->0).nanos + m.applied_config.delay_seconds * 1_000_000_000
            && exists|i: int|
            0 <= i < m.applied_config.process_wait.command_substrings.len() && (
            #[trigger] m.applied_config.process_wait.command_substrings[i]).len() > 0),
{
    assert(m.applied_config.delay_seconds * 1_000_000_000 <= u128::MAX);
    system::commands_match_by_any_string(seq![], m.applied_config.process_wait.command_substrings);
}

/// Without waiting nothing is said of processes, and nothing is remembered. Before
/// the time to look at them nothing is said either, and what was seen before stays.
pub proof fn nothing_is_said_before_the_look(
    before: menu::MenuModel,
    lid: Option<LidState>,
    clock: Moment,
    now_model: menu::MenuModel,
    wait: Option<status::WaitStatusModel>,
    scanned: bool,
)
    requires
        wait_leads_to(before, lid, clock, now_model, wait, scanned),
    ensures
        !may_wait(before, lid) ==> wait is None && !now_model.saw_process_wait_matches
            && now_model.process_grace_started is None && now_model.process_display_state is Hidden,
        may_wait(before, lid) && !scan_is_due(before, clock) ==> wait is None && now_model.saw_process_wait_matches
            == before.saw_process_wait_matches && now_model.process_grace_started == before.process_grace_started,
        may_wait(before, lid) && scan_is_due(before, clock) ==> scanned,
        !may_wait(before, lid) || !scan_is_due(before, clock) ==> {
            &&& now_model.applied_config == before.applied_config
            &&& now_model.enabled == before.enabled
            &&& now_model.last_lid == before.last_lid
            &&& now_model.lid_closed_since == before.lid_closed_since
            &&& now_model.reload_generation == before.reload_generation
        },
{
}

/// A look at the processes says that they are waited for where some are found,
/// with a tree that shows them. Where none are left, and some were seen before, it
/// says what is left of the grace; otherwise it says nothing.
pub proof fn looks_say_what_they_found(
    before: menu::MenuModel,
    table: Seq<ProcessInfo>,
    now: Moment,
    clock: Moment,
    now_model: menu::MenuModel,
    wait: Option<status::WaitStatusModel>,
)
    requires
        scan_leads_to(before, Some(table), now, clock, now_model, wait),
    ensures
        ({
            let found = table.filter(
                system::wanted(before.applied_config.process_wait.command_substrings, before.own_pid),
            );
            let started = match before.process_grace_started {
                Some(started) => started,
                None => now,
            };
            let grace = before.applied_config.process_wait.exit_grace_seconds * 1_000_000_000;
            &&& found.len() > 0 ==> {
                &&& wait matches Some(status::WaitStatusModel::Waiting(tree)) && process_tree::tree_shows(
                    tree,
                    table,
                    found,
                ) && now_model.process_display_state == process_menu::DisplayModel::Waiting(tree)
                &&& now_model.saw_process_wait_matches
                &&& now_model.process_grace_started is None
            }
            &&& found.len() == 0 ==> now_model.process_display_state is Hidden
                && now_model.saw_process_wait_matches == before.saw_process_wait_matches
            &&& found.len() == 0 && !before.saw_process_wait_matches ==> wait is None
            &&& found.len() == 0 && before.saw_process_wait_matches ==> {
                &&& now_model.process_grace_started == Some(started)
                &&& wait matches Some(status::WaitStatusModel::Grace(left)) && (started.nanos <= clock.nanos
                    ==> left.nanos == (if clock.nanos - started.nanos <= grace {
                    grace - (clock.nanos - started.nanos)
                } else {
                    0
                }))
            }
            &&& now_model.applied_config == before.applied_config && now_model.enabled == before.enabled
            &&& now_model.last_lid == before.last_lid && now_model.lid_closed_since == before.lid_closed_since
            &&& now_model.reload_generation == before.reload_generation
        }),
{
    assert(before.applied_config.process_wait.exit_grace_seconds * 1_000_000_000 <= u128::MAX);
}

/// A snapshot shows what was read, and what the application knows.
pub proof fn snapshots_show_what_was_read(
    snapshot: StatusSnapshot,
    readings: Readings,
    seen: menu::MenuModel,
    clock: Moment,
)
    requires
        snapshot_shows(snapshot, readings, seen, clock),
    ensures
        snapshot.battery == readings.battery,
        snapshot.lid == readings.lid,
        snapshot.sleep_disabled == readings.sleep_disabled,
        snapshot.enabled == seen.enabled,
        snapshot.service_status@ == seen.service_status,
        snapshot.config_notice is Some == seen.config_notice is Some,
        snapshot.config_notice matches Some(notice) ==> seen.config_notice == Some(notice@),
        snapshot.remaining == remaining_delay(seen, readings.lid, clock),
{
}

/// A notice is shown until its time is over; one without a time stays.
pub proof fn notices_end_by_themselves(m: menu::MenuModel, now: Moment)
    ensures
        ({
            let begun = refresh_begun(m, now);
            let over = m.config_notice_until is Some && now.nanos >= (m.config_notice_until->0).nanos;
            &&& over ==> begun.config_notice is None && begun.config_notice_until is None
            &&& !over ==> begun.config_notice == m.config_notice && begun.config_notice_until
                == m.config_notice_until
            &&& begun.config == m.config && begun.applied_config == m.applied_config && begun.enabled == m.enabled
            &&& begun.reload_generation == m.reload_generation && begun.next_lease_refresh == m.next_lease_refresh
            &&& begun.service_status == m.service_status && begun.lid_closed_since == m.lid_closed_since
        }),
{
}

/// A refresh writes the lease exactly where it is time to, reads the configuration
/// in any case, and looks at the services where it is time to and they are not
/// being set up. A lease that cannot be written ends it.
pub proof fn refresh_takes_its_course(m: menu::MenuModel, rebuild: bool, error: Seq<char>, now: Moment)
    requires
        menu::clock_goes_on(now),
    ensures
        ({
            let quiet = refreshed(m, RefreshStepModel::Messages { rebuild }, RefreshEventModel::Message(None), now);
            let due = now.nanos >= m.next_lease_refresh.nanos;
            let step = RefreshStepModel::WriteLease { rebuild };
            let written = refreshed(m, step, RefreshEventModel::LeaseWritten(Ok(())), now);
            let unwritten = refreshed(m, step, RefreshEventModel::LeaseWritten(Err(error)), now);
            &&& quiet.0 == m
            &&& due ==> quiet.1 == (RefreshStepModel::WriteLease { rebuild })
            &&& !due ==> quiet.1 == (RefreshStepModel::LoadConfig { rebuild })
            &&& written.1 == (RefreshStepModel::LoadConfig { rebuild })
            &&& written.0.next_lease_refresh.nanos == now.nanos + 5_000_000_000
            &&& written.0 == (menu::MenuModel { next_lease_refresh: written.0.next_lease_refresh, ..m })
            &&& unwritten.1 == RefreshStepModel::Failed(error)
            &&& unwritten.0 == m
        }),
{
}

/// Word from setting the services up ends that, and is what they are from then on.
/// So is what a look at them finds, after which the next comes in fifteen seconds.
/// The menu is built anew where they are another than before.
pub proof fn services_are_followed(m: menu::MenuModel, rebuild: bool, status: service::StatusModel, now: Moment)
    requires
        menu::clock_goes_on(now),
    ensures
        ({
            let told = refreshed(
                m,
                RefreshStepModel::Messages { rebuild },
                RefreshEventModel::Message(Some(status)),
                now,
            );
            let looked = refreshed(
                m,
                RefreshStepModel::CheckService { rebuild },
                RefreshEventModel::ServiceChecked(status),
                now,
            );
            let anew = rebuild || status != m.service_status;
            &&& told.1 == (RefreshStepModel::Messages { rebuild: anew })
            &&& told.0 == (menu::MenuModel { service_installing: false, service_status: status, ..m })
            &&& looked.1 == (RefreshStepModel::Show { rebuild: anew })
            &&& looked.0.next_service_check.nanos == now.nanos + 15_000_000_000
            &&& looked.0 == (menu::MenuModel {
                service_status: status,
                next_service_check: looked.0.next_service_check,
                ..m
            })
        }),
{
}

/// A configuration that is read is taken note of, but not applied; where it
/// concerns the controller, a notice asks for a reload. One that cannot be read
/// changes nothing but the notice. Then the services are looked at, where it is
/// time to.
pub proof fn configuration_is_followed(
    m: menu::MenuModel,
    rebuild: bool,
    file: config::AppModel,
    path: Seq<char>,
    error: Seq<char>,
    now: Moment,
)
    ensures
        ({
            let step = RefreshStepModel::LoadConfig { rebuild };
            let read = refreshed(m, step, RefreshEventModel::ConfigLoaded(Ok((file, path))), now);
            let unread = refreshed(m, step, RefreshEventModel::ConfigLoaded(Err(error)), now);
            let next = if !m.service_installing && now.nanos >= m.next_service_check.nanos {
                RefreshStepModel::CheckService { rebuild }
            } else {
                RefreshStepModel::Show { rebuild }
            };
            let concerned = menu::controller_differs(file, m.applied_config);
            &&& read.1 == next && unread.1 == next
            &&& read.0.config == file && read.0.config_path == path
            &&& concerned ==> read.0.config_notice == Some("configuration changed; reload required"@)
                && read.0.config_notice_until is None
            &&& !concerned ==> read.0.config_notice == m.config_notice && read.0.config_notice_until
                == m.config_notice_until
            &&& unread.0.config == m.config && unread.0.config_path == m.config_path
            &&& unread.0.config_notice == Some("configuration error: "@ + error)
            &&& unread.0.config_notice_until is None
            &&& read.0.service_status == m.service_status && unread.0.service_status == m.service_status
            &&& read.0.next_lease_refresh == m.next_lease_refresh
        }),
{
}

/// What does not answer a step of a refresh changes nothing.
pub proof fn unasked_answers_leave_the_refresh(
    m: menu::MenuModel,
    step: RefreshStepModel,
    event: RefreshEventModel,
    now: Moment,
)
    requires
        step is Messages ==> !(event is Message),
        step is WriteLease ==> !(event is LeaseWritten),
        step is LoadConfig ==> !(event is ConfigLoaded),
        step is CheckService ==> !(event is ServiceChecked),
    ensures
        refreshed(m, step, event, now) == (m, step),
{
}

/// The next refresh comes after a second while processes are waited for, otherwise
/// as configured, or when the delay is over where that is sooner.
pub proof fn next_refresh_comes_in_time(m: menu::MenuModel, now: Moment)
    requires
        menu::clock_goes_on(now),
        m.config.menu_refresh_seconds >= 1,
        m.lid_closed_since matches Some(since) ==> since.nanos <= now.nanos,
    ensures
        ({
            let looked_for = exists|i: int|
                0 <= i < m.applied_config.process_wait.command_substrings.len() && (
                #[trigger] m.applied_config.process_wait.command_substrings[i]).len() > 0;
            let waits = m.enabled && m.last_lid == Some(LidState::Closed) && m.applied_config.process_wait.enabled
                && looked_for && m.lid_closed_since is Some;
            let delay = m.applied_config.delay_seconds * 1_000_000_000;
            let passed = now.nanos - (m.lid_closed_since->0).nanos;
            let configured = m.config.menu_refresh_seconds * 1_000_000_000;
            next_refresh_after(m, now).nanos - now.nanos == (if waits && passed >= delay {
                1_000_000_000
            } else if waits && delay - passed < configured {
                delay - passed
            } else {
                configured
            })
        }),
{
    assert(m.applied_config.delay_seconds * 1_000_000_000 <= u64::MAX * 1_000_000_000);
    assert(m.config.menu_refresh_seconds * 1_000_000_000 <= u64::MAX * 1_000_000_000);
    system::commands_match_by_any_string(seq![], m.applied_config.process_wait.command_substrings);
}

} // verus!
