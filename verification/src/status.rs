//! What the menu bar says about the state of things.
use vstd::prelude::*;
use vstd::string::StringExecFns;

use crate::config::AppConfig;
use crate::number;
use crate::number::{decimal_of, push_decimal};
use crate::process_menu;
use crate::process_menu::waiting_processes_status;
use crate::process_tree;
use crate::process_tree::ProcessTree;
use crate::service;
use crate::service::{service_status_text, ServiceStatus};
use crate::system::{BatteryState, LidState, PowerSource};
use crate::time::Span;

verus! {

/// What is known of the processes that are waited for.
#[derive(Debug, Eq, PartialEq)]
pub enum ProcessWaitStatus {
    /// They run.
    Waiting { tree: ProcessTree },
    /// They could not be looked at.
    Unavailable,
    /// They are gone; the grace lasts on.
    Grace { remaining: Span },
}

/// What a `ProcessWaitStatus` holds.
pub enum WaitStatusModel {
    Waiting(process_tree::TreeModel),
    Unavailable,
    Grace(Span),
}

impl ProcessWaitStatus {
    pub open spec fn model(self) -> WaitStatusModel {
        match self {
            ProcessWaitStatus::Waiting { tree } => WaitStatusModel::Waiting(tree.model()),
            ProcessWaitStatus::Unavailable => WaitStatusModel::Unavailable,
            ProcessWaitStatus::Grace { remaining } => WaitStatusModel::Grace(remaining),
        }
    }
}

/// The color of the dot in the menu bar.
#[derive(Clone, Copy, Debug, Eq, PartialEq, Structural)]
pub enum MarkerMode {
    Ready,
    Timer,
    ProcessWait,
    Error,
    Unknown,
}

/// The state of things at a moment.
#[derive(Debug)]
pub struct StatusSnapshot {
    pub battery: Option<BatteryState>,
    pub lid: Option<LidState>,
    pub sleep_disabled: Option<bool>,
    pub remaining: Option<Span>,
    pub process_wait: Option<ProcessWaitStatus>,
    pub enabled: bool,
    pub service_status: ServiceStatus,
    pub config_notice: Option<String>,
}

/// A charge, where it is known.
pub open spec fn percent_text(percent: Option<u8>) -> Seq<char> {
    match percent {
        Some(n) => number::decimal(n as nat),
        None => "--"@,
    }
}

fn percent_string(percent: Option<u8>) -> (s: String)
    ensures
        s@ == percent_text(percent),
{
    match percent {
        Some(n) => decimal_of(n as u128),
        None => "--".to_owned(),
    }
}

pub open spec fn source_text(source: PowerSource) -> Seq<char> {
    match source {
        PowerSource::Battery => "battery"@,
        PowerSource::AC => "AC"@,
        PowerSource::Unknown => "power unknown"@,
    }
}

/// The words for the battery.
pub open spec fn battery_text(battery: Option<BatteryState>) -> Seq<char> {
    match battery {
        Some(state) => percent_text(state.percent) + " on "@ + source_text(state.source) + (if state.charging {
            ", charging"@
        } else {
            ""@
        }),
        None => "battery unknown"@,
    }
}

/// The words for the closed lid.
pub open spec fn closed_text(wait: Option<ProcessWaitStatus>, remaining: Option<Span>, delay_seconds: u64) -> Seq<char> {
    match wait {
        Some(ProcessWaitStatus::Waiting { tree }) => "lid closed, "@ + process_menu::waiting_text(
            tree.match_count as nat,
        ),
        Some(ProcessWaitStatus::Unavailable) => "lid closed, process status unavailable"@,
        Some(ProcessWaitStatus::Grace { remaining }) => "lid closed, process grace "@ + number::decimal(
            remaining.secs(),
        ) + "s"@,
        None => "lid closed, sleep in "@ + number::decimal(
            match remaining {
                Some(span) => span.secs(),
                None => delay_seconds as nat,
            },
        ) + "s"@,
    }
}

/// The words for the lid.
pub open spec fn lid_text(snapshot: StatusSnapshot, delay_seconds: u64) -> Seq<char> {
    if !snapshot.enabled {
        "No Sleep Till Done disabled"@
    } else {
        match snapshot.lid {
            Some(LidState::Open) => "lid open"@,
            Some(LidState::Closed) => closed_text(snapshot.process_wait, snapshot.remaining, delay_seconds),
            None => "lid unknown"@,
        }
    }
}

/// The words for the sleep override.
pub open spec fn sleep_text(enabled: bool, sleep_disabled: Option<bool>) -> Seq<char> {
    match (enabled, sleep_disabled) {
        (_, None) => "sleep override unknown"@,
        (false, Some(false)) => "normal sleep restored"@,
        (false, Some(true)) => "disabling sleep override"@,
        (true, Some(true)) => "sleep override on"@,
        (true, Some(false)) => "sleep override off"@,
    }
}

/// The line of the menu on the state of things.
pub open spec fn menu_text(snapshot: StatusSnapshot, delay_seconds: u64) -> Seq<char> {
    let base = battery_text(snapshot.battery) + "; "@ + lid_text(snapshot, delay_seconds) + "; "@ + sleep_text(
        snapshot.enabled,
        snapshot.sleep_disabled,
    ) + "; "@ + service::status_text(snapshot.service_status@);
    match snapshot.config_notice {
        Some(notice) => base + "; "@ + notice@,
        None => base,
    }
}

fn push_battery(s: &mut String, battery: &Option<BatteryState>)
    ensures
        final(s)@ == old(s)@ + battery_text(*battery),
{
    let ghost start = s@;
    match battery {
        Some(state) => {
            let percent = percent_string(state.percent);
            s.append(percent.as_str());
            s.append(" on ");
            s.append(
                match state.source {
                    PowerSource::Battery => "battery",
                    PowerSource::AC => "AC",
                    PowerSource::Unknown => "power unknown",
                },
            );
            s.append(
                if state.charging {
                    ", charging"
                } else {
                    ""
                },
            );
        },
        None => {
            s.append("battery unknown");
        },
    }
    assert(s@ =~= start + battery_text(*battery));
}

fn push_closed(s: &mut String, wait: &Option<ProcessWaitStatus>, remaining: Option<Span>, delay_seconds: u64)
    ensures
        final(s)@ == old(s)@ + closed_text(*wait, remaining, delay_seconds),
{
    let ghost start = s@;
    match wait {
        Some(ProcessWaitStatus::Waiting { tree }) => {
            s.append("lid closed, ");
            let waiting = waiting_processes_status(tree.match_count);
            s.append(waiting.as_str());
        },
        Some(ProcessWaitStatus::Unavailable) => {
            s.append("lid closed, process status unavailable");
        },
        Some(ProcessWaitStatus::Grace { remaining }) => {
            s.append("lid closed, process grace ");
            push_decimal(s, remaining.as_secs());
            s.append("s");
        },
        None => {
            s.append("lid closed, sleep in ");
            match remaining {
                Some(span) => push_decimal(s, span.as_secs()),
                None => push_decimal(s, delay_seconds as u128),
            }
            s.append("s");
        },
    }
    assert(s@ =~= start + closed_text(*wait, remaining, delay_seconds));
}

impl StatusSnapshot {
    /// The charge of the battery, where it is known.
    pub open spec fn percent(self) -> Option<u8> {
        match self.battery {
            Some(state) => state.percent,
            None => None,
        }
    }

    /// The charge as it stands in the menu bar.
    pub fn battery_percent_text(&self) -> (s: String)
        ensures
            s@ == percent_text(self.percent()),
    {
        match &self.battery {
            Some(state) => percent_string(state.percent),
            None => "--".to_owned(),
        }
    }

    fn push_lid(&self, s: &mut String, delay_seconds: u64)
        ensures
            final(s)@ == old(s)@ + lid_text(*self, delay_seconds),
    {
        if !self.enabled {
            s.append("No Sleep Till Done disabled");
            return;
        }
        match self.lid {
            Some(LidState::Open) => s.append("lid open"),
            Some(LidState::Closed) => push_closed(s, &self.process_wait, self.remaining, delay_seconds),
            None => s.append("lid unknown"),
        }
    }

    /// The line of the menu on the state of things.
    pub fn menu_status_text(&self, config: &AppConfig) -> (s: String)
        ensures
            s@ == menu_text(*self, config.delay_seconds),
    {
        let mut s = String::new();
        push_battery(&mut s, &self.battery);
        s.append("; ");
        self.push_lid(&mut s, config.delay_seconds);
        s.append("; ");
        s.append(
            match (self.enabled, self.sleep_disabled) {
                (false, Some(false)) => "normal sleep restored",
                (false, Some(true)) => "disabling sleep override",
                (false, None) => "sleep override unknown",
                (true, Some(true)) => "sleep override on",
                (true, Some(false)) => "sleep override off",
                (true, None) => "sleep override unknown",
            },
        );
        s.append("; ");
        let service = self.service_status_text();
        s.append(service.as_str());
        if let Some(notice) = &self.config_notice {
            s.append("; ");
            s.append(notice.as_str());
        }
        assert(s@ =~= menu_text(*self, config.delay_seconds));
        s
    }

    /// The words for the state of the services.
    pub fn service_status_text(&self) -> (s: String)
        ensures
            s@ == service::status_text(self.service_status@),
    {
        service_status_text(&self.service_status)
    }

    /// What the menu bar says when it is pointed at.
    pub fn tooltip_text(&self, config: &AppConfig, config_path: &str) -> (s: String)
        ensures
            s@ == menu_text(*self, config.delay_seconds) + "\nConfig: "@ + config_path@,
    {
        let mut s = self.menu_status_text(config);
        s.append("\nConfig: ");
        s.append(config_path);
        s
    }

    /// The color of the dot.
    pub open spec fn marker(self) -> MarkerMode {
        if !self.enabled {
            MarkerMode::Unknown
        } else if self.sleep_disabled == Some(false) {
            MarkerMode::Error
        } else if self.lid == Some(LidState::Closed) {
            if self.process_wait is Some {
                MarkerMode::ProcessWait
            } else {
                MarkerMode::Timer
            }
        } else if self.lid == Some(LidState::Open) && self.sleep_disabled == Some(true) {
            MarkerMode::Ready
        } else {
            MarkerMode::Unknown
        }
    }

    pub fn marker_mode(&self) -> (r: MarkerMode)
        ensures
            r == self.marker(),
    {
        if !self.enabled {
            return MarkerMode::Unknown;
        }
        match (self.lid, self.sleep_disabled) {
            (_, Some(false)) => MarkerMode::Error,
            (Some(LidState::Closed), _) => {
                if self.process_wait.is_some() {
                    MarkerMode::ProcessWait
                } else {
                    MarkerMode::Timer
                }
            },
            (Some(LidState::Open), Some(true)) => MarkerMode::Ready,
            _ => MarkerMode::Unknown,
        }
    }
}

/// The dot means what its colors stand for. Turned off, it is gray. Turned on, it
/// is red where the override is known to be off; otherwise, with the lid closed,
/// blue where processes are waited for in whatever way, and amber where not; with
/// the lid open, green where the override is known to be on; and gray where
/// neither is known.
pub proof fn dot_means_its_color(s: StatusSnapshot)
    ensures
        s.marker() == MarkerMode::Error <==> s.enabled && s.sleep_disabled == Some(false),
        s.marker() == MarkerMode::ProcessWait <==> s.enabled && s.sleep_disabled != Some(false) && s.lid == Some(
            LidState::Closed,
        ) && s.process_wait is Some,
        s.marker() == MarkerMode::Timer <==> s.enabled && s.sleep_disabled != Some(false) && s.lid == Some(
            LidState::Closed,
        ) && s.process_wait is None,
        s.marker() == MarkerMode::Ready <==> s.enabled && s.sleep_disabled == Some(true) && s.lid == Some(
            LidState::Open,
        ),
        s.marker() == MarkerMode::Unknown <==> !s.enabled || (s.sleep_disabled != Some(false) && (s.lid is None || (
        s.lid == Some(LidState::Open) && s.sleep_disabled is None))),
{
    if let Some(lid) = s.lid {
        assert(lid == LidState::Open || lid == LidState::Closed);
    }
    if let Some(off) = s.sleep_disabled {
        assert(off || !off);
    }
}

/// The dot follows the switch, the lid, the override and whether processes are
/// waited for, and nothing else.
pub proof fn dot_follows_nothing_else(s: StatusSnapshot, t: StatusSnapshot)
    requires
        s.enabled == t.enabled,
        s.lid == t.lid,
        s.sleep_disabled == t.sleep_disabled,
        s.process_wait is Some == t.process_wait is Some,
    ensures
        s.marker() == t.marker(),
{
}

/// The words for the battery say the charge, where the power comes from, and
/// whether the battery is charging.
pub proof fn battery_is_described(state: BatteryState, n: u8)
    ensures
        ({
            let charge = match state.percent {
                Some(percent) => number::decimal(percent as nat),
                None => "--"@,
            };
            let start = charge + " on "@;
            &&& state.source == PowerSource::Battery && !state.charging ==> battery_text(Some(state)) == start
                + "battery"@
            &&& state.source == PowerSource::AC && !state.charging ==> battery_text(Some(state)) == start + "AC"@
            &&& state.source == PowerSource::Unknown && !state.charging ==> battery_text(Some(state)) == start
                + "power unknown"@
            &&& state.charging ==> battery_text(Some(state)) == battery_text(
                Some(BatteryState { charging: false, ..state }),
            ) + ", charging"@
            &&& battery_text(None) == "battery unknown"@
            &&& percent_text(Some(n)) == number::decimal(n as nat)
            &&& percent_text(None) == "--"@
        }),
{
    reveal_strlit("");
    assert(battery_text(Some(BatteryState { charging: false, ..state })) =~= percent_text(state.percent) + " on "@
        + source_text(state.source));
    if !state.charging {
        assert(battery_text(Some(state)) =~= percent_text(state.percent) + " on "@ + source_text(state.source));
    }
    if state.charging {
        assert(battery_text(Some(state)) =~= battery_text(Some(BatteryState { charging: false, ..state }))
            + ", charging"@);
    }
}

/// The words for the lid say that the application is off, or else whether the lid
/// is open, and where it is closed what holds the machine awake and for how long.
pub proof fn lid_is_described(s: StatusSnapshot, delay_seconds: u64)
    ensures
        !s.enabled ==> lid_text(s, delay_seconds) == "No Sleep Till Done disabled"@,
        s.enabled && s.lid == Some(LidState::Open) ==> lid_text(s, delay_seconds) == "lid open"@,
        s.enabled && s.lid is None ==> lid_text(s, delay_seconds) == "lid unknown"@,
        s.enabled && s.lid == Some(LidState::Closed) ==> {
            &&& s.process_wait matches Some(ProcessWaitStatus::Waiting { tree }) ==> lid_text(s, delay_seconds)
                == "lid closed, "@ + (if tree.match_count == 1 {
                "waiting for 1 process"@
            } else {
                "waiting for "@ + number::decimal(tree.match_count as nat) + " processes"@
            })
            &&& s.process_wait matches Some(ProcessWaitStatus::Unavailable) ==> lid_text(s, delay_seconds)
                == "lid closed, process status unavailable"@
            &&& s.process_wait matches Some(ProcessWaitStatus::Grace { remaining }) ==> lid_text(s, delay_seconds)
                == "lid closed, process grace "@ + number::decimal((remaining.nanos / 1_000_000_000) as nat) + "s"@
            &&& s.process_wait is None && s.remaining is Some ==> lid_text(s, delay_seconds)
                == "lid closed, sleep in "@ + number::decimal(((s.remaining->0).nanos / 1_000_000_000) as nat) + "s"@
            &&& s.process_wait is None && s.remaining is None ==> lid_text(s, delay_seconds)
                == "lid closed, sleep in "@ + number::decimal(delay_seconds as nat) + "s"@
        },
{
}

/// The words for the override say what it is; turned off, the application says
/// that it is gone, or on its way to be.
pub proof fn override_is_described(enabled: bool)
    ensures
        sleep_text(enabled, None) == "sleep override unknown"@,
        sleep_text(true, Some(true)) == "sleep override on"@,
        sleep_text(true, Some(false)) == "sleep override off"@,
        sleep_text(false, Some(true)) == "disabling sleep override"@,
        sleep_text(false, Some(false)) == "normal sleep restored"@,
{
}

/// The line of the menu says one after the other what is to be said of the
/// battery, the lid, the override and the services; a notice comes last, and
/// changes nothing of the rest.
pub proof fn line_says_everything(s: StatusSnapshot, plain: StatusSnapshot, notice: String, delay_seconds: u64)
    requires
        plain == (StatusSnapshot { config_notice: None, ..s }),
    ensures
        menu_text(plain, delay_seconds) == battery_text(s.battery) + "; "@ + lid_text(plain, delay_seconds) + "; "@
            + sleep_text(s.enabled, s.sleep_disabled) + "; "@ + service::status_text(s.service_status@),
        menu_text(StatusSnapshot { config_notice: Some(notice), ..s }, delay_seconds) == menu_text(plain, delay_seconds)
            + "; "@ + notice@,
        lid_text(plain, delay_seconds) == lid_text(s, delay_seconds),
{
}

/// The charge in the menu bar is the battery's, where that is known.
pub proof fn charge_is_that_of_the_battery(s: StatusSnapshot)
    ensures
        s.battery is None ==> s.percent() is None,
        s.battery matches Some(state) ==> s.percent() == state.percent,
{
}

} // verus!
