//! What the controller says of its work.
use vstd::prelude::*;
use vstd::string::StringExecFns;

use crate::controller;
use crate::controller::{log_process_matches, ClosedSleepState, ClosedStep, Controller, Event, Phase};
use crate::controller_config;
use crate::controller_config::{AppError, Config};
use crate::lease::LeaseRecord;
use crate::number;
use crate::number::push_decimal;
use crate::system;
use crate::system::{LidState, ProcessMatch, SystemError};
use crate::text;
use crate::text::bool_word;
use crate::time::Moment;

verus! {

pub const SHUTTING_DOWN: &'static str = "shutting down";

pub const OVERRIDE_KEPT: &'static str = "leaving battery SleepDisabled enabled because --keep-disabled-on-exit was set";

/// The notes on a look at the processes: what follows on it, and the processes
/// that were found. While processes are waited for, the same number of them as
/// before is not worth a note.
pub open spec fn noted(state: ClosedSleepState, found: Seq<(u32, Seq<char>)>) -> Seq<Seq<char>> {
    let count = "("@ + number::decimal(found.len()) + ")"@;
    let first = if found.len() == 0 {
        match state {
            ClosedSleepState::Delay(_) => "delay elapsed; no matching processes; forcing system sleep"@,
            ClosedSleepState::WaitingForProcesses { .. } => {
                "matching processes exited; starting process exit grace timer"@
            },
            ClosedSleepState::ProcessExitGrace(_) => "process exit grace elapsed; forcing system sleep"@,
        }
    } else {
        match state {
            ClosedSleepState::Delay(_) => "delay elapsed; waiting for matching processes "@ + count,
            ClosedSleepState::WaitingForProcesses { .. } => "still waiting for matching processes "@ + count,
            ClosedSleepState::ProcessExitGrace(_) => {
                "matching processes restarted during grace; waiting again "@ + count
            },
        }
    };
    if found.len() > 0 && state == (ClosedSleepState::WaitingForProcesses { last_count: found.len() as usize }) {
        seq![]
    } else {
        seq![first] + controller::match_lines(found)
    }
}

fn counted(start: &str, count: usize) -> (r: String)
    ensures
        r@ == start@ + ("("@ + number::decimal(count as nat) + ")"@),
{
    let mut r = start.to_owned();
    r.append("(");
    push_decimal(&mut r, count as u128);
    r.append(")");
    assert(r@ =~= start@ + ("("@ + number::decimal(count as nat) + ")"@));
    r
}

/// The notes on a look at the processes.
pub fn scan_notes(state: ClosedSleepState, matches: &Vec<ProcessMatch>) -> (lines: Vec<String>)
    ensures
        system::string_views(lines@) == noted(state, system::match_views(matches@)),
{
    let ghost found = system::match_views(matches@);
    let count: usize = matches.len();
    assert(found.len() == count);
    let first = if count == 0 {
        match state {
            ClosedSleepState::Delay(_) => "delay elapsed; no matching processes; forcing system sleep".to_owned(),
            ClosedSleepState::WaitingForProcesses { .. } => {
                "matching processes exited; starting process exit grace timer".to_owned()
            },
            ClosedSleepState::ProcessExitGrace(_) => "process exit grace elapsed; forcing system sleep".to_owned(),
        }
    } else {
        match state {
            ClosedSleepState::Delay(_) => counted("delay elapsed; waiting for matching processes ", count),
            ClosedSleepState::WaitingForProcesses { last_count } => {
                if last_count == count {
                    let none: Vec<String> = Vec::new();
                    assert(system::string_views(none@) =~= seq![]);
                    return none;
                }
                counted("still waiting for matching processes ", count)
            },
            ClosedSleepState::ProcessExitGrace(_) => {
                counted("matching processes restarted during grace; waiting again ", count)
            },
        }
    };
    let ghost head = first@;
    let mut named = log_process_matches(matches);
    let ghost rest = named@;
    let mut lines: Vec<String> = Vec::new();
    lines.push(first);
    lines.append(&mut named);
    assert(system::string_views(lines@) =~= seq![head] + system::string_views(rest));
    lines
}

/// Processes of which a look was told are not told of again while their number
/// stays the same.
pub proof fn same_number_is_noted_once(
    state: ClosedSleepState,
    found: Seq<(u32, Seq<char>)>,
    again: Seq<(u32, Seq<char>)>,
    now: Moment,
)
    requires
        0 < found.len() <= usize::MAX,
        again.len() == found.len(),
    ensures
        controller::scanned_step(state, Some(found.len() as usize), now) matches ClosedStep::Stay(next) && noted(
            next,
            again,
        ) == Seq::<Seq<char>>::empty(),
{
}

/// The notes on what came of what the controller wanted.
pub open spec fn event_noted(phase: Phase, event: Event) -> Seq<Seq<char>> {
    match (phase, event) {
        (Phase::RoundStart, Event::ShutdownChecked(true)) => seq![SHUTTING_DOWN@],
        (Phase::Reloading { .. }, Event::ConfigLoaded(Err(error))) => seq![
            "reload rejected; keeping previous configuration: "@ + error.text(),
        ],
        (Phase::ReadingLid, Event::LidRead(Err(error))) => seq!["failed to read lid state: "@ + error.text()],
        (Phase::Darkening, Event::CommandDone(Err(error))) => seq!["failed to sleep display: "@ + error.text()],
        (Phase::Lighting, Event::CommandDone(Err(error))) => seq!["failed to wake display: "@ + error.text()],
        (Phase::Leaving(_), Event::CommandDone(Err(error))) => seq![
            "failed to restore SleepDisabled state: "@ + error.text(),
        ],
        (Phase::Scanning(_), Event::ProcessesFound(Err(error))) => seq![
            "failed to inspect processes: "@ + error.text(),
        ],
        (Phase::Scanning(state), Event::ProcessesFound(Ok(matches))) => noted(
            state,
            system::match_views(matches@),
        ),
        _ => seq![],
    }
}

fn one(line: String) -> (lines: Vec<String>)
    ensures
        system::string_views(lines@) == seq![line@],
{
    let mut lines: Vec<String> = Vec::new();
    lines.push(line);
    assert(system::string_views(lines@) =~= seq![line@]);
    lines
}

fn reason(start: &str, message: String) -> (lines: Vec<String>)
    ensures
        system::string_views(lines@) == seq![start@ + message@],
{
    let mut line = start.to_owned();
    line.append(message.as_str());
    one(line)
}

/// The notes on what came of what the controller wanted, before it goes on.
pub fn event_notes(controller: &Controller, event: &Event) -> (lines: Vec<String>)
    ensures
        system::string_views(lines@) == event_noted(controller.phase, *event),
{
    match (&controller.phase, event) {
        (Phase::RoundStart, Event::ShutdownChecked(true)) => one(SHUTTING_DOWN.to_owned()),
        (Phase::Reloading { .. }, Event::ConfigLoaded(Err(error))) => reason(
            "reload rejected; keeping previous configuration: ",
            error.message(),
        ),
        (Phase::ReadingLid, Event::LidRead(Err(error))) => reason("failed to read lid state: ", error.message()),
        (Phase::Darkening, Event::CommandDone(Err(error))) => reason("failed to sleep display: ", error.message()),
        (Phase::Lighting, Event::CommandDone(Err(error))) => reason("failed to wake display: ", error.message()),
        (Phase::Leaving(_), Event::CommandDone(Err(error))) => reason(
            "failed to restore SleepDisabled state: ",
            error.message(),
        ),
        (Phase::Scanning(_), Event::ProcessesFound(Err(error))) => reason(
            "failed to inspect processes: ",
            error.message(),
        ),
        (Phase::Scanning(state), Event::ProcessesFound(Ok(matches))) => scan_notes(*state, matches),
        _ => {
            let none: Vec<String> = Vec::new();
            assert(system::string_views(none@) =~= seq![]);
            none
        },
    }
}

/// What the controller was like before it went on.
#[derive(Clone, Copy, Debug, Eq, PartialEq, Structural)]
pub struct Seen {
    pub active: bool,
    pub lid_closed: bool,
    pub scanning: bool,
    /// Whether the configuration was just read again.
    pub reloaded: bool,
}

/// What the controller is like before it goes on with an event.
pub open spec fn seen_of(controller: Controller, event: Event) -> Seen {
    Seen {
        active: controller.runtime.active,
        lid_closed: controller.runtime.lid == LidState::Closed,
        scanning: controller.phase is Scanning,
        reloaded: controller.phase is Reloading && event matches Event::ConfigLoaded(Ok(_)),
    }
}

pub fn seen(controller: &Controller, event: &Event) -> (r: Seen)
    ensures
        r == seen_of(*controller, *event),
{
    let scanning = match &controller.phase {
        Phase::Scanning(_) => true,
        _ => false,
    };
    let reloaded = match (&controller.phase, event) {
        (Phase::Reloading { .. }, Event::ConfigLoaded(Ok(_))) => true,
        _ => false,
    };
    Seen {
        active: controller.runtime.active,
        lid_closed: controller.runtime.lid == LidState::Closed,
        scanning,
        reloaded,
    }
}

pub open spec fn lid_name(lid: LidState) -> Seq<char> {
    match lid {
        LidState::Open => "Open"@,
        LidState::Closed => "Closed"@,
    }
}

/// The note on what the controller starts with.
pub open spec fn start_line(config: controller_config::ConfigModel, lid: LidState) -> Seq<char> {
    "starting; enabled="@ + text::bool_text(config.enabled) + "; lid="@ + lid_name(lid) + "; delay="@
        + number::decimal(config.delay.secs()) + "s; poll="@ + number::decimal(config.poll.secs()) + "s; dry_run="@
        + text::bool_text(config.dry_run)
}

/// The note on what the controller starts with.
pub fn start_note(config: &Config, lid: LidState) -> (r: String)
    ensures
        r@ == start_line(config@, lid),
{
    let mut r = "starting; enabled=".to_owned();
    r.append(bool_word(config.enabled));
    r.append("; lid=");
    match lid {
        LidState::Open => r.append("Open"),
        LidState::Closed => r.append("Closed"),
    }
    r.append("; delay=");
    push_decimal(&mut r, config.delay.as_secs());
    r.append("s; poll=");
    push_decimal(&mut r, config.poll.as_secs());
    r.append("s; dry_run=");
    r.append(bool_word(config.dry_run));
    assert(r@ =~= start_line(config@, lid));
    r
}

/// The note on settings that were read again.
pub open spec fn reload_line(config: controller_config::ConfigModel) -> Seq<char> {
    "configuration reloaded; enabled="@ + text::bool_text(config.enabled) + "; delay="@ + number::decimal(
        config.delay.secs(),
    ) + "s; poll="@ + number::decimal(config.poll.secs()) + "s; process_wait="@ + text::bool_text(
        config.process_wait.active(),
    ) + "; exit_grace="@ + number::decimal(config.process_wait.exit_grace.secs()) + "s"@
}

fn reload_note(config: &Config) -> (r: String)
    ensures
        r@ == reload_line(config@),
{
    let mut r = "configuration reloaded; enabled=".to_owned();
    r.append(bool_word(config.enabled));
    r.append("; delay=");
    push_decimal(&mut r, config.delay.as_secs());
    r.append("s; poll=");
    push_decimal(&mut r, config.poll.as_secs());
    r.append("s; process_wait=");
    r.append(bool_word(config.process_wait.is_active()));
    r.append("; exit_grace=");
    push_decimal(&mut r, config.process_wait.exit_grace.as_secs());
    r.append("s");
    assert(r@ =~= reload_line(config@));
    r
}

/// The notes on settings that were read again.
pub open spec fn reload_noted(seen: Seen, after: controller::ControllerModel) -> Seq<Seq<char>> {
    if !seen.reloaded {
        seq![]
    } else if seen.active && seen.lid_closed {
        seq![
            reload_line(after.config),
            "configuration changed while lid closed; restarting delay timer"@,
        ]
    } else {
        seq![reload_line(after.config)]
    }
}

/// The notes on control that was taken or given up.
pub open spec fn control_noted(seen: Seen, after: controller::ControllerModel) -> Seq<Seq<char>> {
    if after.runtime.active == seen.active {
        seq![]
    } else if after.runtime.active {
        seq!["app lease active; enabling delayed lid-close control"@]
    } else if after.config.keep_disabled_on_exit {
        seq!["app lease inactive; restoring normal lid-close sleep"@, OVERRIDE_KEPT@]
    } else {
        seq!["app lease inactive; restoring normal lid-close sleep"@]
    }
}

/// The note on what the controller is about to do.
pub open spec fn phase_noted(seen: Seen, after: controller::ControllerModel) -> Seq<Seq<char>> {
    match after.phase {
        Phase::Darkening => seq!["lid closed; sleeping display and starting delay timer"@],
        Phase::Lighting => seq!["lid opened; canceling delay timer and process wait state"@],
        Phase::AllowingSleep => if seen.scanning {
            seq![]
        } else {
            seq!["delay elapsed while lid remained closed; forcing system sleep"@]
        },
        Phase::Finished(_) => if after.config.keep_disabled_on_exit {
            seq![OVERRIDE_KEPT@]
        } else {
            seq![]
        },
        _ => seq![],
    }
}

/// The notes on what became of the controller by an event.
pub fn change_notes(seen: Seen, after: &Controller) -> (lines: Vec<String>)
    ensures
        system::string_views(lines@) == reload_noted(seen, after@) + control_noted(seen, after@) + phase_noted(
            seen,
            after@,
        ),
{
    let mut lines: Vec<String> = Vec::new();
    if seen.reloaded {
        lines.push(reload_note(&after.config));
        if seen.active && seen.lid_closed {
            lines.push("configuration changed while lid closed; restarting delay timer".to_owned());
        }
    }
    assert(system::string_views(lines@) =~= reload_noted(seen, after@));
    if after.runtime.active != seen.active {
        if after.runtime.active {
            lines.push("app lease active; enabling delayed lid-close control".to_owned());
        } else {
            lines.push("app lease inactive; restoring normal lid-close sleep".to_owned());
            if after.config.keep_disabled_on_exit {
                lines.push(OVERRIDE_KEPT.to_owned());
            }
        }
    }
    assert(system::string_views(lines@) =~= reload_noted(seen, after@) + control_noted(seen, after@));
    match &after.phase {
        Phase::Darkening => lines.push("lid closed; sleeping display and starting delay timer".to_owned()),
        Phase::Lighting => lines.push("lid opened; canceling delay timer and process wait state".to_owned()),
        Phase::AllowingSleep => {
            if !seen.scanning {
                lines.push("delay elapsed while lid remained closed; forcing system sleep".to_owned());
            }
        },
        Phase::Finished(_) => {
            if after.config.keep_disabled_on_exit {
                lines.push(OVERRIDE_KEPT.to_owned());
            }
        },
        _ => {},
    }
    assert(system::string_views(lines@) =~= reload_noted(seen, after@) + control_noted(seen, after@) + phase_noted(
        seen,
        after@,
    ));
    lines
}

/// A look that found nothing has one note, on what follows in the state it was
/// made in; one that found processes names them behind its note.
pub proof fn looks_are_noted_by_their_state(at: Moment, last_count: usize, found: Seq<(u32, Seq<char>)>)
    ensures
        ({
            let none = Seq::<(u32, Seq<char>)>::empty();
            let count = "("@ + number::decimal(found.len()) + ")"@;
            let waiting = ClosedSleepState::WaitingForProcesses { last_count };
            &&& noted(ClosedSleepState::Delay(at), none) == seq![
                "delay elapsed; no matching processes; forcing system sleep"@,
            ]
            &&& noted(waiting, none) == seq!["matching processes exited; starting process exit grace timer"@]
            &&& noted(ClosedSleepState::ProcessExitGrace(at), none) == seq![
                "process exit grace elapsed; forcing system sleep"@,
            ]
            &&& found.len() > 0 ==> {
                &&& noted(ClosedSleepState::Delay(at), found) == seq![
                    "delay elapsed; waiting for matching processes "@ + count,
                ] + controller::match_lines(found)
                &&& noted(ClosedSleepState::ProcessExitGrace(at), found) == seq![
                    "matching processes restarted during grace; waiting again "@ + count,
                ] + controller::match_lines(found)
                &&& last_count != found.len() ==> noted(waiting, found) == seq![
                    "still waiting for matching processes "@ + count,
                ] + controller::match_lines(found) || found.len() > usize::MAX
            }
        }),
{
    let none = Seq::<(u32, Seq<char>)>::empty();
    assert(controller::match_lines(none) =~= seq![]);
    assert(noted(ClosedSleepState::Delay(at), none) =~= seq![
        "delay elapsed; no matching processes; forcing system sleep"@,
    ]);
    assert(noted(ClosedSleepState::WaitingForProcesses { last_count }, none) =~= seq![
        "matching processes exited; starting process exit grace timer"@,
    ]);
    assert(noted(ClosedSleepState::ProcessExitGrace(at), none) =~= seq![
        "process exit grace elapsed; forcing system sleep"@,
    ]);
}

/// What fails and is not fatal is noted with its reason, and so is what ends the
/// controller; everything else that came is noted when its effect shows.
pub proof fn failures_are_noted(
    state: ClosedSleepState,
    error: AppError,
    unseen: SystemError,
    reset: bool,
    lease: LeaseRecord,
    result: Result<(), AppError>,
)
    ensures
        event_noted(Phase::RoundStart, Event::ShutdownChecked(true)) == seq!["shutting down"@],
        event_noted(Phase::RoundStart, Event::ShutdownChecked(false)).len() == 0,
        event_noted(Phase::Reloading { reset, lease }, Event::ConfigLoaded(Err(error))) == seq![
            "reload rejected; keeping previous configuration: "@ + error.text(),
        ],
        event_noted(Phase::ReadingLid, Event::LidRead(Err(error))) == seq!["failed to read lid state: "@ + error.text()],
        event_noted(Phase::Darkening, Event::CommandDone(Err(error))) == seq![
            "failed to sleep display: "@ + error.text(),
        ],
        event_noted(Phase::Lighting, Event::CommandDone(Err(error))) == seq!["failed to wake display: "@ + error.text()],
        event_noted(Phase::Leaving(result), Event::CommandDone(Err(error))) == seq![
            "failed to restore SleepDisabled state: "@ + error.text(),
        ],
        event_noted(Phase::Scanning(state), Event::ProcessesFound(Err(unseen))) == seq![
            "failed to inspect processes: "@ + unseen.text(),
        ],
{
}

/// What became of the controller is noted: settings that were read again, and that
/// the delay starts anew; control that began or ended, and an override that stays;
/// a lid that was closed or opened; and a sleep that is forced without a look at
/// processes.
pub proof fn changes_are_noted(seen: Seen, after: controller::ControllerModel)
    ensures
        !seen.reloaded ==> reload_noted(seen, after).len() == 0,
        seen.reloaded ==> reload_noted(seen, after)[0] == reload_line(after.config) && (reload_noted(seen, after).len()
            == 2 <==> seen.active && seen.lid_closed),
        after.runtime.active == seen.active ==> control_noted(seen, after).len() == 0,
        after.runtime.active && !seen.active ==> control_noted(seen, after) == seq![
            "app lease active; enabling delayed lid-close control"@,
        ],
        !after.runtime.active && seen.active ==> control_noted(seen, after)[0]
            == "app lease inactive; restoring normal lid-close sleep"@ && (control_noted(seen, after).len() == 2
            <==> after.config.keep_disabled_on_exit),
        after.phase is Darkening ==> phase_noted(seen, after) == seq![
            "lid closed; sleeping display and starting delay timer"@,
        ],
        after.phase is Lighting ==> phase_noted(seen, after) == seq![
            "lid opened; canceling delay timer and process wait state"@,
        ],
        after.phase is AllowingSleep && !seen.scanning ==> phase_noted(seen, after) == seq![
            "delay elapsed while lid remained closed; forcing system sleep"@,
        ],
        after.phase is AllowingSleep && seen.scanning ==> phase_noted(seen, after).len() == 0,
{
}

/// The first note says whether the controller is enabled, how the lid is, how long
/// it waits and how often it looks, in seconds, and whether it only might run
/// commands.
pub proof fn start_is_noted(config: controller_config::ConfigModel)
    ensures
        start_line(config, LidState::Open) == "starting; enabled="@ + text::bool_text(config.enabled) + "; lid="@
            + "Open"@ + "; delay="@ + number::decimal(config.delay.secs()) + "s; poll="@
            + number::decimal(config.poll.secs()) + "s; dry_run="@ + text::bool_text(config.dry_run),
        start_line(config, LidState::Closed) == "starting; enabled="@ + text::bool_text(config.enabled) + "; lid="@
            + "Closed"@ + "; delay="@ + number::decimal(config.delay.secs()) + "s; poll="@
            + number::decimal(config.poll.secs()) + "s; dry_run="@ + text::bool_text(config.dry_run),
{
}

} // verus!
