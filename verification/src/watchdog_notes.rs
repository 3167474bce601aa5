//! What the watchdog says of its work.
use vstd::prelude::*;
use vstd::string::StringExecFns;

use crate::controller_notes::SHUTTING_DOWN;
use crate::number;
use crate::number::push_decimal;
use crate::power;
use crate::power::{push_spaced, PowerCommand};
use crate::text;
use crate::text::bool_word;
use crate::time::Moment;
use crate::watchdog::{Watchdog, WatchdogConfig, WatchdogEvent, WatchdogPhase};

verus! {

pub const RUNNING: &'static str = "controller is running";

/// The note on what the watchdog starts with.
pub fn start_note(config: &WatchdogConfig) -> (r: String)
    ensures
        r@ == "starting; interval="@ + number::decimal(config.interval.secs()) + "s; grace="@ + number::decimal(
            config.grace.secs(),
        ) + "s; dry_run="@ + text::bool_text(config.dry_run),
{
    let mut r = "starting; interval=".to_owned();
    push_decimal(&mut r, config.interval.as_secs());
    r.append("s; grace=");
    push_decimal(&mut r, config.grace.as_secs());
    r.append("s; dry_run=");
    r.append(bool_word(config.dry_run));
    assert(r@ =~= "starting; interval="@ + number::decimal(config.interval.secs()) + "s; grace="@ + number::decimal(
        config.grace.secs(),
    ) + "s; dry_run="@ + text::bool_text(config.dry_run));
    r
}

/// The note on a controller that has been missing for a number of seconds.
pub open spec fn missing_line(seconds: nat) -> Seq<char> {
    "controller is not running; missing for "@ + number::decimal(seconds) + "s"@
}

/// The note on what came of asking for the controller.
pub open spec fn check_noted(watchdog: Watchdog, event: WatchdogEvent, now: Moment) -> Option<Seq<char>> {
    match (watchdog.phase, event) {
        (WatchdogPhase::Checking, WatchdogEvent::ControllerChecked(Ok(true))) => Some(RUNNING@),
        (WatchdogPhase::Checking, WatchdogEvent::ControllerChecked(Ok(false))) => Some(
            missing_line(now.after(watchdog.first_missing(now)).secs()),
        ),
        _ => None,
    }
}

/// The note on what came of asking for the controller, before the watchdog goes on.
pub fn check_note(watchdog: &Watchdog, event: &WatchdogEvent, now: Moment) -> (r: Option<String>)
    ensures
        match check_noted(*watchdog, *event, now) {
            Some(line) => r matches Some(note) && note@ == line,
            None => r is None,
        },
{
    match (&watchdog.phase, event) {
        (WatchdogPhase::Checking, WatchdogEvent::ControllerChecked(Ok(true))) => Some(RUNNING.to_owned()),
        (WatchdogPhase::Checking, WatchdogEvent::ControllerChecked(Ok(false))) => {
            let first = match watchdog.missing_since {
                Some(first) => first,
                None => now,
            };
            let mut note = "controller is not running; missing for ".to_owned();
            push_decimal(&mut note, now.saturating_duration_since(first).as_secs());
            note.append("s");
            Some(note)
        },
        _ => None,
    }
}

/// The note on a command that was run; none where it only might have been.
pub fn command_note(command: PowerCommand, dry_run: bool) -> (r: Option<String>)
    ensures
        r is None <==> dry_run,
        r matches Some(note) ==> note@ == command.program_text() + " "@ + power::spaced(command.arg_texts())
            + " succeeded"@,
{
    if dry_run {
        return None;
    }
    let mut note = command.program();
    note.append(" ");
    let args = command.args();
    push_spaced(&mut note, &args);
    note.append(" succeeded");
    Some(note)
}

/// The note on the end; none where a failure ended the watchdog.
pub fn end_note(watchdog: &Watchdog) -> (r: Option<String>)
    ensures
        r is Some <==> watchdog.phase matches WatchdogPhase::Finished(Ok(_)),
        r matches Some(note) ==> note@ == SHUTTING_DOWN@,
{
    match &watchdog.phase {
        WatchdogPhase::Finished(Ok(_)) => Some(SHUTTING_DOWN.to_owned()),
        _ => None,
    }
}

/// How long the controller has been missing is told from when the watchdog first
/// found it so, which it goes on to keep.
pub proof fn absence_is_noted_from_its_start(watchdog: Watchdog, now: Moment)
    requires
        watchdog.phase is Checking,
    ensures
        watchdog.next(WatchdogEvent::ControllerChecked(Ok(false)), now).missing_since matches Some(first) && check_noted(
            watchdog,
            WatchdogEvent::ControllerChecked(Ok(false)),
            now,
        ) == Some(missing_line(now.after(first).secs())),
{
}

} // verus!
