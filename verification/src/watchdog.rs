//! The watchdog: where the controller is gone for too long, it lets the machine
//! sleep as usual.
use vstd::prelude::*;

use crate::cli;
use crate::cli::{switch_value, unknown_argument_message};
use crate::command;
use crate::command::{service_is_running, CommandOutput};
use crate::controller_config;
use crate::number;
use crate::power::{CommandError, CommandFailure, PowerCommand};
use crate::system;
use crate::text::str_eq;
use crate::time::{Moment, Span};

verus! {

pub const DEFAULT_INTERVAL_SECONDS: u64 = 5;

pub const DEFAULT_GRACE_SECONDS: u64 = 20;

pub const USAGE: &'static str = "Usage: no-sleep-till-done-watchdog [OPTIONS]

Options:
  --interval-seconds N      Seconds between controller checks [5]
  --grace-seconds N         Seconds controller may be absent before repair [20]
  --dry-run                 Log repair commands instead of changing power settings
  --once                    Check once, then exit
  -h, --help                Show this help
";

/// The settings of the watchdog.
#[derive(Clone, Copy, Debug, Eq, PartialEq, Structural)]
pub struct WatchdogConfig {
    pub interval: Span,
    pub grace: Span,
    pub dry_run: bool,
    pub once: bool,
}

/// Why the watchdog gave up.
#[derive(Debug, Eq, PartialEq)]
pub enum WatchdogError {
    /// The command line is wrong, or asks for help.
    Cli(String),
    RootRequired,
    /// A command failed.
    CommandFailed(CommandFailure),
    /// A command could not be started.
    Io(String),
}

pub const ROOT_REQUIRED: &'static str = "no-sleep-till-done-watchdog must run as root unless --dry-run is used";

impl WatchdogError {
    pub open spec fn text(self) -> Seq<char> {
        match self {
            WatchdogError::Cli(message) => message@,
            WatchdogError::RootRequired => ROOT_REQUIRED@,
            WatchdogError::CommandFailed(failure) => failure.text(),
            WatchdogError::Io(message) => message@,
        }
    }

    /// The message to show.
    pub fn message(&self) -> (s: String)
        ensures
            s@ == self.text(),
    {
        match self {
            WatchdogError::Cli(message) => message.clone(),
            WatchdogError::RootRequired => ROOT_REQUIRED.to_owned(),
            WatchdogError::CommandFailed(failure) => failure.message(),
            WatchdogError::Io(message) => message.clone(),
        }
    }
}

/// The error of a command is one of the watchdog's.
pub fn watchdog_error(error: CommandError) -> (r: WatchdogError)
    ensures
        r == (match error {
            CommandError::Io(message) => WatchdogError::Io(message),
            CommandError::Failed(failure) => WatchdogError::CommandFailed(failure),
        }),
{
    match error {
        CommandError::Io(message) => WatchdogError::Io(message),
        CommandError::Failed(failure) => WatchdogError::CommandFailed(failure),
    }
}

/// The settings without a command line.
pub open spec fn default_settings() -> WatchdogConfig {
    WatchdogConfig {
        interval: controller_config::secs(DEFAULT_INTERVAL_SECONDS),
        grace: controller_config::secs(DEFAULT_GRACE_SECONDS),
        dry_run: false,
        once: false,
    }
}

/// The settings after the command line, or what is wrong with it.
pub open spec fn with_args(current: WatchdogConfig, args: Seq<Seq<char>>) -> Result<WatchdogConfig, Seq<char>>
    decreases args.len(),
{
    if args.len() == 0 {
        Ok(current)
    } else if args[0] == "--interval-seconds"@ {
        if args.len() < 2 {
            Err(cli::lacks_value(args[0]))
        } else {
            match cli::positive(args[0], args[1]) {
                Ok(n) => with_args(
                    WatchdogConfig { interval: controller_config::secs(n), ..current },
                    args.skip(2),
                ),
                Err(message) => Err(message),
            }
        }
    } else if args[0] == "--grace-seconds"@ {
        if args.len() < 2 {
            Err(cli::lacks_value(args[0]))
        } else {
            match cli::positive(args[0], args[1]) {
                Ok(n) => with_args(WatchdogConfig { grace: controller_config::secs(n), ..current }, args.skip(2)),
                Err(message) => Err(message),
            }
        }
    } else if args[0] == "--dry-run"@ {
        with_args(WatchdogConfig { dry_run: true, ..current }, args.skip(1))
    } else if args[0] == "--once"@ {
        with_args(WatchdogConfig { once: true, ..current }, args.skip(1))
    } else if args[0] == "-h"@ || args[0] == "--help"@ {
        Err(USAGE@)
    } else {
        Err(cli::unknown_argument(args[0], USAGE@))
    }
}

/// The settings that the command line gives.
pub fn parse_args(args: &[String]) -> (r: Result<WatchdogConfig, WatchdogError>)
    ensures
        match with_args(default_settings(), system::string_views(args@)) {
            Ok(settings) => r == Ok::<WatchdogConfig, WatchdogError>(settings),
            Err(message) => r matches Err(WatchdogError::Cli(said)) && said@ == message,
        },
{
    let mut config = WatchdogConfig {
        interval: Span::from_secs(DEFAULT_INTERVAL_SECONDS),
        grace: Span::from_secs(DEFAULT_GRACE_SECONDS),
        dry_run: false,
        once: false,
    };
    let ghost all = system::string_views(args@);
    let ghost stated = with_args(default_settings(), all);
    let mut i: usize = 0;
    assert(all.skip(0) =~= all);
    while i < args.len()
        invariant
            i <= args@.len(),
            all == system::string_views(args@),
            stated == with_args(default_settings(), all),
            with_args(config, all.skip(i as int)) == stated,
        decreases args@.len() - i,
    {
        let ghost rest = all.skip(i as int);
        let arg = args[i].as_str();
        let next: Option<&String> = if i + 1 < args.len() {
            Some(&args[i + 1])
        } else {
            None
        };
        proof {
            assert(rest[0] == arg@);
            if i + 1 < args@.len() {
                assert(rest[1] == args@[i + 1]@);
                assert(rest.skip(2) =~= all.skip(i + 2));
            }
            assert(rest.skip(1) =~= all.skip(i + 1));
        }
        if str_eq(arg, "--interval-seconds") {
            match switch_value("--interval-seconds", next) {
                Ok(n) => {
                    config = WatchdogConfig { interval: Span::from_secs(n), ..config };
                    i = i + 2;
                },
                Err(message) => {
                    return Err(WatchdogError::Cli(message));
                },
            }
        } else if str_eq(arg, "--grace-seconds") {
            match switch_value("--grace-seconds", next) {
                Ok(n) => {
                    config = WatchdogConfig { grace: Span::from_secs(n), ..config };
                    i = i + 2;
                },
                Err(message) => {
                    return Err(WatchdogError::Cli(message));
                },
            }
        } else if str_eq(arg, "--dry-run") {
            config = WatchdogConfig { dry_run: true, ..config };
            i = i + 1;
        } else if str_eq(arg, "--once") {
            config = WatchdogConfig { once: true, ..config };
            i = i + 1;
        } else if str_eq(arg, "-h") || str_eq(arg, "--help") {
            return Err(WatchdogError::Cli(USAGE.to_owned()));
        } else {
            return Err(WatchdogError::Cli(unknown_argument_message(arg, USAGE)));
        }
    }
    assert(all.skip(i as int).len() == 0);
    Ok(config)
}

/// The watchdog must be run by the administrator, unless it changes nothing.
pub fn check_privilege(config: &WatchdogConfig, effective_user: u32) -> (r: Result<(), WatchdogError>)
    ensures
        r == (if !config.dry_run && effective_user != 0 {
            Err::<(), WatchdogError>(WatchdogError::RootRequired)
        } else {
            Ok::<(), WatchdogError>(())
        }),
        r is Ok <==> config.dry_run || effective_user == 0,
{
    if !config.dry_run && effective_user != 0 {
        return Err(WatchdogError::RootRequired);
    }
    Ok(())
}

/// Whether the controller runs, from what came of asking the service manager.
pub fn controller_running(output: Result<CommandOutput, String>) -> (r: Result<bool, WatchdogError>)
    ensures
        r == (match output {
            Ok(o) => Ok::<bool, WatchdogError>(command::answer_means_running(Some(o))),
            Err(message) => Err::<bool, WatchdogError>(WatchdogError::Io(message)),
        }),
        r == Ok::<bool, WatchdogError>(true) <==> (output matches Ok(o) && o.success && command::reports_running(
            command::lossy_text(o.stdout@),
        )),
        r is Err <==> output is Err,
{
    match output {
        Ok(o) => {
            let answer = Some(o);
            Ok(service_is_running(&answer))
        },
        Err(message) => Err(WatchdogError::Io(message)),
    }
}

/// Where the watchdog is in its round.
#[derive(Debug, Eq, PartialEq)]
pub enum WatchdogPhase {
    /// Asking whether the controller runs.
    Checking,
    /// Letting the machine sleep as usual.
    Restoring,
    /// After a check: has it been told to stop?
    RoundEnd,
    /// Waiting for the next check.
    Resting,
    /// Done.
    Finished(Result<(), WatchdogError>),
}

/// What the watchdog wants done.
#[derive(Clone, Copy, Debug, Eq, PartialEq, Structural)]
pub enum WatchdogAction {
    CheckController,
    Run(PowerCommand),
    CheckShutdown,
    Wait(Span),
    Finish,
}

/// What came of what the watchdog wanted.
#[derive(Debug, Eq, PartialEq)]
pub enum WatchdogEvent {
    /// Whether the controller runs.
    ControllerChecked(Result<bool, WatchdogError>),
    CommandDone(Result<(), WatchdogError>),
    /// Whether the watchdog was told to stop.
    ShutdownChecked(bool),
    Waited,
}

/// The watchdog.
#[derive(Debug, Eq, PartialEq)]
pub struct Watchdog {
    pub config: WatchdogConfig,
    /// When the controller was first found missing.
    pub missing_since: Option<Moment>,
    pub phase: WatchdogPhase,
}

impl Watchdog {
    /// The same watchdog in another phase.
    pub open spec fn at(self, phase: WatchdogPhase) -> Watchdog {
        Watchdog { phase, ..self }
    }

    /// When the controller was first found missing, if it is missing now.
    pub open spec fn first_missing(self, now: Moment) -> Moment {
        match self.missing_since {
            Some(first) => first,
            None => now,
        }
    }

    /// What is wanted in a phase.
    pub open spec fn wants(self) -> WatchdogAction {
        match self.phase {
            WatchdogPhase::Checking => WatchdogAction::CheckController,
            WatchdogPhase::Restoring => WatchdogAction::Run(PowerCommand::AllowSleep),
            WatchdogPhase::RoundEnd => WatchdogAction::CheckShutdown,
            WatchdogPhase::Resting => WatchdogAction::Wait(self.config.interval),
            WatchdogPhase::Finished(_) => WatchdogAction::Finish,
        }
    }

    /// What the watchdog becomes by an event. An event that does not answer what
    /// it wants leaves it as it is.
    pub open spec fn next(self, event: WatchdogEvent, now: Moment) -> Watchdog {
        match (self.phase, event) {
            (WatchdogPhase::Checking, WatchdogEvent::ControllerChecked(r)) => match r {
                Ok(true) => Watchdog { missing_since: None, phase: WatchdogPhase::RoundEnd, ..self },
                Ok(false) => Watchdog {
                    missing_since: Some(self.first_missing(now)),
                    phase: if now.after(self.first_missing(now)).nanos >= self.config.grace.nanos {
                        WatchdogPhase::Restoring
                    } else {
                        WatchdogPhase::RoundEnd
                    },
                    ..self
                },
                Err(error) => self.at(WatchdogPhase::Finished(Err(error))),
            },
            (WatchdogPhase::Restoring, WatchdogEvent::CommandDone(r)) => match r {
                Ok(()) => self.at(WatchdogPhase::RoundEnd),
                Err(error) => self.at(WatchdogPhase::Finished(Err(error))),
            },
            (WatchdogPhase::RoundEnd, WatchdogEvent::ShutdownChecked(stop)) => if self.config.once || stop {
                self.at(WatchdogPhase::Finished(Ok(())))
            } else {
                self.at(WatchdogPhase::Resting)
            },
            (WatchdogPhase::Resting, WatchdogEvent::Waited) => self.at(WatchdogPhase::Checking),
            _ => self,
        }
    }

    /// A watchdog that has not checked yet.
    pub fn new(config: WatchdogConfig) -> (r: Watchdog)
        ensures
            r.config == config,
            r.missing_since is None,
            r.phase is Checking,
    {
        Watchdog { config, missing_since: None, phase: WatchdogPhase::Checking }
    }

    /// What the watchdog wants done.
    pub fn action(&self) -> (r: WatchdogAction)
        ensures
            r == self.wants(),
    {
        match &self.phase {
            WatchdogPhase::Checking => WatchdogAction::CheckController,
            WatchdogPhase::Restoring => WatchdogAction::Run(PowerCommand::AllowSleep),
            WatchdogPhase::RoundEnd => WatchdogAction::CheckShutdown,
            WatchdogPhase::Resting => WatchdogAction::Wait(self.config.interval),
            WatchdogPhase::Finished(_) => WatchdogAction::Finish,
        }
    }

    /// What the watchdog becomes by what came of what it wanted.
    pub fn advance(self, event: WatchdogEvent, now: Moment) -> (r: Watchdog)
        ensures
            r == self.next(event, now),
    {
        match self.phase {
            WatchdogPhase::Checking => match event {
                WatchdogEvent::ControllerChecked(Ok(true)) => Watchdog {
                    missing_since: None,
                    phase: WatchdogPhase::RoundEnd,
                    ..self
                },
                WatchdogEvent::ControllerChecked(Ok(false)) => {
                    let first = match self.missing_since {
                        Some(first) => first,
                        None => now,
                    };
                    let missing_for = now.saturating_duration_since(first);
                    let phase = if missing_for.nanos >= self.config.grace.nanos {
                        WatchdogPhase::Restoring
                    } else {
                        WatchdogPhase::RoundEnd
                    };
                    Watchdog { missing_since: Some(first), phase, ..self }
                },
                WatchdogEvent::ControllerChecked(Err(error)) => Watchdog {
                    phase: WatchdogPhase::Finished(Err(error)),
                    ..self
                },
                _ => self,
            },
            WatchdogPhase::Restoring => match event {
                WatchdogEvent::CommandDone(Ok(())) => Watchdog { phase: WatchdogPhase::RoundEnd, ..self },
                WatchdogEvent::CommandDone(Err(error)) => Watchdog {
                    phase: WatchdogPhase::Finished(Err(error)),
                    ..self
                },
                _ => self,
            },
            WatchdogPhase::RoundEnd => match event {
                WatchdogEvent::ShutdownChecked(stop) => {
                    let phase = if self.config.once || stop {
                        WatchdogPhase::Finished(Ok(()))
                    } else {
                        WatchdogPhase::Resting
                    };
                    Watchdog { phase, ..self }
                },
                _ => self,
            },
            WatchdogPhase::Resting => match event {
                WatchdogEvent::Waited => Watchdog { phase: WatchdogPhase::Checking, ..self },
                _ => self,
            },
            WatchdogPhase::Finished(_) => self,
        }
    }
}

/// The watchdog runs one command only: the one that lets the machine sleep.
pub proof fn watchdog_only_restores(watchdog: Watchdog, command: PowerCommand)
    requires
        watchdog.wants() == WatchdogAction::Run(command),
    ensures
        command == PowerCommand::AllowSleep,
{
}

/// Sleep is restored only where the controller was found missing now, and has
/// been missing at every check since at least the grace ago.
pub proof fn restores_only_after_grace(watchdog: Watchdog, event: WatchdogEvent, now: Moment)
    requires
        !(watchdog.phase is Restoring),
        watchdog.next(event, now).phase is Restoring,
    ensures
        event == WatchdogEvent::ControllerChecked(Ok(false)),
        watchdog.next(event, now).missing_since matches Some(first) && now.after(first).nanos
            >= watchdog.config.grace.nanos,
        watchdog.missing_since is Some ==> watchdog.next(event, now).missing_since == watchdog.missing_since,
{
}

/// The time of absence is forgotten exactly when the controller is found, and
/// starts at the first check that misses it.
pub proof fn absence_is_continuous(watchdog: Watchdog, event: WatchdogEvent, now: Moment)
    ensures
        watchdog.missing_since is Some && watchdog.next(event, now).missing_since is None ==> event
            == WatchdogEvent::ControllerChecked(Ok(true)),
        watchdog.missing_since is Some && watchdog.next(event, now).missing_since is Some ==> watchdog.next(
            event,
            now,
        ).missing_since == watchdog.missing_since,
        watchdog.missing_since is None && watchdog.next(event, now).missing_since is Some ==> event
            == WatchdogEvent::ControllerChecked(Ok(false)) && watchdog.next(event, now).missing_since == Some(now),
{
}

/// Where the controller has been missing for the grace, the next check restores sleep.
pub proof fn long_absence_restores(watchdog: Watchdog, first: Moment, now: Moment)
    requires
        watchdog.phase is Checking,
        watchdog.missing_since == Some(first),
        now.after(first).nanos >= watchdog.config.grace.nanos,
    ensures
        watchdog.next(WatchdogEvent::ControllerChecked(Ok(false)), now).wants() == WatchdogAction::Run(
            PowerCommand::AllowSleep,
        ),
{
}

/// A controller that is found ends its absence, however long that has lasted; the
/// next check that misses it starts another, which counts from that check alone.
pub proof fn found_controller_ends_the_absence(watchdog: Watchdog, found: Moment, told: Moment, rested: Moment, now: Moment)
    requires
        watchdog.phase is Checking,
    ensures
        ({
            let checked = watchdog.next(WatchdogEvent::ControllerChecked(Ok(true)), found);
            let asked = checked.next(WatchdogEvent::ShutdownChecked(false), told);
            let again = asked.next(WatchdogEvent::Waited, rested);
            let missed = again.next(WatchdogEvent::ControllerChecked(Ok(false)), now);
            &&& checked.missing_since is None
            &&& checked.config == watchdog.config
            &&& checked.wants() == WatchdogAction::CheckShutdown
            &&& !watchdog.config.once ==> {
                &&& missed.missing_since == Some(now)
                &&& watchdog.config.grace.nanos > 0 ==> missed.wants() == WatchdogAction::CheckShutdown
            }
        }),
{
}

/// A controller that is missed has been missing since the first check that missed
/// it. Sleep is restored exactly where that is the grace ago; until then nothing
/// is done about it.
pub proof fn missed_controller_is_counted_from_the_first_miss(watchdog: Watchdog, now: Moment)
    requires
        watchdog.phase is Checking,
    ensures
        ({
            let missed = watchdog.next(WatchdogEvent::ControllerChecked(Ok(false)), now);
            let first = missed.missing_since->0;
            &&& missed.missing_since is Some
            &&& watchdog.missing_since is Some ==> missed.missing_since == watchdog.missing_since
            &&& watchdog.missing_since is None ==> first == now
            &&& first.nanos <= now.nanos ==> missed.wants() == (if now.nanos - first.nanos
                >= watchdog.config.grace.nanos {
                WatchdogAction::Run(PowerCommand::AllowSleep)
            } else {
                WatchdogAction::CheckShutdown
            })
            &&& missed.config == watchdog.config
        }),
{
}

/// The watchdog checks again after every interval until it is told to stop, or at
/// once where it is to check only once. What it knows of the controller stays.
pub proof fn checks_follow_one_another(watchdog: Watchdog, told: Moment, now: Moment)
    requires
        watchdog.phase is RoundEnd,
    ensures
        ({
            let stopped = watchdog.next(WatchdogEvent::ShutdownChecked(true), told);
            let asked = watchdog.next(WatchdogEvent::ShutdownChecked(false), told);
            let again = asked.next(WatchdogEvent::Waited, now);
            &&& stopped.phase == WatchdogPhase::Finished(Ok(()))
            &&& watchdog.config.once ==> asked.phase == WatchdogPhase::Finished(Ok(()))
            &&& !watchdog.config.once ==> {
                &&& asked.wants() == WatchdogAction::Wait(watchdog.config.interval)
                &&& again.wants() == WatchdogAction::CheckController
                &&& again.config == watchdog.config
                &&& again.missing_since == watchdog.missing_since
            }
        }),
{
}

/// After sleep was restored the watchdog goes on, and still knows since when the
/// controller has been missing. What fails ends it, with the reason.
pub proof fn watchdog_goes_on_or_fails(watchdog: Watchdog, error: WatchdogError, now: Moment)
    ensures
        watchdog.phase is Restoring ==> {
            let restored = watchdog.next(WatchdogEvent::CommandDone(Ok(())), now);
            &&& restored.wants() == WatchdogAction::CheckShutdown
            &&& restored.missing_since == watchdog.missing_since
            &&& restored.config == watchdog.config
        },
        watchdog.phase is Restoring ==> watchdog.next(WatchdogEvent::CommandDone(Err(error)), now).phase
            == WatchdogPhase::Finished(Err(error)),
        watchdog.phase is Checking ==> watchdog.next(WatchdogEvent::ControllerChecked(Err(error)), now).phase
            == WatchdogPhase::Finished(Err(error)),
{
}

/// What does not answer the watchdog's question changes nothing, and a watchdog
/// that is done stays so.
pub proof fn unasked_answers_leave_the_watchdog(watchdog: Watchdog, event: WatchdogEvent, now: Moment)
    requires
        watchdog.wants() is CheckController ==> !(event is ControllerChecked),
        watchdog.wants() is Run ==> !(event is CommandDone),
        watchdog.wants() is CheckShutdown ==> !(event is ShutdownChecked),
        watchdog.wants() is Wait ==> !(event is Waited),
    ensures
        watchdog.next(event, now) == watchdog,
{
}

/// A command line of two parts has the effect of the one and then of the other.
pub proof fn switches_take_effect_in_order(current: WatchdogConfig, a: Seq<Seq<char>>, b: Seq<Seq<char>>)
    ensures
        with_args(current, Seq::<Seq<char>>::empty()) == Ok::<WatchdogConfig, Seq<char>>(current),
        with_args(current, a) matches Ok(between) ==> with_args(current, a + b) == with_args(between, b),
    decreases a.len(),
{
    if a.len() == 0 {
        assert(a + b =~= b);
    } else {
        let all = a + b;
        assert(all[0] == a[0]);
        assert(all.skip(1) =~= a.skip(1) + b);
        if a.len() >= 2 {
            assert(all[1] == a[1]);
            assert(all.skip(2) =~= a.skip(2) + b);
            if let Ok(n) = cli::positive(a[0], a[1]) {
                switches_take_effect_in_order(
                    WatchdogConfig { interval: controller_config::secs(n), ..current },
                    a.skip(2),
                    b,
                );
                switches_take_effect_in_order(
                    WatchdogConfig { grace: controller_config::secs(n), ..current },
                    a.skip(2),
                    b,
                );
            }
        }
        switches_take_effect_in_order(WatchdogConfig { dry_run: true, ..current }, a.skip(1), b);
        switches_take_effect_in_order(WatchdogConfig { once: true, ..current }, a.skip(1), b);
    }
}

/// The switches of the command line are told apart.
proof fn lemma_switches_differ()
    ensures
        "--interval-seconds"@.len() == 18,
        "--grace-seconds"@.len() == 15,
        "--dry-run"@.len() == 9,
        "--once"@.len() == 6,
        "-h"@.len() == 2,
        "--help"@.len() == 6,
        "--help"@ != "--once"@,
{
    reveal_strlit("--interval-seconds");
    reveal_strlit("--grace-seconds");
    reveal_strlit("--dry-run");
    reveal_strlit("--once");
    reveal_strlit("-h");
    reveal_strlit("--help");
    assert("--help"@[2] == 'h' && "--once"@[2] == 'o');
}

/// Each switch sets what it is for, and nothing else. Without any, the controller
/// is asked for every five seconds, and may be missing for twenty.
pub proof fn switches_set_what_they_are_for(current: WatchdogConfig, n: u64)
    requires
        n >= 1,
    ensures
        ({
            let number = number::decimal(n as nat);
            let spaced = with_args(current, seq!["--interval-seconds"@, number]);
            let graced = with_args(current, seq!["--grace-seconds"@, number]);
            &&& spaced is Ok && graced is Ok
            &&& (spaced->Ok_0).interval.nanos == n * 1_000_000_000
            &&& (graced->Ok_0).grace.nanos == n * 1_000_000_000
            &&& spaced->Ok_0 == (WatchdogConfig { interval: (spaced->Ok_0).interval, ..current })
            &&& graced->Ok_0 == (WatchdogConfig { grace: (graced->Ok_0).grace, ..current })
            &&& with_args(current, seq!["--dry-run"@]) == Ok::<WatchdogConfig, Seq<char>>(
                WatchdogConfig { dry_run: true, ..current },
            )
            &&& with_args(current, seq!["--once"@]) == Ok::<WatchdogConfig, Seq<char>>(
                WatchdogConfig { once: true, ..current },
            )
            &&& default_settings().interval.nanos == 5_000_000_000
            &&& default_settings().grace.nanos == 20_000_000_000
            &&& !default_settings().dry_run && !default_settings().once
        }),
{
    lemma_switches_differ();
    reveal_with_fuel(with_args, 2);
    let number = number::decimal(n as nat);
    cli::positive_numbers_are_taken("--interval-seconds"@, number, n as nat);
    cli::positive_numbers_are_taken("--grace-seconds"@, number, n as nat);
    assert(seq!["--interval-seconds"@, number].skip(2).len() == 0);
    assert(seq!["--grace-seconds"@, number].skip(2).len() == 0);
    assert(seq!["--dry-run"@].skip(1).len() == 0);
    assert(seq!["--once"@].skip(1).len() == 0);
    assert(n * 1_000_000_000 <= u128::MAX);
}

/// A command line that asks for help, that has something unknown, or a number
/// missing or wrong where one belongs, is refused with what is wrong, whatever
/// follows it.
pub proof fn wrong_command_lines_are_refused(
    current: WatchdogConfig,
    arg: Seq<char>,
    value: Seq<char>,
    rest: Seq<Seq<char>>,
)
    ensures
        with_args(current, seq!["-h"@] + rest) == Err::<WatchdogConfig, Seq<char>>(USAGE@),
        with_args(current, seq!["--help"@] + rest) == Err::<WatchdogConfig, Seq<char>>(USAGE@),
        with_args(current, seq!["--interval-seconds"@]) == Err::<WatchdogConfig, Seq<char>>(
            "--interval-seconds"@ + " requires a value"@,
        ),
        with_args(current, seq!["--grace-seconds"@]) == Err::<WatchdogConfig, Seq<char>>(
            "--grace-seconds"@ + " requires a value"@,
        ),
        number::parse_decimal(value, u64::MAX as nat) is None ==> {
            &&& with_args(current, seq!["--interval-seconds"@, value] + rest) == Err::<WatchdogConfig, Seq<char>>(
                "--interval-seconds"@ + " must be a positive integer"@,
            )
            &&& with_args(current, seq!["--grace-seconds"@, value] + rest) == Err::<WatchdogConfig, Seq<char>>(
                "--grace-seconds"@ + " must be a positive integer"@,
            )
        },
        arg != "--interval-seconds"@ && arg != "--grace-seconds"@ && arg != "--dry-run"@ && arg != "--once"@ && arg
            != "-h"@ && arg != "--help"@ ==> with_args(current, seq![arg] + rest) == Err::<WatchdogConfig, Seq<char>>(
            "unknown argument: "@ + arg + "\n\n"@ + USAGE@,
        ),
{
    lemma_switches_differ();
    cli::positive_numbers_are_taken("--interval-seconds"@, value, 0);
    cli::positive_numbers_are_taken("--grace-seconds"@, value, 0);
    assert((seq!["-h"@] + rest)[0] == "-h"@);
    assert((seq!["--help"@] + rest)[0] == "--help"@);
    assert((seq![arg] + rest)[0] == arg);
    let spaced = seq!["--interval-seconds"@, value] + rest;
    let graced = seq!["--grace-seconds"@, value] + rest;
    assert(spaced[0] == "--interval-seconds"@ && spaced[1] == value);
    assert(graced[0] == "--grace-seconds"@ && graced[1] == value);
}

/// An error of the watchdog is shown as its message says it.
pub proof fn errors_are_described(message: String, failure: CommandFailure)
    ensures
        WatchdogError::Cli(message).text() == message@,
        WatchdogError::Io(message).text() == message@,
        WatchdogError::CommandFailed(failure).text() == failure.text(),
{
}

} // verus!
