use no_sleep_till_done::config::{AppConfig, ProcessWaitConfig};
use no_sleep_till_done::controller::{
    check_privilege, handle_closed_sleep_state, handle_process_scan, log_process_matches, Action, ClosedSleepState,
    ClosedStep, Controller, Event, Phase,
};
use no_sleep_till_done::controller_config::{parse_args, reading_error, AppError, Config, ProcessWait};
use no_sleep_till_done::controller_notes::{change_notes, event_notes, scan_notes, seen, start_note};
use no_sleep_till_done::power::{dry_run_note, run_command, CommandError, CommandFailure, PowerCommand};
use no_sleep_till_done::command::CommandOutput;
use no_sleep_till_done::system::{LidState, ProcessMatch, SystemError};
use no_sleep_till_done::time::{Moment, Span};
use no_sleep_till_done::LeaseRecord;

fn at(seconds: u64) -> Moment {
    Moment {
        nanos: u128::from(seconds) * 1_000_000_000,
    }
}

#[test]
fn reload_preserves_cli_overrides_and_updates_toml_values() {
    let current = Config {
        enabled: true,
        delay: Span::from_secs(10),
        poll: Span::from_secs(2),
        process_wait: ProcessWait::from_config(Default::default()),
        delay_override: Some(Span::from_secs(10)),
        poll_override: None,
        dry_run: true,
        once: false,
        keep_disabled_on_exit: false,
    };
    let app_config = AppConfig {
        enabled: false,
        delay_seconds: 99,
        poll_seconds: 7,
        process_wait: ProcessWaitConfig {
            enabled: true,
            command_substrings: vec!["nosleeptilldone".into()],
            ..Default::default()
        },
        ..Default::default()
    };

    let reloaded = current.with_app_config(app_config);

    assert!(!reloaded.enabled);
    assert_eq!(reloaded.delay, Span::from_secs(10));
    assert_eq!(reloaded.poll, Span::from_secs(7));
    assert!(reloaded.process_wait.is_active());
}

fn args(values: &[&str]) -> Vec<String> {
    values.iter().map(|value| value.to_string()).collect()
}

fn parsed(values: &[&str]) -> Result<Config, AppError> {
    parse_args(Ok(AppConfig::default()), &args(values))
}

#[test]
fn command_line_sets_its_switches() {
    let config = parsed(&[
        "--delay-seconds",
        "5",
        "--dry-run",
        "--once",
        "--keep-disabled-on-exit",
        "--delay-seconds",
        "+8",
    ])
    .unwrap();
    assert_eq!(config.delay, Span::from_secs(8));
    assert_eq!(config.delay_override, Some(Span::from_secs(8)));
    assert_eq!(config.poll, Span::from_secs(1));
    assert_eq!(config.poll_override, None);
    assert!(config.dry_run && config.once && config.keep_disabled_on_exit && config.enabled);
    let plain = parsed(&[]).unwrap();
    assert_eq!(plain.delay, Span::from_secs(60));
    assert!(!plain.dry_run && !plain.once && !plain.keep_disabled_on_exit);
    assert_eq!(
        parsed(&["--poll-seconds", "3"]).unwrap().poll_override,
        Some(Span::from_secs(3))
    );
}

fn cli_message(values: &[&str]) -> String {
    match parsed(values) {
        Err(AppError::Cli(message)) => message,
        other => panic!("{other:?}"),
    }
}

#[test]
fn command_line_errors_have_their_messages() {
    assert_eq!(cli_message(&["--delay-seconds"]), "--delay-seconds requires a value");
    assert_eq!(cli_message(&["--poll-seconds"]), "--poll-seconds requires a value");
    assert_eq!(
        cli_message(&["--poll-seconds", "x"]),
        "--poll-seconds must be a positive integer"
    );
    assert_eq!(
        cli_message(&["--delay-seconds", "0"]),
        "--delay-seconds must be greater than zero"
    );
    let usage = "Usage: no-sleep-till-done [OPTIONS]\n\nOptions:\n  --delay-seconds N          Seconds lid must stay closed before sleep [60]\n  --poll-seconds N           Lid polling interval in seconds [1]\n  --dry-run                  Log commands instead of changing power settings\n  --once                     Read lid state once, then exit\n  --keep-disabled-on-exit    Leave battery SleepDisabled enabled when daemon exits\n  -h, --help                 Show this help\n";
    assert_eq!(cli_message(&["-h"]), usage);
    assert_eq!(cli_message(&["--help", "--what"]), usage);
    assert_eq!(
        cli_message(&["--once", "--what"]),
        format!("unknown argument: --what\n\n{usage}")
    );
    assert_eq!(
        parse_args(Err("broken".into()), &args(&["--what"])),
        Err(AppError::Config("broken".into()))
    );
}

#[test]
fn errors_have_their_messages() {
    assert_eq!(AppError::Cli("a".into()).message(), "a");
    assert!(AppError::RootRequired.message().starts_with(
        "no-sleep-till-done is the privileged controller and must run with sudo unless --dry-run is used; "
    ));
    assert_eq!(AppError::CString("a".into()).message(), "invalid C string: a");
    assert_eq!(AppError::Iokit("a".into()).message(), "IOKit error: a");
    assert_eq!(AppError::Config("a".into()).message(), "configuration error: a");
    assert_eq!(AppError::Io("a".into()).message(), "a");
    let failure = CommandFailure {
        program: "/usr/bin/pmset".into(),
        args: args(&["-b", "disablesleep", "1"]),
        code: Some(-3),
        stderr: "  not allowed\n".into(),
    };
    assert_eq!(
        AppError::CommandFailed(failure).message(),
        "/usr/bin/pmset -b disablesleep 1 failed with Some(-3): not allowed"
    );
    assert_eq!(
        reading_error(SystemError::Iokit("gone".into())),
        AppError::Iokit("gone".into())
    );
    assert_eq!(
        reading_error(SystemError::CString("nul".into())),
        AppError::CString("nul".into())
    );
}

#[test]
fn power_commands_have_their_programs() {
    let cases = [
        (PowerCommand::PreventSleep, "/usr/bin/pmset", vec!["-b", "disablesleep", "1"]),
        (PowerCommand::AllowSleep, "/usr/bin/pmset", vec!["-b", "disablesleep", "0"]),
        (PowerCommand::SleepNow, "/usr/bin/pmset", vec!["sleepnow"]),
        (PowerCommand::SleepDisplay, "/usr/bin/pmset", vec!["displaysleepnow"]),
        (PowerCommand::WakeDisplay, "/usr/bin/caffeinate", vec!["-u", "-t", "2"]),
    ];
    for (command, program, arguments) in cases {
        assert_eq!(command.program(), program);
        assert_eq!(command.args(), args(&arguments));
        assert_eq!(
            dry_run_note(command),
            format!("dry-run: {program} {}", arguments.join(" "))
        );
    }
}

#[test]
fn power_commands_come_to_something() {
    let output = |success: bool, code: Option<i32>, stderr: &[u8]| CommandOutput {
        success,
        code,
        stdout: Vec::new(),
        stderr: stderr.to_vec(),
    };
    assert_eq!(run_command(PowerCommand::SleepNow, Ok(output(true, Some(0), b"x"))), Ok(()));
    assert_eq!(
        run_command(PowerCommand::SleepNow, Err("missing".into())),
        Err(CommandError::Io("missing".into()))
    );
    let Err(CommandError::Failed(failure)) = run_command(PowerCommand::SleepNow, Ok(output(false, None, b"no\xff\n")))
    else {
        panic!("the command failed");
    };
    assert_eq!(failure.stderr, "no\u{fffd}\n");
    assert_eq!(failure.message(), "/usr/bin/pmset sleepnow failed with None: no\u{fffd}");
}

#[test]
fn controller_needs_the_administrator() {
    let config = parsed(&[]).unwrap();
    assert_eq!(check_privilege(&config, 501), Err(AppError::RootRequired));
    assert_eq!(check_privilege(&config, 0), Ok(()));
    assert_eq!(check_privilege(&parsed(&["--dry-run"]).unwrap(), 501), Ok(()));
}

fn waiting_config() -> Config {
    parse_args(
        Ok(AppConfig {
            process_wait: ProcessWaitConfig {
                enabled: true,
                command_substrings: vec!["agent".into()],
                exit_grace_seconds: 20,
            },
            ..AppConfig::default()
        }),
        &[],
    )
    .unwrap()
}

#[test]
fn closed_lid_calls_for_its_steps() {
    let plain = parsed(&[]).unwrap();
    let waiting = waiting_config();
    let delay = ClosedSleepState::Delay(at(100));
    let grace = ClosedSleepState::ProcessExitGrace(at(100));
    let processes = ClosedSleepState::WaitingForProcesses { last_count: 2 };
    assert_eq!(handle_closed_sleep_state(delay, &plain, at(159)), ClosedStep::Stay(delay));
    assert_eq!(handle_closed_sleep_state(delay, &plain, at(160)), ClosedStep::ForceSleep);
    assert_eq!(handle_closed_sleep_state(delay, &waiting, at(160)), ClosedStep::Scan);
    assert_eq!(handle_closed_sleep_state(processes, &waiting, at(0)), ClosedStep::Scan);
    assert_eq!(handle_closed_sleep_state(grace, &waiting, at(119)), ClosedStep::Stay(grace));
    assert_eq!(handle_closed_sleep_state(grace, &waiting, at(120)), ClosedStep::Scan);
    assert_eq!(handle_process_scan(delay, None, at(1)), ClosedStep::Stay(delay));
    assert_eq!(handle_process_scan(delay, Some(0), at(1)), ClosedStep::ForceSleep);
    assert_eq!(
        handle_process_scan(delay, Some(3), at(1)),
        ClosedStep::Stay(ClosedSleepState::WaitingForProcesses { last_count: 3 })
    );
    assert_eq!(
        handle_process_scan(processes, Some(0), at(1)),
        ClosedStep::Stay(ClosedSleepState::ProcessExitGrace(at(1)))
    );
    assert_eq!(handle_process_scan(processes, None, at(1)), ClosedStep::Stay(processes));
    assert_eq!(handle_process_scan(grace, Some(0), at(1)), ClosedStep::ForceSleep);
    assert_eq!(
        handle_process_scan(grace, Some(1), at(1)),
        ClosedStep::Stay(ClosedSleepState::WaitingForProcesses { last_count: 1 })
    );
}

fn lease(enabled: bool, reload_generation: u64) -> Event {
    Event::LeaseRead(Ok(Some(LeaseRecord {
        enabled,
        reload_generation,
    })))
}

/// Brings the controller from the start of a round to its lease.
fn polled(controller: Controller) -> Controller {
    assert_eq!(controller.action(), Action::CheckShutdown);
    let controller = controller.advance(Event::ShutdownChecked(false), at(0));
    assert_eq!(controller.action(), Action::Wait(Span::from_secs(1)));
    let controller = controller.advance(Event::Waited, at(0));
    assert_eq!(controller.action(), Action::CheckReset);
    let controller = controller.advance(Event::ResetChecked(Ok(false)), at(0));
    assert_eq!(controller.action(), Action::ReadLease);
    controller
}

fn run(command: PowerCommand) -> Action {
    Action::Run(command)
}

fn done() -> Event {
    Event::CommandDone(Ok(()))
}

/// A controller that has just taken control, with the lid open.
fn in_control(config: Config, file: AppConfig) -> Controller {
    let controller = polled(Controller::new(config, Ok(LidState::Open)));
    let controller = controller.advance(lease(true, 1), at(0));
    assert_eq!(controller.action(), Action::LoadConfig);
    let controller = controller.advance(Event::ConfigLoaded(Ok(file)), at(0));
    assert_eq!(controller.action(), run(PowerCommand::PreventSleep));
    let controller = controller.advance(done(), at(0));
    assert_eq!(controller.action(), Action::ReadLid);
    controller.advance(Event::LidRead(Ok(LidState::Open)), at(0))
}

#[test]
fn controller_sleeps_a_closed_machine_after_the_delay() {
    let controller = in_control(parsed(&[]).unwrap(), AppConfig::default());
    let controller = polled(controller).advance(lease(true, 1), at(9));
    assert_eq!(controller.action(), Action::ReadLid);
    let controller = controller.advance(Event::LidRead(Ok(LidState::Closed)), at(10));
    assert_eq!(controller.action(), run(PowerCommand::SleepDisplay));
    let controller = controller.advance(Event::CommandDone(Err(AppError::RootRequired)), at(10));
    assert_eq!(controller.runtime.closed_sleep, Some(ClosedSleepState::Delay(at(10))));
    let controller = polled(controller).advance(lease(true, 1), at(69));
    let controller = controller.advance(Event::LidRead(Ok(LidState::Closed)), at(69));
    assert_eq!(controller.action(), Action::CheckShutdown);
    let controller = polled(controller).advance(lease(true, 1), at(70));
    let controller = controller.advance(Event::LidRead(Ok(LidState::Closed)), at(70));
    assert_eq!(controller.action(), run(PowerCommand::AllowSleep));
    let controller = controller.advance(done(), at(70));
    assert_eq!(controller.action(), run(PowerCommand::SleepNow));
    let controller = controller.advance(done(), at(70));
    assert_eq!(controller.action(), Action::Wait(Span::from_secs(5)));
    let controller = controller.advance(Event::Waited, at(75));
    assert_eq!(controller.action(), run(PowerCommand::PreventSleep));
    let controller = controller.advance(done(), at(76));
    assert_eq!(controller.runtime.closed_sleep, Some(ClosedSleepState::Delay(at(76))));
    assert_eq!(controller.action(), Action::CheckShutdown);
}

fn found(count: u32) -> Event {
    Event::ProcessesFound(Ok((0..count)
        .map(|pid| ProcessMatch {
            pid,
            command: "agent".into(),
        })
        .collect()))
}

fn waiting_file() -> AppConfig {
    AppConfig {
        process_wait: ProcessWaitConfig {
            enabled: true,
            command_substrings: vec!["agent".into()],
            exit_grace_seconds: 20,
        },
        ..AppConfig::default()
    }
}

/// A controller whose lid was closed at ten seconds, after the delay.
fn scanning() -> Controller {
    let controller = polled(in_control(waiting_config(), waiting_file())).advance(lease(true, 1), at(9));
    let controller = controller.advance(Event::LidRead(Ok(LidState::Closed)), at(10));
    let controller = polled(controller.advance(done(), at(10))).advance(lease(true, 1), at(70));
    let controller = controller.advance(Event::LidRead(Ok(LidState::Closed)), at(70));
    assert_eq!(controller.action(), Action::FindProcesses);
    controller
}

fn next_scan(controller: Controller, seconds: u64) -> Controller {
    polled(controller)
        .advance(lease(true, 1), at(seconds))
        .advance(Event::LidRead(Ok(LidState::Closed)), at(seconds))
}

#[test]
fn controller_waits_for_processes_and_then_for_the_grace() {
    let controller = scanning().advance(found(2), at(71));
    assert_eq!(
        controller.runtime.closed_sleep,
        Some(ClosedSleepState::WaitingForProcesses { last_count: 2 })
    );
    let controller = next_scan(controller, 72);
    assert_eq!(controller.action(), Action::FindProcesses);
    let controller = controller.advance(Event::ProcessesFound(Err(SystemError::Command("no".into()))), at(72));
    assert_eq!(
        controller.runtime.closed_sleep,
        Some(ClosedSleepState::WaitingForProcesses { last_count: 2 })
    );
    let controller = next_scan(controller, 80).advance(found(0), at(80));
    assert_eq!(
        controller.runtime.closed_sleep,
        Some(ClosedSleepState::ProcessExitGrace(at(80)))
    );
    let controller = next_scan(controller, 99);
    assert_eq!(controller.action(), Action::CheckShutdown);
    let controller = next_scan(controller, 100);
    assert_eq!(controller.action(), Action::FindProcesses);
    let controller = controller.advance(found(1), at(100));
    assert_eq!(
        controller.runtime.closed_sleep,
        Some(ClosedSleepState::WaitingForProcesses { last_count: 1 })
    );
    let controller = next_scan(controller, 110).advance(found(0), at(110));
    let controller = next_scan(controller, 130).advance(found(0), at(130));
    assert_eq!(controller.action(), run(PowerCommand::AllowSleep));
}

#[test]
fn controller_follows_an_opened_lid() {
    let controller = scanning().advance(found(2), at(71));
    let controller = polled(controller).advance(lease(true, 1), at(72));
    let controller = controller.advance(Event::LidRead(Ok(LidState::Open)), at(72));
    assert_eq!(controller.action(), run(PowerCommand::WakeDisplay));
    assert_eq!(controller.runtime.closed_sleep, None);
    let controller = controller.advance(done(), at(73));
    assert_eq!(controller.runtime.lid, LidState::Open);
    assert_eq!(controller.action(), Action::CheckShutdown);
}

#[test]
fn controller_reads_the_configuration_again_for_a_new_generation() {
    let controller = polled(scanning().advance(found(2), at(71))).advance(lease(true, 2), at(72));
    assert_eq!(controller.action(), Action::LoadConfig);
    let mut file = waiting_file();
    file.delay_seconds = 5;
    let controller = controller.advance(Event::ConfigLoaded(Ok(file)), at(72));
    assert_eq!(controller.config.delay, Span::from_secs(5));
    assert_eq!(controller.runtime.closed_sleep, Some(ClosedSleepState::Delay(at(72))));
    assert_eq!(controller.action(), Action::ReadLid);
    let controller = controller.advance(Event::LidRead(Err(AppError::Iokit("gone".into()))), at(72));
    assert_eq!(controller.action(), Action::CheckShutdown);
    let controller = polled(controller).advance(lease(true, 3), at(73));
    let controller = controller.advance(Event::ConfigLoaded(Err(AppError::Config("bad".into()))), at(73));
    assert_eq!(controller.config.delay, Span::from_secs(5));
    assert_eq!(controller.runtime.reload_generation, Some(3));
    let controller = controller.advance(Event::LidRead(Ok(LidState::Closed)), at(73));
    let controller = polled(controller).advance(lease(true, 3), at(74));
    assert_eq!(controller.action(), Action::ReadLid);
}

#[test]
fn controller_gives_control_up() {
    let endings = [
        lease(false, 1),
        Event::LeaseRead(Ok(None)),
    ];
    for ending in endings {
        let controller = polled(scanning().advance(found(2), at(71))).advance(ending, at(72));
        assert_eq!(controller.action(), run(PowerCommand::AllowSleep));
        assert!(!controller.runtime.active);
        assert_eq!(controller.runtime.closed_sleep, None);
        let controller = controller.advance(done(), at(72));
        assert_eq!(controller.action(), Action::CheckShutdown);
    }
    let controller = scanning().advance(found(2), at(71));
    let controller = controller.advance(Event::ShutdownChecked(false), at(72)).advance(Event::Waited, at(72));
    let controller = controller.advance(Event::ResetChecked(Ok(true)), at(72));
    assert_eq!(controller.action(), Action::ClearReset);
    let controller = controller.advance(Event::ResetCleared(Ok(())), at(72));
    let controller = controller.advance(lease(true, 1), at(72));
    assert_eq!(controller.action(), run(PowerCommand::AllowSleep));
}

#[test]
fn controller_takes_control_with_a_closed_lid() {
    let controller = polled(Controller::new(parsed(&[]).unwrap(), Ok(LidState::Closed)));
    let controller = controller.advance(lease(true, 1), at(0));
    let controller = controller.advance(Event::ConfigLoaded(Err(AppError::Config("bad".into()))), at(0));
    assert_eq!(controller.action(), run(PowerCommand::PreventSleep));
    let controller = controller.advance(done(), at(1));
    assert_eq!(controller.action(), run(PowerCommand::SleepDisplay));
    let controller = controller.advance(done(), at(2));
    assert_eq!(controller.runtime.closed_sleep, Some(ClosedSleepState::Delay(at(2))));
    assert_eq!(controller.action(), Action::ReadLid);
}

#[test]
fn controller_restores_sleep_on_its_way_out() {
    let controller = in_control(parsed(&[]).unwrap(), AppConfig::default());
    let controller = controller.advance(Event::ShutdownChecked(true), at(5));
    assert_eq!(controller.action(), run(PowerCommand::AllowSleep));
    let controller = controller.advance(Event::CommandDone(Err(AppError::Io("no".into()))), at(5));
    assert_eq!(controller.action(), Action::Finish);
    assert_eq!(controller.phase, Phase::Finished(Ok(())));

    let controller = polled(Controller::new(parsed(&[]).unwrap(), Ok(LidState::Open)));
    let controller = controller.advance(Event::LeaseRead(Err(AppError::Io("denied".into()))), at(5));
    assert_eq!(controller.action(), run(PowerCommand::AllowSleep));
    let controller = controller.advance(done(), at(5));
    assert_eq!(controller.phase, Phase::Finished(Err(AppError::Io("denied".into()))));

    let kept = Controller::new(parsed(&["--keep-disabled-on-exit"]).unwrap(), Ok(LidState::Open));
    let kept = kept.advance(Event::ShutdownChecked(true), at(5));
    assert_eq!(kept.phase, Phase::Finished(Ok(())));
}

#[test]
fn controller_may_have_nothing_to_do() {
    let once = Controller::new(parsed(&["--once"]).unwrap(), Ok(LidState::Closed));
    assert_eq!(once.phase, Phase::Finished(Ok(())));
    let blind = Controller::new(parsed(&[]).unwrap(), Err(AppError::Iokit("gone".into())));
    assert_eq!(blind.phase, Phase::Finished(Err(AppError::Iokit("gone".into()))));
    let idle = Controller::new(parsed(&[]).unwrap(), Ok(LidState::Open)).advance(Event::Waited, at(1));
    assert_eq!(idle.phase, Phase::RoundStart);
    let disabled = polled(Controller::new(
        parse_args(
            Ok(AppConfig {
                enabled: false,
                ..AppConfig::default()
            }),
            &[],
        )
        .unwrap(),
        Ok(LidState::Open),
    ));
    let disabled = disabled.advance(lease(true, 1), at(1));
    let disabled = disabled.advance(Event::ConfigLoaded(Err(AppError::Config("bad".into()))), at(1));
    assert_eq!(disabled.action(), Action::CheckShutdown);
}

#[test]
fn controller_stops_where_a_command_fails() {
    let controller = scanning().advance(found(0), at(71));
    assert_eq!(controller.action(), run(PowerCommand::AllowSleep));
    let controller = controller.advance(Event::CommandDone(Err(AppError::Io("no".into()))), at(71));
    assert_eq!(controller.phase, Phase::Leaving(Err(AppError::Io("no".into()))));
    let controller = controller.advance(done(), at(72));
    assert_eq!(controller.phase, Phase::Finished(Err(AppError::Io("no".into()))));
}

#[test]
fn first_matches_are_named() {
    let matches: Vec<ProcessMatch> = (1..8)
        .map(|pid| ProcessMatch {
            pid,
            command: format!("agent {pid}"),
        })
        .collect();
    let lines = log_process_matches(&matches);
    assert_eq!(lines.len(), 6);
    assert_eq!(lines[0], "process match: pid=1 agent 1");
    assert_eq!(lines[4], "process match: pid=5 agent 5");
    assert_eq!(lines[5], "process match: ... 2 more");
    assert_eq!(log_process_matches(&matches[..5].to_vec()).len(), 5);
    assert!(log_process_matches(&Vec::new()).is_empty());
}

fn named(count: u32) -> Vec<ProcessMatch> {
    let Event::ProcessesFound(Ok(matches)) = found(count) else {
        panic!("processes were found");
    };
    matches
}

#[test]
fn looks_at_the_processes_are_noted() {
    let delay = ClosedSleepState::Delay(at(1));
    let grace = ClosedSleepState::ProcessExitGrace(at(1));
    let waiting = ClosedSleepState::WaitingForProcesses { last_count: 2 };
    let none = |state: ClosedSleepState| scan_notes(state, &Vec::new());
    assert_eq!(none(delay), ["delay elapsed; no matching processes; forcing system sleep"]);
    assert_eq!(none(waiting), ["matching processes exited; starting process exit grace timer"]);
    assert_eq!(none(grace), ["process exit grace elapsed; forcing system sleep"]);
    assert_eq!(
        scan_notes(delay, &named(1)),
        [
            "delay elapsed; waiting for matching processes (1)",
            "process match: pid=0 agent"
        ]
    );
    assert_eq!(
        scan_notes(grace, &named(1)),
        [
            "matching processes restarted during grace; waiting again (1)",
            "process match: pid=0 agent"
        ]
    );
    assert_eq!(scan_notes(waiting, &named(2)), Vec::<String>::new());
    let many = scan_notes(waiting, &named(12));
    assert_eq!(many[0], "still waiting for matching processes (12)");
    assert_eq!(many.len(), 7);
    assert_eq!(many[6], "process match: ... 7 more");
}

/// The notes on an event, before and after the controller goes on with it.
fn notes(controller: Controller, event: Event, seconds: u64) -> (Controller, Vec<String>, Vec<String>) {
    let said = event_notes(&controller, &event);
    let before = seen(&controller, &event);
    let after = controller.advance(event, at(seconds));
    let changed = change_notes(before, &after);
    (after, said, changed)
}

fn nothing() -> Vec<String> {
    Vec::new()
}

#[test]
fn controller_says_what_it_does() {
    assert_eq!(
        start_note(&parsed(&["--dry-run", "--delay-seconds", "90"]).unwrap(), LidState::Closed),
        "starting; enabled=true; lid=Closed; delay=90s; poll=1s; dry_run=true"
    );
    let controller = polled(Controller::new(waiting_config(), Ok(LidState::Open)));
    let (controller, said, changed) = notes(controller, lease(true, 1), 0);
    assert_eq!((said, changed), (nothing(), nothing()));
    let (controller, said, changed) = notes(controller, Event::ConfigLoaded(Ok(waiting_file())), 0);
    assert_eq!(said, nothing());
    assert_eq!(
        changed,
        [
            "configuration reloaded; enabled=true; delay=60s; poll=1s; process_wait=true; exit_grace=20s",
            "app lease active; enabling delayed lid-close control"
        ]
    );
    let controller = controller.advance(done(), at(0));
    let (controller, _, changed) = notes(controller, Event::LidRead(Ok(LidState::Closed)), 10);
    assert_eq!(changed, ["lid closed; sleeping display and starting delay timer"]);
    let (controller, said, changed) = notes(controller, Event::CommandDone(Err(AppError::RootRequired)), 10);
    assert_eq!(
        said,
        [format!("failed to sleep display: {}", AppError::RootRequired.message())]
    );
    assert_eq!(changed, nothing());
    let controller = polled(controller).advance(lease(true, 2), at(11));
    let (controller, said, changed) =
        notes(controller, Event::ConfigLoaded(Err(AppError::Config("bad".into()))), 11);
    assert_eq!(
        said,
        [format!(
            "reload rejected; keeping previous configuration: {}",
            AppError::Config("bad".into()).message()
        )]
    );
    assert_eq!(changed, nothing());
    let (controller, said, _) = notes(controller, Event::LidRead(Err(AppError::Iokit("gone".into()))), 12);
    assert_eq!(
        said,
        [format!(
            "failed to read lid state: {}",
            AppError::Iokit("gone".into()).message()
        )]
    );
    let controller = polled(controller).advance(lease(true, 3), at(13));
    let (controller, _, changed) = notes(controller, Event::ConfigLoaded(Ok(AppConfig::default())), 13);
    assert_eq!(
        changed,
        [
            "configuration reloaded; enabled=true; delay=60s; poll=1s; process_wait=false; exit_grace=300s",
            "configuration changed while lid closed; restarting delay timer"
        ]
    );
    let (controller, _, changed) = notes(controller, Event::LidRead(Ok(LidState::Closed)), 73);
    assert_eq!(changed, ["delay elapsed while lid remained closed; forcing system sleep"]);
    let controller = controller
        .advance(done(), at(73))
        .advance(done(), at(73))
        .advance(Event::Waited, at(78))
        .advance(done(), at(78));
    let controller = polled(controller).advance(lease(true, 3), at(79));
    let (controller, _, changed) = notes(controller, Event::LidRead(Ok(LidState::Open)), 79);
    assert_eq!(changed, ["lid opened; canceling delay timer and process wait state"]);
    let (controller, said, _) = notes(controller, Event::CommandDone(Err(AppError::RootRequired)), 79);
    assert_eq!(
        said,
        [format!("failed to wake display: {}", AppError::RootRequired.message())]
    );
    let (controller, _, changed) = notes(polled(controller), Event::LeaseRead(Ok(None)), 80);
    assert_eq!(changed, ["app lease inactive; restoring normal lid-close sleep"]);
    let controller = controller.advance(done(), at(80));
    let (controller, said, changed) = notes(controller, Event::ShutdownChecked(true), 81);
    assert_eq!(said, ["shutting down"]);
    assert_eq!(changed, nothing());
    let (controller, said, _) = notes(controller, Event::CommandDone(Err(AppError::RootRequired)), 81);
    assert_eq!(
        said,
        [format!(
            "failed to restore SleepDisabled state: {}",
            AppError::RootRequired.message()
        )]
    );
    assert_eq!(controller.action(), Action::Finish);
}

#[test]
fn looks_that_fail_and_kept_overrides_are_noted() {
    let (controller, said, changed) = notes(
        scanning(),
        Event::ProcessesFound(Err(SystemError::Command("no".into()))),
        71,
    );
    assert_eq!(
        said,
        [format!(
            "failed to inspect processes: {}",
            SystemError::Command("no".into()).message()
        )]
    );
    assert_eq!(changed, nothing());
    let (_, said, changed) = notes(next_scan(controller, 72), found(0), 72);
    assert_eq!(said, ["delay elapsed; no matching processes; forcing system sleep"]);
    assert_eq!(changed, nothing());

    const KEPT: &str = "leaving battery SleepDisabled enabled because --keep-disabled-on-exit was set";
    let keeping = parsed(&["--keep-disabled-on-exit"]).unwrap();
    let controller = polled(in_control(keeping, AppConfig::default()));
    let (controller, _, changed) = notes(controller, Event::LeaseRead(Ok(None)), 1);
    assert_eq!(changed, ["app lease inactive; restoring normal lid-close sleep", KEPT]);
    let (controller, said, changed) = notes(controller, Event::ShutdownChecked(true), 2);
    assert_eq!(said, ["shutting down"]);
    assert_eq!(changed, [KEPT]);
    assert_eq!(controller.action(), Action::Finish);
}
