use no_sleep_till_done::command::CommandOutput;
use no_sleep_till_done::power::{CommandError, CommandFailure, PowerCommand};
use no_sleep_till_done::quit::{
    refresh_active_lease, request_controller_reset, FileStep, QuitStep, QUIT_TRIES, QUIT_WAIT_MILLIS,
};
use no_sleep_till_done::service::{
    background_service_action_text, bundled_path, bundled_resources_dir, ensure_privileged_services, files_equal,
    installed_path, legacy_path, privileged_failure, run_privileged_shell, same_status, service_status_text,
    system_service, Answer, ServiceStatus, ServiceStep,
};
use no_sleep_till_done::time::{Moment, Span};
use no_sleep_till_done::watchdog::{
    check_privilege, controller_running, parse_args, watchdog_error, Watchdog, WatchdogAction, WatchdogConfig,
    WatchdogError, WatchdogEvent, WatchdogPhase,
};
use no_sleep_till_done::watchdog_notes::{check_note, command_note, end_note, start_note};
use no_sleep_till_done::LeaseRecord;

/// How the system stands.
struct World {
    installed: [bool; 4],
    legacy: [bool; 4],
    legacy_runs: [bool; 2],
    resources: Option<&'static str>,
    same: [Option<bool>; 4],
    runs: [bool; 2],
}

fn healthy() -> World {
    World {
        installed: [true; 4],
        legacy: [false; 4],
        legacy_runs: [false; 2],
        resources: None,
        same: [Some(true); 4],
        runs: [true; 2],
    }
}

fn yes_or_no(truth: bool) -> Answer {
    if truth {
        Answer::Yes
    } else {
        Answer::No
    }
}

fn status(world: &World) -> ServiceStatus {
    let mut step = ServiceStep::first();
    loop {
        let answer = match &step {
            ServiceStep::Installed { index, .. } => yes_or_no(world.installed[*index]),
            ServiceStep::LegacyInstalled { index } => yes_or_no(world.legacy[*index]),
            ServiceStep::LegacyControllerRuns => yes_or_no(world.legacy_runs[0]),
            ServiceStep::LegacyWatchdogRuns => yes_or_no(world.legacy_runs[1]),
            ServiceStep::Resources => match world.resources {
                Some(reason) => Answer::Failed(reason.into()),
                None => Answer::Yes,
            },
            ServiceStep::Compare { index } => match world.same[*index] {
                Some(truth) => yes_or_no(truth),
                None => Answer::Failed(format!("file {index}")),
            },
            ServiceStep::ControllerRuns => yes_or_no(world.runs[0]),
            ServiceStep::WatchdogRuns => yes_or_no(world.runs[1]),
            ServiceStep::Done(_) => Answer::Yes,
        };
        step = match step {
            ServiceStep::Done(status) => return status,
            other => other.background_service_status(answer),
        };
    }
}

#[test]
fn services_in_order_are_ready() {
    assert_eq!(status(&healthy()), ServiceStatus::Ready);
}

#[test]
fn services_that_are_not_installed() {
    let none = World {
        installed: [false; 4],
        runs: [false; 2],
        ..healthy()
    };
    assert_eq!(status(&none), ServiceStatus::Missing);
    for index in 0..4 {
        let mut legacy = [false; 4];
        legacy[index] = true;
        assert_eq!(
            status(&World {
                installed: [false; 4],
                legacy,
                ..healthy()
            }),
            ServiceStatus::UpdateRequired
        );
        let mut installed = [true; 4];
        installed[index] = false;
        assert_eq!(
            status(&World { installed, ..healthy() }),
            ServiceStatus::RepairRequired("installed files are incomplete".into())
        );
    }
    for index in 0..2 {
        let mut legacy_runs = [false; 2];
        legacy_runs[index] = true;
        assert_eq!(
            status(&World {
                installed: [false; 4],
                legacy_runs,
                ..healthy()
            }),
            ServiceStatus::UpdateRequired
        );
    }
}

#[test]
fn services_that_differ_or_do_not_run() {
    assert_eq!(
        status(&World {
            resources: Some("nowhere"),
            ..healthy()
        }),
        ServiceStatus::Error("nowhere".into())
    );
    assert_eq!(
        status(&World {
            same: [Some(true), Some(true), Some(false), None],
            ..healthy()
        }),
        ServiceStatus::UpdateRequired
    );
    assert_eq!(
        status(&World {
            same: [Some(true), None, Some(false), Some(true)],
            ..healthy()
        }),
        ServiceStatus::Error("file 1".into())
    );
    assert_eq!(
        status(&World {
            runs: [false, true],
            ..healthy()
        }),
        ServiceStatus::RepairRequired("controller is not running".into())
    );
    assert_eq!(
        status(&World {
            runs: [true, false],
            ..healthy()
        }),
        ServiceStatus::RepairRequired("safety watchdog is not running".into())
    );
}

#[test]
fn services_have_their_words() {
    let repair = ServiceStatus::RepairRequired("x".into());
    let error = ServiceStatus::Error("x".into());
    assert_eq!(background_service_action_text(&repair), Some("Repair Background Service..."));
    assert_eq!(background_service_action_text(&error), Some("Repair Background Service..."));
    assert_eq!(
        background_service_action_text(&ServiceStatus::UpdateRequired),
        Some("Update Background Service...")
    );
    assert_eq!(
        background_service_action_text(&ServiceStatus::Installing),
        Some("Installing Background Service...")
    );
    assert_eq!(service_status_text(&ServiceStatus::Missing), "background service not installed");
    assert_eq!(service_status_text(&repair), "background service needs repair: x");
    assert_eq!(
        service_status_text(&ServiceStatus::UpdateRequired),
        "background service update available"
    );
    assert_eq!(service_status_text(&ServiceStatus::Installing), "installing background service");
    assert_eq!(service_status_text(&ServiceStatus::Ready), "background service ready");
    assert_eq!(service_status_text(&error), "background service status failed: x");
    assert!(same_status(&repair, &repair.clone()));
    assert!(!same_status(&repair, &error));
    assert!(!same_status(&repair, &ServiceStatus::RepairRequired("y".into())));
    assert!(same_status(&error, &error.clone()));
    assert!(same_status(&ServiceStatus::Missing, &ServiceStatus::Missing));
    assert!(!same_status(&ServiceStatus::Missing, &ServiceStatus::Ready));
}

#[test]
fn service_files_have_their_places() {
    assert_eq!(installed_path(0), "/usr/local/sbin/no-sleep-till-done");
    assert_eq!(installed_path(1), "/usr/local/sbin/no-sleep-till-done-watchdog");
    assert_eq!(
        installed_path(2),
        "/Library/LaunchDaemons/com.evren.nosleeptilldone.plist"
    );
    assert_eq!(
        installed_path(3),
        "/Library/LaunchDaemons/com.evren.nosleeptilldone.watchdog.plist"
    );
    assert_eq!(legacy_path(0), "/usr/local/sbin/lidsleep-delay");
    assert_eq!(legacy_path(1), "/usr/local/sbin/lidsleep-delay-watchdog");
    assert_eq!(legacy_path(2), "/Library/LaunchDaemons/com.evren.lidsleep-delay.plist");
    assert_eq!(
        legacy_path(3),
        "/Library/LaunchDaemons/com.evren.lidsleep-delay-watchdog.plist"
    );
    assert_eq!(bundled_path("/r", 0), "/r/no-sleep-till-done");
    assert_eq!(bundled_path("/r", 1), "/r/no-sleep-till-done-watchdog");
    assert_eq!(bundled_path("/r", 2), "/r/launchd/com.evren.nosleeptilldone.plist");
    assert_eq!(
        bundled_path("/r", 3),
        "/r/launchd/com.evren.nosleeptilldone.watchdog.plist"
    );
    assert_eq!(
        bundled_resources_dir("/Applications/A.app/Contents/MacOS/menubar"),
        Ok("/Applications/A.app/Contents/Resources".to_string())
    );
    assert_eq!(
        bundled_resources_dir("/"),
        Err("current executable has no parent directory")
    );
    assert_eq!(bundled_resources_dir("/menubar"), Err("app Contents directory not found"));
    assert_eq!(system_service("label"), "system/label");
    assert!(files_equal(b"abc", b"abc"));
    assert!(!files_equal(b"abc", b"abd"));
    assert!(!files_equal(b"abc", b"ab"));
}

#[test]
fn services_are_installed_by_a_script() {
    let script = ensure_privileged_services("/it's", [true; 4]).unwrap();
    let expected = "\
install -m 755 '/it'\\''s/no-sleep-till-done' /usr/local/sbin/no-sleep-till-done
install -m 755 '/it'\\''s/no-sleep-till-done-watchdog' /usr/local/sbin/no-sleep-till-done-watchdog
install -m 644 '/it'\\''s/launchd/com.evren.nosleeptilldone.plist' /Library/LaunchDaemons/com.evren.nosleeptilldone.plist
install -m 644 '/it'\\''s/launchd/com.evren.nosleeptilldone.watchdog.plist' /Library/LaunchDaemons/com.evren.nosleeptilldone.watchdog.plist
launchctl bootout system /Library/LaunchDaemons/com.evren.nosleeptilldone.plist >/dev/null 2>&1 || true
launchctl bootout system /Library/LaunchDaemons/com.evren.nosleeptilldone.watchdog.plist >/dev/null 2>&1 || true
bounded_launchctl 10 bootstrap system /Library/LaunchDaemons/com.evren.nosleeptilldone.plist
bounded_launchctl 10 bootstrap system /Library/LaunchDaemons/com.evren.nosleeptilldone.watchdog.plist
launchctl enable system/com.evren.nosleeptilldone
launchctl enable system/com.evren.nosleeptilldone.watchdog
launchctl bootout system /Library/LaunchDaemons/com.evren.lidsleep-delay.plist >/dev/null 2>&1 || true
launchctl bootout system /Library/LaunchDaemons/com.evren.lidsleep-delay-watchdog.plist >/dev/null 2>&1 || true
rm -f /Library/LaunchDaemons/com.evren.lidsleep-delay.plist
rm -f /Library/LaunchDaemons/com.evren.lidsleep-delay-watchdog.plist
rm -f /usr/local/sbin/lidsleep-delay
rm -f /usr/local/sbin/lidsleep-delay-watchdog
sleep 1
";
    assert_eq!(script, expected);
    assert_eq!(
        ensure_privileged_services("/r", [true, true, false, false]),
        Err("bundled background service resource missing: /r/launchd/com.evren.nosleeptilldone.plist".to_string())
    );
    assert_eq!(
        ensure_privileged_services("/r", [false; 4]),
        Err("bundled background service resource missing: /r/no-sleep-till-done".to_string())
    );
}

#[test]
fn scripts_are_handed_to_the_administrator() {
    let expected = "\
bounded_launchctl() {
  seconds=\"$1\"
  shift
  launchctl \"$@\" &
  pid=\"$!\"
  elapsed=0
  while kill -0 \"$pid\" >/dev/null 2>&1; do
    if [ \"$elapsed\" -ge \"$seconds\" ]; then
      kill -TERM \"$pid\" >/dev/null 2>&1 || true
      sleep 1
      kill -KILL \"$pid\" >/dev/null 2>&1 || true
      wait \"$pid\" >/dev/null 2>&1 || true
      echo \"launchctl $* timed out\" >&2
      return 124
    fi
    sleep 1
    elapsed=$((elapsed + 1))
  done
  wait \"$pid\"
}
pmset -b disablesleep 0"
        .replace('"', "\\\"");
    assert_eq!(
        run_privileged_shell("pmset -b disablesleep 0"),
        format!("do shell script \"{expected}\" with administrator privileges")
    );
    assert_eq!(
        privileged_failure("exit status: 1"),
        "administrator command failed with exit status: 1"
    );
}

#[test]
fn lease_is_written_under_both_names() {
    let steps = refresh_active_lease(LeaseRecord {
        enabled: false,
        reload_generation: 3,
    });
    let text = Some("active\nenabled=false\nreload_generation=3\n".to_string());
    assert_eq!(
        steps,
        vec![
            FileStep {
                path: "/tmp/com.evren.nosleeptilldone.active",
                text: text.clone(),
                required: true
            },
            FileStep {
                path: "/tmp/com.evren.lidsleep-delay.active",
                text,
                required: false
            },
        ]
    );
}

#[test]
fn reset_is_requested_under_both_names() {
    let steps = request_controller_reset();
    assert_eq!(steps.len(), 4);
    assert_eq!(steps[0].path, "/tmp/com.evren.nosleeptilldone.active");
    assert_eq!(steps[1].path, "/tmp/com.evren.lidsleep-delay.active");
    assert_eq!(steps[0].text, None);
    assert_eq!(steps[1].text, None);
    assert_eq!(steps[2].path, "/tmp/com.evren.nosleeptilldone.reset");
    assert_eq!(steps[2].text.as_deref(), Some("reset\n"));
    assert_eq!(steps[3].path, "/tmp/com.evren.lidsleep-delay.reset");
    assert_eq!(steps[3].text.as_deref(), Some("reset\n"));
    let required: Vec<bool> = steps.iter().map(|step| step.required).collect();
    assert_eq!(required, vec![true, false, true, false]);
}

#[test]
fn leaving_waits_and_then_forces() {
    assert_eq!((QUIT_TRIES, QUIT_WAIT_MILLIS), (10, 500));
    let mut step = QuitStep::first();
    for _ in 0..9 {
        step = step.ensure_sleep_restored_after_quit(Some(true));
        assert!(matches!(step, QuitStep::Wait { .. }));
    }
    assert_eq!(step.ensure_sleep_restored_after_quit(Some(false)), QuitStep::Restored);
    step = step.ensure_sleep_restored_after_quit(None);
    assert_eq!(step, QuitStep::Force);
    assert_eq!(step.ensure_sleep_restored_after_quit(Some(false)), QuitStep::Force);
    assert_eq!(
        QuitStep::first().ensure_sleep_restored_after_quit(Some(false)),
        QuitStep::Restored
    );
}

fn at(seconds: u64) -> Moment {
    Moment {
        nanos: u128::from(seconds) * 1_000_000_000,
    }
}

fn args(values: &[&str]) -> Vec<String> {
    values.iter().map(|value| value.to_string()).collect()
}

#[test]
fn watchdog_reads_its_command_line() {
    assert_eq!(
        parse_args(&[]),
        Ok(WatchdogConfig {
            interval: Span::from_secs(5),
            grace: Span::from_secs(20),
            dry_run: false,
            once: false
        })
    );
    assert_eq!(
        parse_args(&args(&["--interval-seconds", "2", "--grace-seconds", "9", "--dry-run", "--once"])),
        Ok(WatchdogConfig {
            interval: Span::from_secs(2),
            grace: Span::from_secs(9),
            dry_run: true,
            once: true
        })
    );
    let message = |values: &[&str]| match parse_args(&args(values)) {
        Err(WatchdogError::Cli(message)) => message,
        other => panic!("{other:?}"),
    };
    assert_eq!(message(&["--interval-seconds"]), "--interval-seconds requires a value");
    assert_eq!(message(&["--grace-seconds"]), "--grace-seconds requires a value");
    assert_eq!(
        message(&["--grace-seconds", "-1"]),
        "--grace-seconds must be a positive integer"
    );
    assert_eq!(
        message(&["--interval-seconds", "0"]),
        "--interval-seconds must be greater than zero"
    );
    let usage = "Usage: no-sleep-till-done-watchdog [OPTIONS]\n\nOptions:\n  --interval-seconds N      Seconds between controller checks [5]\n  --grace-seconds N         Seconds controller may be absent before repair [20]\n  --dry-run                 Log repair commands instead of changing power settings\n  --once                    Check once, then exit\n  -h, --help                Show this help\n";
    assert_eq!(message(&["-h"]), usage);
    assert_eq!(message(&["--help"]), usage);
    assert_eq!(message(&["what"]), format!("unknown argument: what\n\n{usage}"));
}

#[test]
fn watchdog_needs_the_administrator() {
    let config = parse_args(&[]).unwrap();
    assert_eq!(check_privilege(&config, 501), Err(WatchdogError::RootRequired));
    assert_eq!(check_privilege(&config, 0), Ok(()));
    assert_eq!(check_privilege(&parse_args(&args(&["--dry-run"])).unwrap(), 501), Ok(()));
    assert_eq!(
        WatchdogError::RootRequired.message(),
        "no-sleep-till-done-watchdog must run as root unless --dry-run is used"
    );
    assert_eq!(
        watchdog_error(CommandError::Io("gone".into())),
        WatchdogError::Io("gone".into())
    );
    let failure = CommandFailure {
        program: "p".into(),
        args: Vec::new(),
        code: Some(1),
        stderr: "why".into(),
    };
    assert_eq!(
        watchdog_error(CommandError::Failed(failure)).message(),
        "p  failed with Some(1): why"
    );
    assert_eq!(WatchdogError::Io("gone".into()).message(), "gone");
    assert_eq!(WatchdogError::Cli("help".into()).message(), "help");
}

#[test]
fn watchdog_asks_for_the_controller() {
    let output = |success: bool, stdout: &[u8]| {
        Ok(CommandOutput {
            success,
            code: None,
            stdout: stdout.to_vec(),
            stderr: Vec::new(),
        })
    };
    assert_eq!(controller_running(output(true, b"\tstate = running\n")), Ok(true));
    assert_eq!(controller_running(output(true, b"\tstate = waiting\n")), Ok(false));
    assert_eq!(controller_running(output(false, b"\tstate = running\n")), Ok(false));
    assert_eq!(
        controller_running(Err("missing".into())),
        Err(WatchdogError::Io("missing".into()))
    );
}

fn checked(running: bool) -> WatchdogEvent {
    WatchdogEvent::ControllerChecked(Ok(running))
}

fn next_check(watchdog: Watchdog, seconds: u64) -> Watchdog {
    assert_eq!(watchdog.action(), WatchdogAction::CheckShutdown);
    let watchdog = watchdog.advance(WatchdogEvent::ShutdownChecked(false), at(seconds));
    assert_eq!(watchdog.action(), WatchdogAction::Wait(Span::from_secs(5)));
    let watchdog = watchdog.advance(WatchdogEvent::Waited, at(seconds));
    assert_eq!(watchdog.action(), WatchdogAction::CheckController);
    watchdog
}

#[test]
fn watchdog_restores_sleep_after_the_grace() {
    let watchdog = Watchdog::new(parse_args(&[]).unwrap());
    assert_eq!(watchdog.action(), WatchdogAction::CheckController);
    let watchdog = next_check(watchdog.advance(checked(false), at(100)), 110);
    let watchdog = next_check(watchdog.advance(checked(true), at(110)), 115);
    assert_eq!(watchdog.missing_since, None);
    let watchdog = next_check(watchdog.advance(checked(false), at(115)), 134);
    let watchdog = next_check(watchdog.advance(checked(false), at(134)), 135);
    let watchdog = watchdog.advance(checked(false), at(135));
    assert_eq!(watchdog.missing_since, Some(at(115)));
    assert_eq!(watchdog.action(), WatchdogAction::Run(PowerCommand::AllowSleep));
    let watchdog = watchdog.advance(WatchdogEvent::CommandDone(Ok(())), at(136));
    let watchdog = next_check(watchdog, 140).advance(checked(false), at(140));
    assert_eq!(watchdog.action(), WatchdogAction::Run(PowerCommand::AllowSleep));
    let watchdog = watchdog.advance(
        WatchdogEvent::CommandDone(Err(WatchdogError::Io("no".into()))),
        at(141),
    );
    assert_eq!(
        watchdog.phase,
        WatchdogPhase::Finished(Err(WatchdogError::Io("no".into())))
    );
    assert_eq!(watchdog.action(), WatchdogAction::Finish);
}

#[test]
fn watchdog_ends() {
    let once = Watchdog::new(parse_args(&args(&["--once"])).unwrap()).advance(checked(true), at(0));
    let once = once.advance(WatchdogEvent::ShutdownChecked(false), at(0));
    assert_eq!(once.phase, WatchdogPhase::Finished(Ok(())));
    let told = Watchdog::new(parse_args(&[]).unwrap()).advance(checked(true), at(0));
    let told = told.advance(WatchdogEvent::ShutdownChecked(true), at(0));
    assert_eq!(told.phase, WatchdogPhase::Finished(Ok(())));
    let failed = Watchdog::new(parse_args(&[]).unwrap()).advance(
        WatchdogEvent::ControllerChecked(Err(WatchdogError::Io("no".into()))),
        at(0),
    );
    assert_eq!(
        failed.phase,
        WatchdogPhase::Finished(Err(WatchdogError::Io("no".into())))
    );
    let same = Watchdog::new(parse_args(&[]).unwrap()).advance(WatchdogEvent::Waited, at(0));
    assert_eq!(same.phase, WatchdogPhase::Checking);
}

#[test]
fn watchdog_says_what_it_does() {
    assert_eq!(
        start_note(&parse_args(&args(&["--interval-seconds", "7", "--dry-run"])).unwrap()),
        "starting; interval=7s; grace=20s; dry_run=true"
    );
    let watchdog = Watchdog::new(parse_args(&[]).unwrap());
    assert_eq!(
        check_note(&watchdog, &checked(true), at(100)).as_deref(),
        Some("controller is running")
    );
    assert_eq!(
        check_note(&watchdog, &checked(false), at(100)).as_deref(),
        Some("controller is not running; missing for 0s")
    );
    let failed = WatchdogEvent::ControllerChecked(Err(WatchdogError::Io("no".into())));
    assert_eq!(check_note(&watchdog, &failed, at(100)), None);
    let watchdog = next_check(watchdog.advance(checked(false), at(100)), 105);
    assert_eq!(
        check_note(&watchdog, &checked(false), at(112)).as_deref(),
        Some("controller is not running; missing for 12s")
    );
    assert_eq!(end_note(&watchdog), None);
    assert_eq!(end_note(&watchdog.advance(failed, at(113))), None);
    let once = Watchdog::new(parse_args(&args(&["--once"])).unwrap()).advance(checked(true), at(0));
    let once = once.advance(WatchdogEvent::ShutdownChecked(false), at(0));
    assert_eq!(end_note(&once).as_deref(), Some("shutting down"));
    assert_eq!(
        command_note(PowerCommand::AllowSleep, false).as_deref(),
        Some("/usr/bin/pmset -b disablesleep 0 succeeded")
    );
    assert_eq!(command_note(PowerCommand::AllowSleep, true), None);
}
