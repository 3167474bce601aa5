use no_sleep_till_done::command::{report_says_running, service_is_running, CommandOutput};
use no_sleep_till_done::registry::{read_root_domain_bool, Finding, ProbeStep};
use no_sleep_till_done::service::TASK_MARKER;
use no_sleep_till_done::system::{
    filter_processes, has_needle, matching_processes, parse_battery_state, parse_ps_line, process_table,
    read_battery_state, read_lid_state, read_sleep_disabled, LidState, PowerSource, ProcessInfo, ProcessMatch,
    SystemError,
};

fn output(success: bool, stdout: &[u8], stderr: &[u8]) -> CommandOutput {
    CommandOutput {
        success,
        code: Some(0),
        stdout: stdout.to_vec(),
        stderr: stderr.to_vec(),
    }
}

fn strings(values: &[&str]) -> Vec<String> {
    values.iter().map(|value| value.to_string()).collect()
}

#[test]
fn readings_of_the_lid() {
    assert_eq!(read_lid_state(Ok(true)), Ok(LidState::Closed));
    assert_eq!(read_lid_state(Ok(false)), Ok(LidState::Open));
    assert_eq!(
        read_lid_state(Err(SystemError::Iokit("x".into()))),
        Err(SystemError::Iokit("x".into()))
    );
    assert_eq!(read_sleep_disabled(Ok(true)), Ok(true));
    assert_eq!(
        read_sleep_disabled(Err(SystemError::CString("nul".into()))),
        Err(SystemError::CString("nul".into()))
    );
}

#[test]
fn system_errors_have_their_messages() {
    assert_eq!(SystemError::CString("a".into()).message(), "a");
    assert_eq!(SystemError::Iokit("b".into()).message(), "b");
    assert_eq!(SystemError::Command("c".into()).message(), "c");
    assert_eq!(SystemError::CommandFailed("d".into()).message(), "d");
}

#[test]
fn battery_reports_are_read() {
    let text = "Now drawing from 'Battery Power'\n -InternalBattery-0 (id=1234)\t83%; discharging; 4:10 remaining present: true\n";
    let state = parse_battery_state(text);
    assert_eq!(state.percent, Some(83));
    assert_eq!(state.source, PowerSource::Battery);
    assert!(!state.charging);
    assert_eq!(state.raw, text);
    let state = parse_battery_state("Now drawing from 'AC Power'\n 100%; charged; 0:00\n");
    assert_eq!(state.percent, Some(100));
    assert_eq!(state.source, PowerSource::AC);
    assert!(state.charging);
    assert!(parse_battery_state("50%; charging; x").charging);
    let state = parse_battery_state("");
    assert_eq!(state.percent, None);
    assert_eq!(state.source, PowerSource::Unknown);
}

#[test]
fn battery_charge_is_found_in_odd_reports() {
    assert_eq!(parse_battery_state("at 42% now").percent, Some(42));
    assert_eq!(parse_battery_state("x%; 30%;").percent, None);
    assert_eq!(parse_battery_state("12 x%; 30%;").percent, None);
    assert_eq!(parse_battery_state("12 % 999%;").percent, Some(12));
    assert_eq!(parse_battery_state("300%;").percent, None);
    assert_eq!(parse_battery_state("7").percent, Some(7));
    assert_eq!(parse_battery_state("+7%;").percent, Some(7));
}

#[test]
fn battery_command_may_fail() {
    let state = read_battery_state(Ok(output(true, b"9%; \xff", b""))).unwrap();
    assert_eq!(state.percent, Some(9));
    assert_eq!(state.raw, "9%; \u{fffd}");
    assert_eq!(
        read_battery_state(Ok(output(false, b"9%;", b" broken \n"))),
        Err(SystemError::CommandFailed("broken".into()))
    );
    assert_eq!(
        read_battery_state(Err("missing".into())),
        Err(SystemError::Command("missing".into()))
    );
}

#[test]
fn process_lines_are_read() {
    assert_eq!(
        parse_ps_line("  12 /bin/zsh -l "),
        Some(ProcessMatch {
            pid: 12,
            command: "/bin/zsh -l ".into()
        })
    );
    assert_eq!(parse_ps_line("12"), None);
    assert_eq!(parse_ps_line("12   "), None);
    assert_eq!(parse_ps_line("x zsh"), None);
    assert_eq!(parse_ps_line(""), None);
    assert_eq!(parse_ps_line("4294967296 zsh"), None);
}

#[test]
fn matching_processes_are_found() {
    let list = b"  1 /sbin/launchd\n 20 agent --run\n 21 other\n 22 my agent\nbad\n 23 \xff agent\n";
    let found = matching_processes(&strings(&["", "agent"]), Ok(output(true, list, b"")), 22).unwrap();
    assert_eq!(
        found,
        vec![
            ProcessMatch {
                pid: 20,
                command: "agent --run".into()
            },
            ProcessMatch {
                pid: 23,
                command: "\u{fffd} agent".into()
            },
        ]
    );
    assert_eq!(
        matching_processes(&strings(&["", ""]), Err("not run".into()), 1),
        Ok(Vec::new())
    );
    assert_eq!(matching_processes(&[], Err("not run".into()), 1), Ok(Vec::new()));
    assert_eq!(
        matching_processes(&strings(&["a"]), Err("missing".into()), 1),
        Err(SystemError::Command("missing".into()))
    );
    assert_eq!(
        matching_processes(&strings(&["a"]), Ok(output(false, b"", b" why\n")), 1),
        Err(SystemError::CommandFailed("why".into()))
    );
    assert!(!has_needle(&strings(&[""])));
    assert!(has_needle(&strings(&["", "x"])));
}

#[test]
fn process_table_is_read() {
    let list = b" 10 1 /bin/zsh\n 20 10 agent one\n 30 x no\n 40 1\n";
    let table = process_table(Ok(output(true, list, b""))).unwrap();
    assert_eq!(
        table,
        vec![
            ProcessInfo {
                pid: 10,
                ppid: 1,
                command: "/bin/zsh".into()
            },
            ProcessInfo {
                pid: 20,
                ppid: 10,
                command: "agent one".into()
            },
        ]
    );
    assert_eq!(
        filter_processes(&table, &strings(&["agent", "zsh"]), 10),
        vec![table[1].clone()]
    );
    assert!(filter_processes(&table, &strings(&[""]), 0).is_empty());
    assert_eq!(
        process_table(Err("missing".into())),
        Err(SystemError::Command("missing".into()))
    );
    assert_eq!(
        process_table(Ok(output(false, b"", b"why"))),
        Err(SystemError::CommandFailed("why".into()))
    );
}

#[test]
fn services_report_that_they_run() {
    assert!(report_says_running("a\n\tstate = running\nb"));
    assert!(!report_says_running("state = running now"));
    assert!(!report_says_running("last state = running"));
    assert!(service_is_running(&Some(output(true, b"x \xff\n state = running \r\n", b""))));
    assert!(!service_is_running(&Some(output(false, b"state = running", b""))));
    assert!(!service_is_running(&Some(output(true, b"state = waiting", b""))));
    assert!(!service_is_running(&None));
}

/// Runs a reading to its end; the last element says what was held on the way.
fn reading(answers: [bool; 5]) -> (Result<bool, SystemError>, [i32; 4]) {
    let mut step = ProbeStep::CreateMatcher;
    let mut held = [0, 0, 0, 0];
    loop {
        let answer = match &step {
            ProbeStep::CreateMatcher => answers[0],
            ProbeStep::FindService => answers[1],
            ProbeStep::CreateKey => answers[2],
            ProbeStep::ReadProperty => answers[3],
            ProbeStep::ReadFlag => answers[4],
            _ => false,
        };
        match &step {
            ProbeStep::CreateMatcher => held[0] += i32::from(answer),
            ProbeStep::FindService => {
                held[0] -= 1;
                held[1] += i32::from(answer);
            }
            ProbeStep::CreateKey => held[2] += i32::from(answer),
            ProbeStep::ReadProperty => held[3] += i32::from(answer),
            ProbeStep::ReleaseKey(_) => held[2] -= 1,
            ProbeStep::ReleaseService(_) => held[1] -= 1,
            ProbeStep::ReleaseValue(_) => held[3] -= 1,
            ProbeStep::ReadFlag => {}
            ProbeStep::Done(_) => {}
        }
        step = match step {
            ProbeStep::Done(result) => return (result, held),
            other => read_root_domain_bool(other, "SleepDisabled", answer),
        };
    }
}

#[test]
fn registry_readings_give_everything_back() {
    let message = |text: &str| Err(SystemError::Iokit(text.into()));
    let cases = [
        ([true, true, true, true, true], Ok(true)),
        ([true, true, true, true, false], Ok(false)),
        ([true, true, true, false, true], message("SleepDisabled property not found")),
        ([true, true, false, true, true], message("failed to create SleepDisabled key")),
        ([true, false, true, true, true], message("IOPMrootDomain not found")),
        (
            [false, true, true, true, true],
            message("failed to create IOPMrootDomain matcher"),
        ),
    ];
    for (answers, expected) in cases {
        assert_eq!(reading(answers), (expected, [0, 0, 0, 0]));
    }
}

#[test]
fn registry_steps_follow_their_answers() {
    assert_eq!(
        read_root_domain_bool(ProbeStep::ReleaseKey(true), "p", false),
        ProbeStep::ReleaseService(Finding::Value)
    );
    assert_eq!(
        read_root_domain_bool(ProbeStep::ReleaseKey(false), "p", true),
        ProbeStep::ReleaseService(Finding::NoValue)
    );
    assert_eq!(
        read_root_domain_bool(ProbeStep::Done(Ok(true)), "p", false),
        ProbeStep::Done(Ok(true))
    );
}

#[test]
fn marker_of_a_task_matches_no_program_of_the_application() {
    let list = b"10 /usr/local/sbin/no-sleep-till-done\n11 /usr/local/sbin/no-sleep-till-done-watchdog\n12 /Applications/No Sleep Till Done.app/Contents/MacOS/no-sleep-till-done-menubar\n13 agent nosleeptilldone\n14 agent NoSleepTillDone\n";
    let found = matching_processes(&strings(&[TASK_MARKER]), Ok(output(true, list, b"")), 1).unwrap();
    assert_eq!(found.len(), 1);
    assert_eq!(found[0].pid, 13);
}
