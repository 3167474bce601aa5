use no_sleep_till_done::config::{AppConfig, ProcessWaitConfig};
use no_sleep_till_done::menu::{
    controller_config_changed, process_wait_refresh_interval, process_wait_refresh_relevant, MenuBarApp, MenuCommand,
    MenuEntry, MenuUpdate, PROCESS_WAIT_REFRESH_SECONDS,
};
use no_sleep_till_done::menu_refresh::{ProcessScan, Readings, RefreshEvent, RefreshStep};
use no_sleep_till_done::process_menu::ProcessDisplayState;
use no_sleep_till_done::process_tree::{ProcessTree, ProcessTreeNode};
use no_sleep_till_done::service::{background_service_action_text, ServiceStatus};
use no_sleep_till_done::status::{MarkerMode, ProcessWaitStatus, StatusSnapshot};
use no_sleep_till_done::system::{BatteryState, LidState, PowerSource, ProcessInfo, SystemError};
use no_sleep_till_done::time::{Moment, Span};

const OWN_PID: u32 = 7;

fn at(seconds: u64) -> Moment {
    Moment {
        nanos: u128::from(seconds) * 1_000_000_000,
    }
}

fn process(pid: u32, ppid: u32, command: &str) -> ProcessInfo {
    ProcessInfo {
        pid,
        ppid,
        command: command.into(),
    }
}

fn pids(nodes: &[ProcessTreeNode]) -> Vec<u32> {
    nodes.iter().map(|node| node.process.pid).collect()
}

fn process_wait_config(command_substrings: &[&str]) -> ProcessWaitConfig {
    ProcessWaitConfig {
        enabled: true,
        command_substrings: command_substrings
            .iter()
            .map(|value| (*value).into())
            .collect(),
        exit_grace_seconds: 300,
    }
}

fn test_app() -> MenuBarApp {
    let config = AppConfig {
        process_wait: process_wait_config(&["agent"]),
        ..AppConfig::default()
    };
    MenuBarApp::new(
        config,
        "/tmp/no-sleep-till-done-test.toml".into(),
        1,
        ServiceStatus::Ready,
        OWN_PID,
        at(1000),
    )
}

fn no_scan() -> ProcessScan {
    panic!("the processes are not to be looked at");
}

#[test]
fn healthy_service_has_no_maintenance_action() {
    assert_eq!(background_service_action_text(&ServiceStatus::Ready), None);
    assert_eq!(
        background_service_action_text(&ServiceStatus::Missing),
        Some("Install Background Service...")
    );
}

#[test]
fn menu_only_config_changes_do_not_require_controller_reload() {
    let applied = AppConfig::default();
    let mut current = applied.clone();
    current.colors.ready = "lime".into();
    current.menu_refresh_seconds = 9;
    assert!(!controller_config_changed(&current, &applied));

    current.delay_seconds = 30;
    assert!(controller_config_changed(&current, &applied));
}

#[test]
fn each_controller_setting_requires_a_reload() {
    let applied = AppConfig::default();
    let mut current = applied.clone();
    current.enabled = false;
    assert!(controller_config_changed(&current, &applied));
    current = applied.clone();
    current.poll_seconds = 2;
    assert!(controller_config_changed(&current, &applied));
    current = applied.clone();
    current.process_wait.enabled = true;
    assert!(controller_config_changed(&current, &applied));
    current = applied.clone();
    current.process_wait.command_substrings.push("agent".into());
    assert!(controller_config_changed(&current, &applied));
    current = applied.clone();
    current.process_wait.exit_grace_seconds = 1;
    assert!(controller_config_changed(&current, &applied));
}

#[test]
fn process_wait_refresh_is_one_second_only_in_relevant_closed_lid_state() {
    let config = process_wait_config(&["agent"]);
    assert!(!process_wait_refresh_relevant(
        false,
        Some(LidState::Closed),
        true,
        &config
    ));
    assert!(!process_wait_refresh_relevant(
        true,
        Some(LidState::Open),
        true,
        &config
    ));
    assert!(!process_wait_refresh_relevant(
        true,
        Some(LidState::Closed),
        false,
        &config
    ));
    assert!(process_wait_refresh_relevant(
        true,
        Some(LidState::Closed),
        true,
        &config
    ));
    assert_eq!(
        process_wait_refresh_interval(true, Some(Span::zero()), 9),
        Span::from_secs(PROCESS_WAIT_REFRESH_SECONDS)
    );
    assert_eq!(
        process_wait_refresh_interval(false, None, 9),
        Span::from_secs(9)
    );
    assert_eq!(
        process_wait_refresh_interval(false, Some(Span::from_millis(250)), 5),
        Span::from_millis(250)
    );
    assert_eq!(
        process_wait_refresh_interval(false, Some(Span::from_secs(9)), 5),
        Span::from_secs(5)
    );
}

#[test]
fn refresh_interval_is_never_zero_by_configuration() {
    assert_eq!(process_wait_refresh_interval(false, None, 0), Span::from_secs(1));
    assert!(!process_wait_refresh_relevant(
        true,
        Some(LidState::Closed),
        true,
        &process_wait_config(&["", ""])
    ));
    assert!(!process_wait_refresh_relevant(true, None, true, &process_wait_config(&["agent"])));
}

#[test]
fn failed_process_scan_is_unavailable_and_does_not_start_grace() {
    let mut app = test_app();
    let now = at(1000);
    let result = app.process_wait_status_from_scan(
        Err(SystemError::CommandFailed("ps failed".into())),
        now,
        now,
    );

    assert_eq!(result, Some(ProcessWaitStatus::Unavailable));
    assert_eq!(app.process_display_state, ProcessDisplayState::Unavailable);
    assert!(!app.saw_process_wait_matches);
    assert!(app.process_grace_started.is_none());
}

#[test]
fn failed_process_scan_clears_old_display_but_preserves_existing_grace() {
    let mut app = test_app();
    let started = at(990);
    app.saw_process_wait_matches = true;
    app.process_grace_started = Some(started);
    app.process_display_state = ProcessDisplayState::Waiting(ProcessTree {
        match_count: 1,
        roots: vec![ProcessTreeNode {
            process: process(123, 1, "agent"),
            is_match: true,
            children: Vec::new(),
        }],
    });

    let result = app.process_wait_status_from_scan(
        Err(SystemError::CommandFailed("ps failed".into())),
        at(1000),
        at(1000),
    );

    assert_eq!(result, Some(ProcessWaitStatus::Unavailable));
    assert_eq!(app.process_display_state, ProcessDisplayState::Unavailable);
    assert_eq!(app.process_grace_started, Some(started));
}

#[test]
fn matching_process_reappearing_during_grace_restores_waiting_tree() {
    let mut app = test_app();
    app.last_lid = Some(LidState::Closed);
    app.lid_closed_since = Some(at(1000 - (app.applied_config.delay_seconds + 1)));
    app.saw_process_wait_matches = true;
    app.process_grace_started = Some(at(999));

    let result = app.process_wait_status_with_scan(Some(LidState::Closed), at(1000), at(1000), || ProcessScan {
        table: Ok(vec![process(4242, 1, "agent --reappeared")]),
        finished: at(1000),
    });

    let Some(ProcessWaitStatus::Waiting { tree }) = result else {
        panic!("a matching process during grace should restore waiting");
    };
    assert_eq!(tree.match_count, 1);
    assert_eq!(pids(&tree.roots), vec![4242]);
    assert_eq!(
        app.process_display_state,
        ProcessDisplayState::Waiting(tree)
    );
    assert!(app.process_grace_started.is_none());
}

#[test]
fn unavailable_status_does_not_fall_back_to_a_stale_count() {
    let snapshot = StatusSnapshot {
        battery: None,
        lid: Some(LidState::Closed),
        sleep_disabled: Some(true),
        remaining: None,
        process_wait: Some(ProcessWaitStatus::Unavailable),
        enabled: true,
        service_status: ServiceStatus::Ready,
        config_notice: None,
    };

    let status = snapshot.menu_status_text(&AppConfig::default());

    assert!(status.contains("process status unavailable"));
    assert!(!status.contains("waiting for"));
}

#[test]
fn grace_counts_down_from_the_first_look_without_processes() {
    let mut app = test_app();
    app.saw_process_wait_matches = true;
    let first = app.process_wait_status_from_scan(Ok(vec![process(3, 1, "other")]), at(1000), at(1001));
    assert_eq!(
        first,
        Some(ProcessWaitStatus::Grace {
            remaining: Span::from_secs(299)
        })
    );
    assert_eq!(app.process_display_state, ProcessDisplayState::Hidden);
    let second = app.process_wait_status_from_scan(Ok(Vec::new()), at(1100), at(1100));
    assert_eq!(
        second,
        Some(ProcessWaitStatus::Grace {
            remaining: Span::from_secs(200)
        })
    );
    assert_eq!(app.process_grace_started, Some(at(1000)));
    let third = app.process_wait_status_from_scan(Ok(Vec::new()), at(2000), at(2000));
    assert_eq!(
        third,
        Some(ProcessWaitStatus::Grace {
            remaining: Span::zero()
        })
    );
}

#[test]
fn own_process_is_not_waited_for() {
    let mut app = test_app();
    let result = app.process_wait_status_from_scan(Ok(vec![process(OWN_PID, 1, "agent")]), at(1000), at(1000));
    assert_eq!(result, None);
    assert!(!app.saw_process_wait_matches);
    assert!(app.process_grace_started.is_none());
}

#[test]
fn processes_are_looked_at_only_after_the_delay() {
    let mut app = test_app();
    app.lid_closed_since = Some(at(1000));
    app.process_display_state = ProcessDisplayState::Unavailable;
    assert_eq!(
        app.process_wait_status_with_scan(Some(LidState::Closed), at(1059), at(1059), no_scan),
        None
    );
    assert_eq!(app.process_display_state, ProcessDisplayState::Hidden);
    let looked = app.process_wait_status_with_scan(Some(LidState::Closed), at(1060), at(1060), || ProcessScan {
        table: Err(SystemError::Command("no ps".into())),
        finished: at(1061),
    });
    assert_eq!(looked, Some(ProcessWaitStatus::Unavailable));
}

#[test]
fn open_lid_or_disabled_application_forgets_the_waiting() {
    for (enabled, lid) in [(true, Some(LidState::Open)), (true, None), (false, Some(LidState::Closed))] {
        let mut app = test_app();
        app.enabled = enabled;
        app.lid_closed_since = Some(at(0));
        app.saw_process_wait_matches = true;
        app.process_grace_started = Some(at(10));
        app.process_display_state = ProcessDisplayState::Unavailable;
        assert_eq!(app.process_wait_status_with_scan(lid, at(1000), at(1000), no_scan), None);
        assert!(!app.saw_process_wait_matches);
        assert!(app.process_grace_started.is_none());
        assert_eq!(app.process_display_state, ProcessDisplayState::Hidden);
    }
}

#[test]
fn closed_lid_without_a_start_leaves_the_display() {
    let mut app = test_app();
    app.process_display_state = ProcessDisplayState::Unavailable;
    assert_eq!(
        app.process_wait_status_with_scan(Some(LidState::Closed), at(1000), at(1000), no_scan),
        None
    );
    assert_eq!(app.process_display_state, ProcessDisplayState::Unavailable);
}

fn readings(lid: Option<LidState>) -> Readings {
    Readings {
        lid,
        battery: None,
        sleep_disabled: Some(true),
    }
}

#[test]
fn snapshot_counts_the_delay_of_the_closed_lid() {
    let mut app = test_app();
    let first = app.snapshot(readings(Some(LidState::Closed)), at(1000), at(1000), no_scan);
    assert_eq!(first.remaining, Some(Span::from_secs(60)));
    assert_eq!(app.lid_closed_since, Some(at(1000)));
    assert_eq!(first.marker_mode(), MarkerMode::Timer);
    assert_eq!(
        first.menu_status_text(&app.applied_config),
        "battery unknown; lid closed, sleep in 60s; sleep override on; background service ready"
    );
    let second = app.snapshot(readings(Some(LidState::Closed)), at(1010), at(1011), no_scan);
    assert_eq!(second.remaining, Some(Span::from_secs(49)));
    assert_eq!(app.process_wait_delay_remaining(at(1011)), Some(Span::from_secs(49)));
    let third = app.snapshot(readings(None), at(1012), at(1012), no_scan);
    assert_eq!(third.remaining, None);
    assert_eq!(app.lid_closed_since, Some(at(1000)));
    let fourth = app.snapshot(readings(Some(LidState::Closed)), at(1020), at(1020), no_scan);
    assert_eq!(fourth.remaining, Some(Span::from_secs(60)));
    let fifth = app.snapshot(readings(Some(LidState::Open)), at(1021), at(1021), no_scan);
    assert_eq!(fifth.remaining, None);
    assert_eq!(app.lid_closed_since, None);
    assert_eq!(fifth.marker_mode(), MarkerMode::Ready);
    assert_eq!(app.process_wait_delay_remaining(at(1021)), None);
}

#[test]
fn snapshot_shows_processes_after_the_delay() {
    let mut app = test_app();
    app.config_notice = Some("a notice".into());
    let _ = app.snapshot(readings(Some(LidState::Closed)), at(1000), at(1000), no_scan);
    let snapshot = app.snapshot(readings(Some(LidState::Closed)), at(1060), at(1060), || ProcessScan {
        table: Ok(vec![process(20, 1, "agent"), process(30, 20, "agent")]),
        finished: at(1060),
    });
    assert_eq!(
        snapshot.menu_status_text(&app.applied_config),
        "battery unknown; lid closed, waiting for 2 processes; sleep override on; background service ready; a notice"
    );
    assert_eq!(snapshot.marker_mode(), MarkerMode::ProcessWait);
    assert_eq!(app.sync_process_menu(false), MenuUpdate::Rebuild);
    let entries = app.build_menu(false);
    assert!(matches!(&entries[1], MenuEntry::Processes(submenu) if submenu.title == "Waiting Processes (2)"));
    assert_eq!(app.sync_process_menu(false), MenuUpdate::Nothing);
    let _ = app.snapshot(readings(Some(LidState::Closed)), at(1061), at(1061), || ProcessScan {
        table: Ok(vec![process(20, 1, "agent")]),
        finished: at(1061),
    });
    let MenuUpdate::Processes(submenu) = app.sync_process_menu(false) else {
        panic!("a changed tree should be shown");
    };
    assert_eq!(submenu.title, "Waiting Processes (1)");
    assert_eq!(app.sync_process_menu(true), MenuUpdate::Rebuild);
}

#[test]
fn refresh_is_scheduled_by_what_is_going_on() {
    let mut app = test_app();
    app.schedule_refresh(at(1000));
    assert_eq!(app.next_refresh, at(1005));
    assert!(!app.refresh_is_due(at(1004)));
    assert!(app.refresh_is_due(at(1005)));
    app.last_lid = Some(LidState::Closed);
    app.lid_closed_since = Some(at(1000));
    app.schedule_refresh(at(1058));
    assert_eq!(app.next_refresh, at(1060));
    app.schedule_refresh(at(1060));
    assert_eq!(app.next_refresh, at(1061));
    app.enabled = false;
    app.schedule_refresh(at(1060));
    assert_eq!(app.next_refresh, at(1065));
}

#[test]
fn refresh_goes_through_its_steps() {
    let mut app = test_app();
    app.config_notice = Some("old".into());
    app.config_notice_until = Some(at(1005));
    let step = app.begin_refresh(at(1004));
    assert_eq!(app.config_notice.as_deref(), Some("old"));
    assert_eq!(step, RefreshStep::Messages { rebuild: false });
    let step = app.begin_refresh(at(1005));
    assert_eq!(app.config_notice, None);
    let step = app.refresh(step, RefreshEvent::Message(Some(ServiceStatus::Ready)), at(1005));
    assert_eq!(step, RefreshStep::Messages { rebuild: false });
    app.service_installing = true;
    let step = app.refresh(
        step,
        RefreshEvent::Message(Some(ServiceStatus::Error("no".into()))),
        at(1005),
    );
    assert!(!app.service_installing);
    assert_eq!(step, RefreshStep::Messages { rebuild: true });
    let step = app.refresh(step, RefreshEvent::Message(None), at(1005));
    assert_eq!(step, RefreshStep::WriteLease { rebuild: true });
    let step = app.refresh(step, RefreshEvent::LeaseWritten(Ok(())), at(1006));
    assert_eq!(app.next_lease_refresh, at(1011));
    assert_eq!(step, RefreshStep::LoadConfig { rebuild: true });
    let mut file = app.applied_config.clone();
    file.colors.ready = "lime".into();
    let step = app.refresh(
        step,
        RefreshEvent::ConfigLoaded(Ok((file, "/elsewhere".into()))),
        at(1006),
    );
    assert_eq!(step, RefreshStep::Show { rebuild: true });
    assert_eq!(app.config.colors.ready, "lime");
    assert_eq!(app.applied_config.colors.ready, "green");
    assert_eq!(app.config_path, "/elsewhere");
    assert_eq!(app.config_notice, None);
}

#[test]
fn refresh_notices_configuration_and_services() {
    let mut app = test_app();
    let step = app.begin_refresh(at(1015));
    let step = app.refresh(step, RefreshEvent::Message(None), at(1004));
    assert_eq!(step, RefreshStep::LoadConfig { rebuild: false });
    let mut file = app.applied_config.clone();
    file.delay_seconds = 5;
    let step = app.refresh(
        step,
        RefreshEvent::ConfigLoaded(Ok((file, "/tmp/x".into()))),
        at(1015),
    );
    assert_eq!(
        app.config_notice.as_deref(),
        Some("configuration changed; reload required")
    );
    assert_eq!(app.applied_config.delay_seconds, 60);
    assert_eq!(step, RefreshStep::CheckService { rebuild: false });
    let step = app.refresh(step, RefreshEvent::ServiceChecked(ServiceStatus::Missing), at(1016));
    assert_eq!(step, RefreshStep::Show { rebuild: true });
    assert_eq!(app.next_service_check, at(1031));
    let step = app.refresh(
        RefreshStep::LoadConfig { rebuild: false },
        RefreshEvent::ConfigLoaded(Err("bad".into())),
        at(1017),
    );
    assert_eq!(app.config_notice.as_deref(), Some("configuration error: bad"));
    assert_eq!(step, RefreshStep::Show { rebuild: false });
    let step = app.refresh(
        RefreshStep::WriteLease { rebuild: false },
        RefreshEvent::LeaseWritten(Err("full".into())),
        at(1017),
    );
    assert_eq!(step, RefreshStep::Failed("full".into()));
    let step = app.refresh(
        RefreshStep::Show { rebuild: true },
        RefreshEvent::Message(None),
        at(1017),
    );
    assert_eq!(step, RefreshStep::Show { rebuild: true });
}

#[test]
fn reload_applies_the_configuration_and_tells_the_controller() {
    let mut app = test_app();
    let file = AppConfig {
        enabled: false,
        ..AppConfig::default()
    };
    let lease = app.reload_configuration(file, "/tmp/y".into());
    assert!(!lease.enabled);
    assert_eq!(lease.reload_generation, 2);
    assert!(!app.enabled);
    assert_eq!(app.lease(), lease);
    app.reload_finished(at(2000));
    assert_eq!(app.config_notice.as_deref(), Some("configuration reload requested"));
    assert_eq!(app.config_notice_until, Some(at(2010)));
    assert_eq!(app.next_lease_refresh, at(2005));
    app.reload_generation = u64::MAX;
    assert_eq!(
        app.reload_configuration(AppConfig::default(), String::new())
            .reload_generation,
        0
    );
    app.set_app_enabled(true, at(2000));
    assert_eq!(app.config_notice.as_deref(), Some("No Sleep Till Done enabled"));
    app.set_app_enabled(false, at(2000));
    assert_eq!(app.config_notice.as_deref(), Some("No Sleep Till Done disabled"));
    app.set_app_enabled_failed("disk full");
    assert_eq!(
        app.config_notice.as_deref(),
        Some("failed to change enabled state: disk full")
    );
    assert_eq!(app.config_notice_until, None);
    app.reload_failed("not found");
    assert_eq!(app.config_notice.as_deref(), Some("configuration error: not found"));
}

#[test]
fn service_setup_starts_once() {
    let mut app = test_app();
    assert!(app.start_background_service_setup());
    assert!(app.service_installing);
    assert_eq!(app.service_status, ServiceStatus::Installing);
    assert!(!app.start_background_service_setup());
}

fn entry(id: &'static str, label: &str) -> MenuEntry {
    MenuEntry::Item {
        id: Some(id),
        label: label.into(),
        enabled: true,
    }
}

#[test]
fn menu_of_a_healthy_application() {
    let mut app = test_app();
    assert_eq!(
        app.build_menu(true),
        vec![
            MenuEntry::Item {
                id: None,
                label: "Loading status".into(),
                enabled: false
            },
            MenuEntry::Separator,
            MenuEntry::Check {
                id: "enabled",
                label: "No Sleep Till Done Enabled".into(),
                checked: true
            },
            entry("reload-config", "Reload Configuration"),
            entry("open-config", "Open Configuration..."),
            entry("start-at-login", "Start at Login: On"),
            MenuEntry::Separator,
            entry("quit", "Quit"),
        ]
    );
}

#[test]
fn menu_of_an_application_in_trouble() {
    let mut app = test_app();
    app.enabled = false;
    app.service_status = ServiceStatus::Installing;
    app.process_display_state = ProcessDisplayState::Unavailable;
    let entries = app.build_menu(false);
    assert_eq!(entries.len(), 10);
    assert_eq!(
        entries[1],
        MenuEntry::Item {
            id: None,
            label: "Waiting Processes: unavailable".into(),
            enabled: false
        }
    );
    assert_eq!(
        entries[6],
        MenuEntry::Item {
            id: Some("background-service"),
            label: "Installing Background Service...".into(),
            enabled: false
        }
    );
    assert_eq!(entries[7], entry("start-at-login", "Start at Login: Off"));
    assert_eq!(app.last_process_display_state, ProcessDisplayState::Unavailable);
    app.service_status = ServiceStatus::Missing;
    assert_eq!(
        app.build_menu(false)[6],
        entry("background-service", "Install Background Service...")
    );
}

#[test]
fn menu_items_ask_for_their_commands() {
    let app = test_app();
    assert_eq!(app.handle_menu_event("open-config"), Some(MenuCommand::OpenConfig));
    assert_eq!(app.handle_menu_event("enabled"), Some(MenuCommand::SetEnabled(false)));
    assert_eq!(app.handle_menu_event("reload-config"), Some(MenuCommand::ReloadConfig));
    assert_eq!(
        app.handle_menu_event("background-service"),
        Some(MenuCommand::SetUpService)
    );
    assert_eq!(app.handle_menu_event("start-at-login"), Some(MenuCommand::ToggleLogin));
    assert_eq!(app.handle_menu_event("quit"), Some(MenuCommand::Quit));
    assert_eq!(app.handle_menu_event("other"), None);
}

#[test]
fn status_line_has_its_words() {
    let battery = BatteryState {
        percent: Some(83),
        source: PowerSource::AC,
        charging: true,
        raw: String::new(),
    };
    let snapshot = StatusSnapshot {
        battery: Some(battery),
        lid: Some(LidState::Open),
        sleep_disabled: Some(false),
        remaining: None,
        process_wait: None,
        enabled: false,
        service_status: ServiceStatus::RepairRequired("reason".into()),
        config_notice: None,
    };
    let config = AppConfig::default();
    assert_eq!(
        snapshot.tooltip_text(&config, "/tmp/config.toml"),
        "83 on AC, charging; No Sleep Till Done disabled; normal sleep restored; background service needs repair: reason\nConfig: /tmp/config.toml"
    );
    assert_eq!(snapshot.marker_mode(), MarkerMode::Unknown);
    let closed = StatusSnapshot {
        battery: Some(BatteryState {
            percent: None,
            source: PowerSource::Unknown,
            charging: false,
            raw: String::new(),
        }),
        lid: Some(LidState::Closed),
        sleep_disabled: Some(false),
        remaining: None,
        process_wait: Some(ProcessWaitStatus::Grace {
            remaining: Span::from_millis(2999),
        }),
        enabled: true,
        service_status: ServiceStatus::Error("why".into()),
        config_notice: None,
    };
    assert_eq!(
        closed.menu_status_text(&config),
        "-- on power unknown; lid closed, process grace 2s; sleep override off; background service status failed: why"
    );
    assert_eq!(closed.marker_mode(), MarkerMode::Error);
    assert_eq!(closed.battery_percent_text(), "--");
    let unknown = StatusSnapshot {
        battery: None,
        lid: None,
        sleep_disabled: None,
        remaining: None,
        process_wait: None,
        enabled: true,
        service_status: ServiceStatus::UpdateRequired,
        config_notice: Some("notice".into()),
    };
    assert_eq!(
        unknown.menu_status_text(&config),
        "battery unknown; lid unknown; sleep override unknown; background service update available; notice"
    );
    assert_eq!(unknown.marker_mode(), MarkerMode::Unknown);
}
