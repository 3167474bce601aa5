use no_sleep_till_done::lease::{app_lease, lease_is_fresh, next_reload_generation};
use no_sleep_till_done::{
    LeaseRecord, APP_ACTIVE_LEASE_PATH, CONTROLLER_RESET_REQUEST_PATH, LEASE_TIMEOUT_SECONDS,
};

#[test]
fn legacy_lease_remains_enabled() {
    assert_eq!(
        LeaseRecord::parse("active\n"),
        Some(LeaseRecord {
            enabled: true,
            reload_generation: 0,
        })
    );
}

#[test]
fn lease_round_trip_preserves_control_state() {
    let record = LeaseRecord {
        enabled: false,
        reload_generation: 42,
    };
    assert_eq!(LeaseRecord::parse(&record.serialize()), Some(record));
}

#[test]
fn lease_text_is_exact() {
    let record = LeaseRecord {
        enabled: true,
        reload_generation: u64::MAX,
    };
    assert_eq!(
        record.serialize(),
        "active\nenabled=true\nreload_generation=18446744073709551615\n"
    );
    assert_eq!(LeaseRecord::parse(&record.serialize()), Some(record));
}

#[test]
fn lease_without_its_first_line_is_none() {
    assert_eq!(LeaseRecord::parse(""), None);
    assert_eq!(LeaseRecord::parse("inactive\nenabled=true\n"), None);
    assert_eq!(LeaseRecord::parse("\nactive\n"), None);
}

#[test]
fn lease_lines_may_be_odd() {
    assert_eq!(
        LeaseRecord::parse("  active \r\n enabled = yes\r\nno key\nother=1\nreload_generation = +7 \n"),
        Some(LeaseRecord {
            enabled: false,
            reload_generation: 7,
        })
    );
    assert_eq!(
        LeaseRecord::parse("active\nenabled=false\nenabled=true"),
        Some(LeaseRecord {
            enabled: true,
            reload_generation: 0,
        })
    );
    assert_eq!(LeaseRecord::parse("active\nreload_generation=-1\n"), None);
    assert_eq!(
        LeaseRecord::parse("active\nreload_generation=18446744073709551616\n"),
        None
    );
    assert_eq!(LeaseRecord::parse("active\nreload_generation=\n"), None);
}

#[test]
fn lease_lasts_for_its_timeout() {
    assert_eq!(LEASE_TIMEOUT_SECONDS, 15);
    assert!(lease_is_fresh(0));
    assert!(lease_is_fresh(15_000_000_000));
    assert!(!lease_is_fresh(15_000_000_001));
}

#[test]
fn generation_follows_the_lease() {
    assert_eq!(next_reload_generation(None), 1);
    assert_eq!(next_reload_generation(Some("nothing")), 1);
    assert_eq!(next_reload_generation(Some("active\nreload_generation=8\n")), 9);
    assert_eq!(
        next_reload_generation(Some("active\nreload_generation=18446744073709551615\n")),
        0
    );
}

#[test]
fn paths_of_the_lease() {
    assert_eq!(APP_ACTIVE_LEASE_PATH, "/tmp/com.evren.nosleeptilldone.active");
    assert_eq!(
        CONTROLLER_RESET_REQUEST_PATH,
        "/tmp/com.evren.nosleeptilldone.reset"
    );
}

#[test]
fn lease_counts_while_its_file_is_fresh() {
    let record = LeaseRecord {
        enabled: true,
        reload_generation: 7,
    };
    let text = record.serialize();
    let limit = u128::from(LEASE_TIMEOUT_SECONDS) * 1_000_000_000;
    assert_eq!(app_lease(Some(0), Some(&text)), Some(record));
    assert_eq!(app_lease(Some(limit), Some(&text)), Some(record));
    assert_eq!(app_lease(Some(limit + 1), Some(&text)), None);
    assert_eq!(app_lease(Some(limit + 1), None), None);
    assert_eq!(app_lease(None, None), None);
    assert_eq!(app_lease(Some(0), Some("idle\n")), None);
}
