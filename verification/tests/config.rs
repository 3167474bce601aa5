use no_sleep_till_done::command::CommandOutput;
use no_sleep_till_done::config::{
    config_path, console_user, copies_legacy_config, default_config_home, default_config_text, finish_migration,
    legacy_config_path, migrate_config_text, set_enabled, usual_home, user_home, user_record, AppConfig, ConfigError,
    Migration, ProcessWaitConfig, APP_NAME,
};
use no_sleep_till_done::config_file::{load_or_create_config, LoadEvent, LoadStep};
use no_sleep_till_done::sections::{
    add_first_color, add_wait_color, add_wait_section, has_toml_table, insert_key_in_table, table_contains_key,
};

fn table(text: &str) -> toml::Table {
    toml::from_str(text).expect("the text should be a document")
}

fn output(success: bool, stdout: &[u8]) -> Option<CommandOutput> {
    Some(CommandOutput {
        success,
        code: None,
        stdout: stdout.to_vec(),
        stderr: Vec::new(),
    })
}

#[test]
fn migration_adds_enabled_without_changing_existing_values() {
    let text = "delay_seconds = 7\npoll_seconds = 2\nmenu_refresh_seconds = 3\n\n[process_wait]\nenabled = false\ncommand_substrings = []\nexit_grace_seconds = 4\n\n[colors]\nready = \"green\"\ntimer = \"orange\"\nprocess_wait = \"blue\"\nerror = \"red\"\nunknown = \"gray\"\n";
    let migrated = migrate_config_text(text).expect("migration should succeed");
    let config = table(&migrated.text);
    assert_eq!(config["enabled"].as_bool(), Some(true));
    assert_eq!(config["delay_seconds"].as_integer(), Some(7));
    assert!(migrated.changed);
    assert_eq!(config["process_wait"]["exit_grace_seconds"].as_integer(), Some(4));
}

#[test]
fn enabled_writer_preserves_comments_and_other_settings() {
    let updated = set_enabled(
        "# keep this comment\nenabled = true\ndelay_seconds = 99\n",
        false,
    )
    .expect("enabled should be updated");
    assert!(updated.contains("# keep this comment"));
    assert!(updated.contains("enabled = false"));
    assert!(updated.contains("delay_seconds = 99"));
}

#[test]
fn enabled_writer_is_read_back() {
    for text in [
        "",
        "enabled = true",
        "delay_seconds = 1\n[enabled]\nx = 1\n",
        "[process_wait]\nenabled = false\n",
        "enabled.deep = 3\n[colors]\n",
        "\"enabled\" = 'yes' # why\n# end\n",
        "a = 1\r\n[[enabled]]\r\n",
    ] {
        for enabled in [true, false] {
            let before = table(text);
            let after = table(&set_enabled(text, enabled).expect("the text is a document"));
            assert_eq!(after["enabled"].as_bool(), Some(enabled), "{text:?}");
            let mut keys: Vec<&String> = before.keys().collect();
            if !before.contains_key("enabled") {
                assert_eq!(after.len(), before.len() + 1);
            } else {
                assert_eq!(after.len(), before.len());
            }
            keys.retain(|key| *key != "enabled");
            for key in keys {
                assert_eq!(before[key], after[key], "{text:?}");
            }
        }
    }
}

#[test]
fn text_that_is_no_document_is_refused() {
    assert!(matches!(set_enabled("enabled =", true), Err(ConfigError::TomlEdit(_))));
    assert!(matches!(
        migrate_config_text("[process_wait]\nenabled = = 1\n"),
        Err(ConfigError::TomlEdit(_))
    ));
    assert!(matches!(
        migrate_config_text("enabled = true\nenabled = false\n[process_wait]\n"),
        Err(ConfigError::TomlEdit(_))
    ));
}

#[test]
fn default_file_needs_no_migration() {
    let text = default_config_text();
    assert_eq!(
        migrate_config_text(&text).expect("the default is a document"),
        Migration {
            text: text.clone(),
            changed: false
        }
    );
    let config = table(&text);
    let default = AppConfig::default();
    assert_eq!(config["enabled"].as_bool(), Some(default.enabled));
    assert_eq!(config["delay_seconds"].as_integer(), Some(default.delay_seconds as i64));
    assert_eq!(config["poll_seconds"].as_integer(), Some(default.poll_seconds as i64));
    assert_eq!(
        config["menu_refresh_seconds"].as_integer(),
        Some(default.menu_refresh_seconds as i64)
    );
    assert_eq!(config["process_wait"]["enabled"].as_bool(), Some(false));
    assert_eq!(
        config["process_wait"]["exit_grace_seconds"].as_integer(),
        Some(default.process_wait.exit_grace_seconds as i64)
    );
    assert_eq!(config["colors"]["ready"].as_str(), Some(default.colors.ready.as_str()));
    assert_eq!(config["colors"]["timer"].as_str(), Some(default.colors.timer.as_str()));
    assert_eq!(
        config["colors"]["process_wait"].as_str(),
        Some(default.colors.process_wait.as_str())
    );
    assert_eq!(config["colors"]["error"].as_str(), Some(default.colors.error.as_str()));
    assert_eq!(config["colors"]["unknown"].as_str(), Some(default.colors.unknown.as_str()));
}

#[test]
fn migration_says_whether_it_changed_anything() {
    assert_eq!(
        finish_migration("a", "a".into()),
        Migration {
            text: "a".into(),
            changed: false
        }
    );
    assert_eq!(
        finish_migration("a", "b".into()),
        Migration {
            text: "b".into(),
            changed: true
        }
    );
}

const SECTION: &str = "\n[process_wait]\n# When enabled, sleep is delayed after delay_seconds until all matching\n# command lines disappear, then exit_grace_seconds is counted before sleep.\nenabled = false\ncommand_substrings = []\nexit_grace_seconds = 300\n";

#[test]
fn missing_section_is_appended() {
    assert_eq!(add_wait_section("enabled = true\n"), format!("enabled = true\n{SECTION}"));
    assert_eq!(add_wait_section("enabled = true"), format!("enabled = true\n{SECTION}"));
    assert_eq!(add_wait_section(""), format!("\n{SECTION}"));
}

#[test]
fn missing_color_is_inserted_in_its_section() {
    for loose in [false, true] {
        assert_eq!(
            add_wait_color("[process_wait]\n[colors]\nready = \"lime\"\n[other]\nx = 1", loose),
            "[process_wait]\n[colors]\nready = \"lime\"\nprocess_wait = \"blue\"\n[other]\nx = 1\n"
        );
        assert_eq!(
            add_wait_color("[colors]\r\nready = 1\r\n[process_wait]\r\n", loose),
            "[colors]\nready = 1\nprocess_wait = \"blue\"\n[process_wait]\n"
        );
        for kept in ["[colors]\n  process_wait   = \"red\"\n", "[other]\nready = 1\n"] {
            assert_eq!(add_wait_color(kept, loose), kept);
        }
    }
    let commented = "[ 'colors' ] # mine\nready = 1\n[other] # x\ny = 2\n";
    assert_eq!(
        add_wait_color(commented, true),
        "[ 'colors' ] # mine\nready = 1\nprocess_wait = \"blue\"\n[other] # x\ny = 2\n"
    );
    assert_eq!(add_wait_color(commented, false), commented);
    for quoted in ["[colors]\n\"process_wait\" = \"red\"\n", "[colors]\n'process_wait'= \"red\"\n"] {
        assert_eq!(add_wait_color(quoted, true), quoted);
        assert_eq!(add_wait_color(quoted, false), format!("{quoted}process_wait = \"blue\"\n"));
        let text = format!("enabled = true\n[process_wait]\n{quoted}");
        assert_eq!(migrated(&text), text);
    }
}

fn migrated(text: &str) -> String {
    migrate_config_text(text).expect("the text is a document").text
}

#[test]
fn section_with_a_comment_behind_its_header_is_kept() {
    let text = "enabled = true\n\n[process_wait] # mine\nenabled = true\n";
    assert_eq!(
        migrate_config_text(text).expect("the text is a document"),
        Migration {
            text: text.into(),
            changed: false
        }
    );
}

#[test]
fn section_in_another_form_is_kept() {
    for text in [
        "enabled = true\n[ process_wait ]\nenabled = true\n",
        "enabled = true\n[\"process_wait\"]\nenabled = true\n",
        "enabled = true\nprocess_wait = { enabled = true }\n",
        "enabled = true\nprocess_wait.enabled = true\n",
    ] {
        assert_eq!(migrated(text), text);
        assert_eq!(table(text)["process_wait"]["enabled"].as_bool(), Some(true));
    }
}

#[test]
fn carriage_return_at_the_end_gets_its_line_feed() {
    let now = migrated("enabled = true\r");
    assert_eq!(now, format!("enabled = true\r\n{SECTION}"));
    assert_eq!(table(&now)["process_wait"]["exit_grace_seconds"].as_integer(), Some(300));
}

#[test]
fn rows_of_an_array_are_no_headers() {
    let text = "enabled = true\nnames = [\n[ \"process_wait\" ]\n]\n";
    assert!(!has_toml_table(text, "process_wait"));
    assert_eq!(migrated(text), format!("{text}{SECTION}"));

    let text = "enabled = true\n[process_wait]\n[colors]\nx = [\n[\"a\"] # c\n]\n";
    let now = migrated(text);
    assert_eq!(now, format!("{text}process_wait = \"blue\"\n"));
    let now = table(&now);
    assert_eq!(now["colors"]["process_wait"].as_str(), Some("blue"));
    assert_eq!(now["colors"]["x"][0][0].as_str(), Some("a"));
}

#[test]
fn color_stands_under_the_header_where_the_end_is_not_seen() {
    let section = "[colors]\nx = [\n[\"a\"],\n[\"b\"]\n]\n";
    assert_eq!(
        add_first_color(section),
        "[colors]\nprocess_wait = \"blue\"\nx = [\n[\"a\"],\n[\"b\"]\n]\n"
    );
    let now = migrated(&format!("enabled = true\n[process_wait]\n{section}[other]\n"));
    assert_eq!(
        now,
        format!("enabled = true\n[process_wait]\n{}[other]\n", add_first_color(section))
    );
    assert_eq!(table(&now)["colors"]["process_wait"].as_str(), Some("blue"));
    assert_eq!(migrated(&now), now);
    for kept in ["[colors]\nprocess_wait = 1\n", "[other]\n", ""] {
        assert_eq!(add_first_color(kept), kept);
    }
}

#[test]
fn other_values_in_the_place_of_the_section_are_refused() {
    for text in [
        "enabled = true\nprocess_wait = 3\n",
        "enabled = true\nprocess_wait = [1, 2]\n",
        "enabled = true\n[[process_wait]]\nenabled = true\n",
    ] {
        assert!(
            matches!(migrate_config_text(text), Err(ConfigError::TomlEdit(_))),
            "{text:?}"
        );
    }
}

#[test]
fn section_with_only_a_part_gets_its_header() {
    let text = "enabled = true\n[process_wait.more]\nx = 1\n";
    let now = migrated(text);
    assert_eq!(now, format!("{text}{SECTION}"));
    assert_eq!(table(&now)["process_wait"]["more"]["x"].as_integer(), Some(1));
    assert_eq!(table(&now)["process_wait"]["enabled"].as_bool(), Some(false));
}

#[test]
fn mark_at_the_start_hides_a_header_until_the_file_is_written() {
    let once = migrated("\u{feff}[colors]\nready = 'x'\n");
    assert_eq!(once, format!("enabled = true\n[colors]\nready = 'x'\n{SECTION}"));
    let twice = migrated(&once);
    assert_eq!(table(&twice)["colors"]["process_wait"].as_str(), Some("blue"));
    assert_eq!(migrated(&twice), twice);
}

#[test]
fn switch_of_another_kind_stays() {
    for text in [
        "enabled = 3\n[process_wait]\n",
        "enabled = \"yes\"\n[process_wait]\n",
        "[enabled]\nx = 1\n[process_wait]\n",
    ] {
        assert_eq!(migrated(text), text);
    }
}

/// The items at the top level of a document, but for one, as they are printed.
fn printed_but(text: &str, key: &str) -> Vec<(String, String)> {
    let document: toml_edit::DocumentMut = text.parse().expect("the text should be a document");
    let mut items: Vec<(String, String)> = document
        .iter()
        .filter(|(name, _)| *name != key)
        .map(|(name, item)| (name.to_string(), item.to_string()))
        .collect();
    items.sort();
    items
}

#[test]
fn enabled_writer_leaves_the_other_items() {
    for text in [
        "",
        "# only a comment",
        "a = 1 # why\r\n# end\r\n[enabled]\r\nx = 1\r\n# of b\r\n[b] # c\r\ny = '''\r\nq'''\r\n",
        "a.b = 1\nenabled = 3 # old\n# of c\na.c = { d = [ 1, # one\n 2,\n], e.f = 'x' }\nz = 4",
        "[[a]]\nx = 1\n\n[[a]]\n# y\ny = 2.50\n[a.sub]\nz = 1979-05-27\n[\"q r\"]\n'k' = 0x1F\n[t.u.v]\nw = inf\n[t]\nx = 1 # last",
        "\u{feff}first = \"\\u0041\"\n\n  [ spaced . table ]\n  k   =   1   # one\n",
        "enabled.deep.down = 1\nother = true\nenabled.up = 2\n[enabled.side]\nq = 1\n[colors]\nready = 'x'\n# tail\n",
    ] {
        for enabled in [true, false] {
            let after = set_enabled(text, enabled).expect("the text is a document");
            assert_eq!(printed_but(text, "enabled"), printed_but(&after, "enabled"), "{text:?}");
            assert_eq!(table(&after)["enabled"].as_bool(), Some(enabled), "{text:?}");
        }
    }
}

#[test]
fn file_gets_everything_that_it_lacks() {
    let text = "# mine\ndelay_seconds = 42 # long\n\n[colors] # of the dot\nready = \"lime\"\n";
    let now = migrated(text);
    assert_eq!(
        now,
        format!(
            "# mine\ndelay_seconds = 42 # long\nenabled = true\n\n[colors] # of the dot\nready = \"lime\"\n\nprocess_wait = \"blue\"\n{}",
            &SECTION[1..]
        )
    );
    assert_eq!(table(&now)["colors"]["process_wait"].as_str(), Some("blue"));
    assert_eq!(table(&now)["process_wait"]["exit_grace_seconds"].as_integer(), Some(300));
}

#[test]
fn migrating_again_changes_nothing() {
    for text in [
        "",
        "x = 1",
        "[colors]",
        "[colors]\n[process_wait]\n",
        "a = 1\r\n[colors]\r\n\r\nready='x'",
        "# only a comment",
        "note = \"\"\"\n[process_wait]\n[colors]\n\"\"\"\n",
        "[colors]\nx = [\n[\"process\"]\n]\n",
        "enabled = false\ncolors.ready = 'x'\n",
    ] {
        let once = migrate_config_text(text).expect("the text is a document");
        assert_eq!(once.changed, once.text != text, "{text:?}");
        assert_eq!(
            migrate_config_text(&once.text).expect("it is still a document"),
            Migration {
                text: once.text.clone(),
                changed: false
            },
            "{text:?}"
        );
        let now = table(&once.text);
        assert!(now["enabled"].is_bool(), "{text:?}");
        assert!(now.get("process_wait").map_or(true, |section| section.is_table()), "{text:?}");
    }
}

#[test]
fn sections_are_found_by_their_lines() {
    let text = "[a]\nkey=1\n [b] \nkeyed = 2\n other = 3\n[a.b]\nlast = 4\n";
    assert!(has_toml_table(text, "a"));
    assert!(has_toml_table(text, "b"));
    assert!(has_toml_table(text, "a.b"));
    assert!(!has_toml_table(text, "c"));
    assert!(!has_toml_table("[ \"c\" ]# [d]", "c"));
    assert!(!has_toml_table("[ \"c\" ]# [d]", "d"));
    assert!(!has_toml_table("[[c]]", "c"));
    assert!(!has_toml_table("# [c]", "c"));
    assert!(table_contains_key(text, "a", "key"));
    assert!(!table_contains_key(text, "b", "key"));
    assert!(table_contains_key(text, "b", "keyed"));
    assert!(table_contains_key(text, "b", "other"));
    assert!(!table_contains_key(text, "a", "other"));
    assert!(!table_contains_key(text, "a", "last"));
    assert_eq!(
        insert_key_in_table(text, "a", "new = 5"),
        "[a]\nkey=1\nnew = 5\n [b] \nkeyed = 2\n other = 3\n[a.b]\nlast = 4\n"
    );
    assert_eq!(
        insert_key_in_table(text, "a.b", "new = 5"),
        "[a]\nkey=1\n [b] \nkeyed = 2\n other = 3\n[a.b]\nlast = 4\nnew = 5\n"
    );
    assert_eq!(insert_key_in_table("[a]\n[b]\n[a]\n[c]", "a", "n"), "[a]\nn\n[b]\n[a]\n[c]\n");
    assert_eq!(insert_key_in_table("[b]", "a", "n"), "[b]\n");
}

#[test]
fn configuration_is_made_usable() {
    let config = AppConfig {
        delay_seconds: 0,
        poll_seconds: 0,
        menu_refresh_seconds: 0,
        process_wait: ProcessWaitConfig {
            enabled: true,
            command_substrings: vec!["".into(), "agent".into(), "".into(), "make".into()],
            exit_grace_seconds: 0,
        },
        ..AppConfig::default()
    };
    let usable = config.normalized();
    assert_eq!(usable.delay_seconds, 1);
    assert_eq!(usable.poll_seconds, 1);
    assert_eq!(usable.menu_refresh_seconds, 1);
    assert_eq!(usable.process_wait.exit_grace_seconds, 1);
    assert_eq!(usable.process_wait.command_substrings, vec!["agent", "make"]);
    assert!(usable.process_wait.enabled);
    let copy = usable.clone();
    assert_eq!(usable.normalized(), copy);
    assert_eq!(AppConfig::default().normalized(), AppConfig::default());
}

#[test]
fn configuration_file_has_its_place() {
    assert_eq!(APP_NAME, "no-sleep-till-done");
    assert_eq!(config_path(Some("/a"), Some("/b"), "/home/me"), "/a");
    assert_eq!(config_path(None, Some("/b"), "/home/me"), "/b");
    assert_eq!(
        config_path(None, None, "/home/me"),
        "/home/me/.config/no-sleep-till-done/config.toml"
    );
    assert_eq!(
        legacy_config_path("/home/me/"),
        "/home/me/.config/lidsleep-delay/config.toml"
    );
}

#[test]
fn legacy_configuration_is_copied_where_it_is_another_file() {
    assert!(copies_legacy_config(
        "/home/me/.config/no-sleep-till-done/config.toml",
        "/home/me",
        true
    ));
    assert!(!copies_legacy_config(
        "/home/me/.config/no-sleep-till-done/config.toml",
        "/home/me",
        false
    ));
    assert!(!copies_legacy_config(
        "/home//me/./.config/lidsleep-delay/config.toml/",
        "/home/me",
        true
    ));
}

#[test]
fn home_directory_is_found() {
    let some = |s: &str| Some(s.to_string());
    assert_eq!(default_config_home(true, some("/a"), some("/b"), some("/c")), "/a");
    assert_eq!(default_config_home(true, None, some("/b"), some("/c")), "/b");
    assert_eq!(default_config_home(true, None, None, some("/c")), "/c");
    assert_eq!(default_config_home(false, some("/a"), some("/b"), some("/c")), "/c");
    assert_eq!(default_config_home(false, some("/a"), some("/b"), None), ".");
    assert_eq!(console_user(output(true, b" me \n")), some("me"));
    assert_eq!(console_user(output(false, b"me\n")), None);
    assert_eq!(console_user(output(true, b"root\n")), None);
    assert_eq!(console_user(output(true, b"loginwindow\n")), None);
    assert_eq!(console_user(output(true, b"\n")), None);
    assert_eq!(console_user(None), None);
    assert_eq!(
        user_home("me", output(true, b"x: 1\nNFSHomeDirectory:  /Volumes/me \nNFSHomeDirectory: /b\n")),
        some("/Volumes/me")
    );
    assert_eq!(user_home("me", output(true, b"NFSHome: 1\n")), some("/Users/me"));
    assert_eq!(user_home("me", output(false, b"NFSHomeDirectory: /b\n")), some("/Users/me"));
    assert_eq!(user_home("me", None), None);
    assert_eq!(usual_home("/me"), "/me");
    assert_eq!(user_record("me"), "/Users/me");
}

const HOME: &str = "/home/me";

fn load(step: LoadStep, event: LoadEvent) -> LoadStep {
    let file = config_path(None, None, HOME);
    load_or_create_config(step, event, &file, HOME)
}

#[test]
fn missing_file_is_copied_or_written() {
    let step = load(LoadStep::LookForFile, LoadEvent::Looked(false));
    assert!(matches!(step, LoadStep::MakeDirectory));
    let step = load(step, LoadEvent::Written(Ok(())));
    assert!(matches!(step, LoadStep::LookForLegacy));
    let copy = load(step, LoadEvent::Looked(true));
    assert!(matches!(copy, LoadStep::CopyLegacy));
    assert!(matches!(load(copy, LoadEvent::Written(Ok(()))), LoadStep::ReadFile));
    let LoadStep::WriteDefault(text) = load(LoadStep::LookForLegacy, LoadEvent::Looked(false)) else {
        panic!("the default is written");
    };
    assert_eq!(text, default_config_text());
    assert!(matches!(
        load(LoadStep::WriteDefault(text), LoadEvent::Written(Ok(()))),
        LoadStep::ReadFile
    ));
    let legacy = legacy_config_path(HOME);
    assert!(matches!(
        load_or_create_config(LoadStep::LookForLegacy, LoadEvent::Looked(true), &legacy, HOME),
        LoadStep::WriteDefault(_)
    ));
}

#[test]
fn present_file_is_read_and_completed() {
    let step = load(LoadStep::LookForFile, LoadEvent::Looked(true));
    assert!(matches!(step, LoadStep::ReadFile));
    let LoadStep::ReadValues(text) = load(step, LoadEvent::Read(Ok(default_config_text()))) else {
        panic!("nothing is missing");
    };
    assert_eq!(text, default_config_text());
    let lacking = "enabled = false # by hand\ndelay_seconds = 42\n".to_string();
    let LoadStep::WriteMigrated(text) = load(LoadStep::ReadFile, LoadEvent::Read(Ok(lacking.clone()))) else {
        panic!("a section is missing");
    };
    assert_eq!(text, format!("{lacking}{SECTION}"));
    let LoadStep::ReadValues(same) = load(LoadStep::WriteMigrated(text.clone()), LoadEvent::Written(Ok(()))) else {
        panic!("the values are read");
    };
    assert_eq!(same, text);
    let LoadStep::WriteMigrated(text) = load(LoadStep::ReadFile, LoadEvent::Read(Ok("delay_seconds = 42\n".into())))
    else {
        panic!("the switch is missing");
    };
    assert_eq!(table(&text)["enabled"].as_bool(), Some(true));
    assert_eq!(table(&text)["delay_seconds"].as_integer(), Some(42));
}

#[test]
fn loading_ends_with_a_configuration_or_an_error() {
    let mut values = AppConfig::default();
    values.poll_seconds = 0;
    let LoadStep::Done(Ok(config)) = load(LoadStep::ReadValues(String::new()), LoadEvent::ValuesRead(Ok(values))) else {
        panic!("the values are taken");
    };
    assert_eq!(config, AppConfig::default());
    let io = |step: LoadStep, event: LoadEvent| match load(step, event) {
        LoadStep::Done(Err(ConfigError::Io(message))) => message,
        other => panic!("{other:?}"),
    };
    let full = || LoadEvent::Written(Err("full".into()));
    assert_eq!(io(LoadStep::MakeDirectory, full()), "full");
    assert_eq!(io(LoadStep::CopyLegacy, full()), "full");
    assert_eq!(io(LoadStep::WriteDefault(String::new()), full()), "full");
    assert_eq!(io(LoadStep::WriteMigrated(String::new()), full()), "full");
    assert_eq!(io(LoadStep::ReadFile, LoadEvent::Read(Err("gone".into()))), "gone");
    assert!(matches!(
        load(LoadStep::ReadFile, LoadEvent::Read(Ok("= 1".into()))),
        LoadStep::Done(Err(ConfigError::TomlEdit(_)))
    ));
    match load(
        LoadStep::ReadValues(String::new()),
        LoadEvent::ValuesRead(Err("wrong".into())),
    ) {
        LoadStep::Done(Err(ConfigError::Toml(message))) => assert_eq!(message, "wrong"),
        other => panic!("{other:?}"),
    }
    assert!(matches!(load(LoadStep::ReadFile, LoadEvent::Looked(true)), LoadStep::ReadFile));
}
