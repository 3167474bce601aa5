use no_sleep_till_done::escape::{applescript_string, shell_quote, xml_escape};
use no_sleep_till_done::login::{
    launch_agent_path, launch_agent_path_for, launch_agent_plist, launchctl_target, migrates_legacy_login,
    session_service, start_at_login_text, toggle_start_at_login, LoginChange, LEGACY_LAUNCH_AGENT_LABEL,
};
use no_sleep_till_done::path::{join_path, parent_path, same_path};
use std::path::Path;

const PATHS: [&str; 22] = [
    "", "/", "//", ".", "./", "..", "a", "a/", "/a", "/a/", "//a", "a/b", "a//b", "a/./b", "./a", "./a/b", ".a", ".a/b",
    "/a/b/c", "/a/b/./", "../a", "é/ü",
];

#[test]
fn joining_is_that_of_the_standard_library() {
    for base in PATHS {
        for part in PATHS {
            assert_eq!(
                join_path(base, part),
                Path::new(base).join(part).to_str().unwrap(),
                "{base:?} {part:?}"
            );
        }
    }
}

#[test]
fn parents_are_those_of_the_standard_library() {
    for path in PATHS {
        assert_eq!(
            parent_path(path),
            Path::new(path).parent().map(|p| p.to_str().unwrap().to_string()),
            "{path:?}"
        );
    }
}

#[test]
fn sameness_is_that_of_the_standard_library() {
    for a in PATHS {
        for b in PATHS {
            assert_eq!(same_path(a, b), Path::new(a) == Path::new(b), "{a:?} {b:?}");
        }
    }
}

#[test]
fn shell_words_are_quoted() {
    assert_eq!(shell_quote(""), "''");
    assert_eq!(shell_quote("a b$c"), "'a b$c'");
    assert_eq!(shell_quote("it's"), "'it'\\''s'");
    for value in ["'", "''", "a'b'c", "\\'"] {
        assert_eq!(shell_quote(value), format!("'{}'", value.replace('\'', "'\\''")));
    }
}

#[test]
fn script_strings_are_quoted() {
    for value in ["", "plain", "say \"hi\"", "back\\slash", "\\\"", "\"\\", "line\n"] {
        assert_eq!(
            applescript_string(value),
            format!("\"{}\"", value.replace('\\', "\\\\").replace('"', "\\\""))
        );
    }
}

#[test]
fn xml_text_is_escaped() {
    for value in ["", "a&b", "<x attr=\"1\">'", "&amp;", "é"] {
        assert_eq!(
            xml_escape(value),
            value
                .replace('&', "&amp;")
                .replace('<', "&lt;")
                .replace('>', "&gt;")
                .replace('"', "&quot;")
                .replace('\'', "&apos;")
        );
    }
}

#[test]
fn login_file_has_its_place() {
    assert_eq!(
        launch_agent_path(Some("/Users/me")),
        "/Users/me/Library/LaunchAgents/com.evren.nosleeptilldone.menubar.plist"
    );
    assert_eq!(
        launch_agent_path_for(None, LEGACY_LAUNCH_AGENT_LABEL),
        "./Library/LaunchAgents/com.evren.lidsleep-delay-menubar.plist"
    );
    assert_eq!(launchctl_target(501), "gui/501");
    assert_eq!(session_service(501, "label"), "gui/501/label");
}

#[test]
fn login_item_is_toggled() {
    assert_eq!(start_at_login_text(true), "Start at Login: On");
    assert_eq!(start_at_login_text(false), "Start at Login: Off");
    assert_eq!(toggle_start_at_login(true), LoginChange::Disable);
    assert_eq!(toggle_start_at_login(false), LoginChange::Enable);
    assert!(migrates_legacy_login(true, false));
    assert!(!migrates_legacy_login(true, true));
    assert!(!migrates_legacy_login(false, false));
}

#[test]
fn login_file_is_a_property_list() {
    let expected = r#"<?xml version="1.0" encoding="UTF-8"?>
<!DOCTYPE plist PUBLIC "-//Apple//DTD PLIST 1.0//EN"
  "http://www.apple.com/DTDs/PropertyList-1.0.dtd">
<plist version="1.0">
<dict>
  <key>Label</key>
  <string>com.evren.nosleeptilldone.menubar</string>

  <key>ProgramArguments</key>
  <array>
    <string>/Apps/A &amp; B/menubar</string>
  </array>

  <key>RunAtLoad</key>
  <true/>

  <key>KeepAlive</key>
  <dict>
    <key>SuccessfulExit</key>
    <false/>
  </dict>

  <key>StandardOutPath</key>
  <string>/tmp/no-sleep-till-done-menubar.log</string>

  <key>StandardErrorPath</key>
  <string>/tmp/no-sleep-till-done-menubar.log</string>
</dict>
</plist>
"#;
    assert_eq!(launch_agent_plist("/Apps/A & B/menubar"), expected);
}
