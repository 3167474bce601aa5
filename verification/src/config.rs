//! The configuration: its values, its file, and how an older file is brought up to date.
use vstd::prelude::*;
use vstd::slice::slice_subrange;
use vstd::string::StringExecFns;

use crate::command;
use crate::command::{decode_lossy, trimmed_string, CommandOutput};
use crate::path;
use crate::path::{join_path, same_path};
use crate::sections;
use crate::sections::{add_first_color, add_wait_color, add_wait_section, has_toml_table};
use crate::system;
use crate::text;
use crate::text::{chars_of, has_prefix, lines_of, str_eq, string_of, trimmed};
use crate::toml_document;
use crate::toml_document::{root_has_key, table_has_key, with_root_bool};

verus! {

pub const APP_NAME: &'static str = "no-sleep-till-done";

/// The name that the application had before.
pub const LEGACY_APP_NAME: &'static str = "lidsleep-delay";

/// The configuration file as it is first written.
pub const DEFAULT_CONFIG_TEXT: &'static str = "# no-sleep-till-done configuration

# Keep the background service's sleep override active while the menu app runs.
enabled = true

# Seconds the lid must remain closed before the controller sleeps the Mac.
delay_seconds = 60

# Seconds between lid-state checks in the controller.
poll_seconds = 1

# Seconds between menu bar refreshes.
menu_refresh_seconds = 5

[process_wait]
# When enabled, sleep is delayed after delay_seconds until all matching
# command lines disappear, then exit_grace_seconds is counted before sleep.
enabled = false
command_substrings = []
exit_grace_seconds = 300

[colors]
# Color for the small menu bar state dot.
# Supports #rrggbb hex colors and standard HTML/CSS color names.
ready = \"green\"
timer = \"orange\"
process_wait = \"blue\"
error = \"red\"
unknown = \"gray\"
";

/// The environment variable that names the configuration file.
pub const CONFIG_ENV: &'static str = "NO_SLEEP_TILL_DONE_CONFIG";

/// The environment variable that named the configuration file before.
pub const LEGACY_CONFIG_ENV: &'static str = "LIDSLEEP_DELAY_CONFIG";

#[derive(Debug, PartialEq)]
pub struct AppConfig {
    pub enabled: bool,
    pub delay_seconds: u64,
    pub poll_seconds: u64,
    pub menu_refresh_seconds: u64,
    pub process_wait: ProcessWaitConfig,
    pub colors: ColorConfig,
}

/// Which processes to wait for before sleep.
#[derive(Debug, PartialEq)]
pub struct ProcessWaitConfig {
    pub enabled: bool,
    pub command_substrings: Vec<String>,
    pub exit_grace_seconds: u64,
}

/// The colors of the status dot.
#[derive(Debug, PartialEq)]
pub struct ColorConfig {
    pub ready: String,
    pub timer: String,
    pub process_wait: String,
    pub error: String,
    pub unknown: String,
}

/// What an `AppConfig` holds.
#[verifier::ext_equal]
pub struct AppModel {
    pub enabled: bool,
    pub delay_seconds: u64,
    pub poll_seconds: u64,
    pub menu_refresh_seconds: u64,
    pub process_wait: WaitModel,
    pub colors: ColorModel,
}

/// What a `ProcessWaitConfig` holds.
#[verifier::ext_equal]
pub struct WaitModel {
    pub enabled: bool,
    pub command_substrings: Seq<Seq<char>>,
    pub exit_grace_seconds: u64,
}

/// What a `ColorConfig` holds.
#[verifier::ext_equal]
pub struct ColorModel {
    pub ready: Seq<char>,
    pub timer: Seq<char>,
    pub process_wait: Seq<char>,
    pub error: Seq<char>,
    pub unknown: Seq<char>,
}

impl View for AppConfig {
    type V = AppModel;

    open spec fn view(&self) -> AppModel {
        AppModel {
            enabled: self.enabled,
            delay_seconds: self.delay_seconds,
            poll_seconds: self.poll_seconds,
            menu_refresh_seconds: self.menu_refresh_seconds,
            process_wait: self.process_wait@,
            colors: self.colors@,
        }
    }
}

impl View for ProcessWaitConfig {
    type V = WaitModel;

    open spec fn view(&self) -> WaitModel {
        WaitModel {
            enabled: self.enabled,
            command_substrings: system::string_views(self.command_substrings@),
            exit_grace_seconds: self.exit_grace_seconds,
        }
    }
}

impl View for ColorConfig {
    type V = ColorModel;

    open spec fn view(&self) -> ColorModel {
        ColorModel {
            ready: self.ready@,
            timer: self.timer@,
            process_wait: self.process_wait@,
            error: self.error@,
            unknown: self.unknown@,
        }
    }
}

/// Strings that hold the same.
pub fn copied_strings(v: &Vec<String>) -> (r: Vec<String>)
    ensures
        system::string_views(r@) == system::string_views(v@),
{
    let mut r: Vec<String> = Vec::new();
    let mut i: usize = 0;
    while i < v.len()
        invariant
            i <= v@.len(),
            r@.len() == i,
            forall|j: int| 0 <= j < i ==> (#[trigger] r@[j])@ == v@[j]@,
        decreases v@.len() - i,
    {
        r.push(v[i].clone());
        i = i + 1;
    }
    assert(system::string_views(r@) =~= system::string_views(v@));
    r
}

impl Clone for ProcessWaitConfig {
    fn clone(&self) -> (r: Self)
        ensures
            r@ == self@,
    {
        ProcessWaitConfig {
            enabled: self.enabled,
            command_substrings: copied_strings(&self.command_substrings),
            exit_grace_seconds: self.exit_grace_seconds,
        }
    }
}

impl Clone for ColorConfig {
    fn clone(&self) -> (r: Self)
        ensures
            r@ == self@,
    {
        ColorConfig {
            ready: self.ready.clone(),
            timer: self.timer.clone(),
            process_wait: self.process_wait.clone(),
            error: self.error.clone(),
            unknown: self.unknown.clone(),
        }
    }
}

impl Clone for AppConfig {
    fn clone(&self) -> (r: Self)
        ensures
            r@ == self@,
    {
        AppConfig {
            enabled: self.enabled,
            delay_seconds: self.delay_seconds,
            poll_seconds: self.poll_seconds,
            menu_refresh_seconds: self.menu_refresh_seconds,
            process_wait: self.process_wait.clone(),
            colors: self.colors.clone(),
        }
    }
}

/// Waiting for no process.
pub open spec fn default_wait() -> WaitModel {
    WaitModel { enabled: false, command_substrings: seq![], exit_grace_seconds: 300 }
}

pub open spec fn default_colors() -> ColorModel {
    ColorModel { ready: "green"@, timer: "orange"@, process_wait: "blue"@, error: "red"@, unknown: "gray"@ }
}

pub open spec fn default_app() -> AppModel {
    AppModel {
        enabled: true,
        delay_seconds: 60,
        poll_seconds: 1,
        menu_refresh_seconds: 5,
        process_wait: default_wait(),
        colors: default_colors(),
    }
}

impl Default for ProcessWaitConfig {
    fn default() -> (r: Self)
        ensures
            r@ == default_wait(),
    {
        let r = ProcessWaitConfig { enabled: false, command_substrings: Vec::new(), exit_grace_seconds: 300 };
        assert(r@ =~= default_wait());
        r
    }
}

impl Default for ColorConfig {
    fn default() -> (r: Self)
        ensures
            r@ == default_colors(),
    {
        ColorConfig {
            ready: "green".to_owned(),
            timer: "orange".to_owned(),
            process_wait: "blue".to_owned(),
            error: "red".to_owned(),
            unknown: "gray".to_owned(),
        }
    }
}

impl Default for AppConfig {
    fn default() -> (r: Self)
        ensures
            r@ == default_app(),
    {
        AppConfig {
            enabled: true,
            delay_seconds: 60,
            poll_seconds: 1,
            menu_refresh_seconds: 5,
            process_wait: ProcessWaitConfig::default(),
            colors: ColorConfig::default(),
        }
    }
}

/// A number, but at least one.
pub open spec fn at_least_one(n: u64) -> u64 {
    if n == 0 {
        1
    } else {
        n
    }
}

/// The strings that are not empty.
pub open spec fn non_empty(v: Seq<Seq<char>>) -> Seq<Seq<char>> {
    v.filter(|s: Seq<char>| s.len() > 0)
}

/// A configuration with its values made usable: no time is zero, and no process
/// is looked for by an empty string.
pub open spec fn normalized_app(app: AppModel) -> AppModel {
    AppModel {
        delay_seconds: at_least_one(app.delay_seconds),
        poll_seconds: at_least_one(app.poll_seconds),
        menu_refresh_seconds: at_least_one(app.menu_refresh_seconds),
        process_wait: WaitModel {
            command_substrings: non_empty(app.process_wait.command_substrings),
            exit_grace_seconds: at_least_one(app.process_wait.exit_grace_seconds),
            ..app.process_wait
        },
        ..app
    }
}

fn raised_to_one(n: u64) -> (r: u64)
    ensures
        r == at_least_one(n),
{
    if n == 0 {
        1
    } else {
        n
    }
}

/// Drops the empty strings.
fn without_empty(v: &Vec<String>) -> (r: Vec<String>)
    ensures
        system::string_views(r@) == non_empty(system::string_views(v@)),
{
    let ghost all = system::string_views(v@);
    let ghost keep = |s: Seq<char>| s.len() > 0;
    let mut r: Vec<String> = Vec::new();
    let mut i: usize = 0;
    proof {
        reveal(Seq::filter);
        assert(all.take(0).len() == 0);
        assert(system::string_views(r@) =~= all.take(0).filter(keep));
    }
    while i < v.len()
        invariant
            i <= v@.len(),
            all == system::string_views(v@),
            keep == (|s: Seq<char>| s.len() > 0),
            system::string_views(r@) == all.take(i as int).filter(keep),
        decreases v@.len() - i,
    {
        let ghost before = system::string_views(r@);
        proof {
            reveal(Seq::filter);
            assert(all.take(i + 1).drop_last() =~= all.take(i as int));
            assert(all.take(i + 1).last() == v@[i as int]@);
        }
        if !v[i].as_str().is_empty() {
            r.push(v[i].clone());
            assert(system::string_views(r@) =~= before.push(v@[i as int]@));
        }
        i = i + 1;
    }
    assert(all.take(i as int) =~= all);
    r
}

impl AppConfig {
    /// Makes the values usable.
    pub fn normalized(self) -> (r: Self)
        ensures
            r@ == normalized_app(self@),
    {
        AppConfig {
            enabled: self.enabled,
            delay_seconds: raised_to_one(self.delay_seconds),
            poll_seconds: raised_to_one(self.poll_seconds),
            menu_refresh_seconds: raised_to_one(self.menu_refresh_seconds),
            process_wait: ProcessWaitConfig {
                enabled: self.process_wait.enabled,
                command_substrings: without_empty(&self.process_wait.command_substrings),
                exit_grace_seconds: raised_to_one(self.process_wait.exit_grace_seconds),
            },
            colors: self.colors,
        }
    }
}

/// A usable configuration has no zero time and no empty string to look for.
pub proof fn normalized_is_usable(app: AppModel)
    ensures
        normalized_app(app).delay_seconds >= 1,
        normalized_app(app).poll_seconds >= 1,
        normalized_app(app).menu_refresh_seconds >= 1,
        normalized_app(app).process_wait.exit_grace_seconds >= 1,
        forall|i: int|
            0 <= i < normalized_app(app).process_wait.command_substrings.len() ==> (#[trigger] normalized_app(
                app,
            ).process_wait.command_substrings[i]).len() > 0,
{
    let v = app.process_wait.command_substrings;
    let keep = |s: Seq<char>| s.len() > 0;
    assert forall|i: int| 0 <= i < non_empty(v).len() implies (#[trigger] non_empty(v)[i]).len() > 0 by {
        broadcast use vstd::seq_lib::group_filter_ensures;

        assert(v.filter(keep).contains(non_empty(v)[i]));
        assert(keep(non_empty(v)[i]));
    }
}

proof fn lemma_filter_all(v: Seq<Seq<char>>)
    requires
        forall|i: int| 0 <= i < v.len() ==> (#[trigger] v[i]).len() > 0,
    ensures
        non_empty(v) == v,
    decreases v.len(),
{
    reveal(Seq::filter);
    if v.len() > 0 {
        assert forall|i: int| 0 <= i < v.drop_last().len() implies (#[trigger] v.drop_last()[i]).len() > 0 by {
            assert(v.drop_last()[i] == v[i]);
        }
        lemma_filter_all(v.drop_last());
        assert(v.last() == v[v.len() - 1]);
        assert(v.drop_last().push(v.last()) =~= v);
    }
}

/// Making a usable configuration usable changes nothing.
pub proof fn normalizing_twice_is_once(app: AppModel)
    ensures
        normalized_app(normalized_app(app)) == normalized_app(app),
{
    normalized_is_usable(app);
    lemma_filter_all(normalized_app(app).process_wait.command_substrings);
}

/// Making a configuration usable keeps whatever is usable: every time that is not
/// zero, however long, the switches and the colors. A time of zero becomes one.
pub proof fn usable_values_are_kept(app: AppModel)
    ensures
        ({
            let now = normalized_app(app);
            &&& app.delay_seconds >= 1 ==> now.delay_seconds == app.delay_seconds
            &&& app.poll_seconds >= 1 ==> now.poll_seconds == app.poll_seconds
            &&& app.menu_refresh_seconds >= 1 ==> now.menu_refresh_seconds == app.menu_refresh_seconds
            &&& app.process_wait.exit_grace_seconds >= 1 ==> now.process_wait.exit_grace_seconds
                == app.process_wait.exit_grace_seconds
            &&& app.delay_seconds == 0 ==> now.delay_seconds == 1
            &&& app.poll_seconds == 0 ==> now.poll_seconds == 1
            &&& app.menu_refresh_seconds == 0 ==> now.menu_refresh_seconds == 1
            &&& app.process_wait.exit_grace_seconds == 0 ==> now.process_wait.exit_grace_seconds == 1
            &&& now.enabled == app.enabled
            &&& now.process_wait.enabled == app.process_wait.enabled
            &&& now.colors.ready == app.colors.ready
            &&& now.colors.timer == app.colors.timer
            &&& now.colors.process_wait == app.colors.process_wait
            &&& now.colors.error == app.colors.error
            &&& now.colors.unknown == app.colors.unknown
        }),
{
}

/// A string to look for at the end of the list stays at the end, unless it is
/// empty, in which case it is dropped; what stands before it is treated as if it
/// stood alone, and an empty list stays empty.
pub proof fn strings_to_look_for_are_kept(app: AppModel, strings: Seq<Seq<char>>, last: Seq<char>)
    ensures
        ({
            let none = AppModel {
                process_wait: WaitModel { command_substrings: seq![], ..app.process_wait },
                ..app
            };
            let some = AppModel {
                process_wait: WaitModel { command_substrings: strings, ..app.process_wait },
                ..app
            };
            let more = AppModel {
                process_wait: WaitModel { command_substrings: strings.push(last), ..app.process_wait },
                ..app
            };
            let kept = normalized_app(some).process_wait.command_substrings;
            &&& normalized_app(none).process_wait.command_substrings.len() == 0
            &&& normalized_app(more).process_wait.command_substrings == (if last.len() == 0 {
                kept
            } else {
                kept.push(last)
            })
        }),
{
    reveal(Seq::filter);
    assert(strings.push(last).drop_last() =~= strings);
}

/// Why the configuration could not be had.
#[derive(Debug)]
pub enum ConfigError {
    /// The file could not be read or written.
    Io(String),
    /// The file has values of the wrong kind.
    Toml(String),
    /// The file is no TOML document.
    TomlEdit(toml_edit::TomlError),
}

/// The configuration file as it is first written.
pub fn default_config_text() -> (s: String)
    ensures
        s@ == DEFAULT_CONFIG_TEXT@,
{
    DEFAULT_CONFIG_TEXT.to_owned()
}

/// A configuration file that was brought up to date.
#[derive(Debug, Eq, PartialEq)]
pub struct Migration {
    pub text: String,
    /// Whether the text is another than before, and has to be written.
    pub changed: bool,
}

/// What became of a file: its text with what it lacked, and whether that is another.
pub fn finish_migration(before: &str, after: String) -> (m: Migration)
    ensures
        m.text@ == after@,
        m.changed == (after@ != before@),
{
    let changed = !str_eq(before, after.as_str());
    Migration { text: after, changed }
}

/// A text is a document with a key at its top level.
pub open spec fn root_has(text: Seq<char>, key: Seq<char>) -> bool {
    toml_document::toml_root(text) matches Some(root) && root.contains_key(key)
}

/// The keys of a table at the top level of a document, however it is written.
pub open spec fn table_at(text: Seq<char>, table: Seq<char>) -> Option<Set<Seq<char>>> {
    if root_has(text, table) {
        toml_document::toml_root(text)->0[table].1
    } else {
        None
    }
}

/// The file with a section on processes to wait for: one that a line starts, or
/// else one at the end. A file that cannot have that is left as it is where it
/// has the table in another form.
pub open spec fn sectioned(text: Seq<char>) -> Option<Seq<char>> {
    let longer = sections::with_section_at_end(text);
    let has_line = sections::has_table(text::lines(text), "process_wait"@, false);
    if has_line && toml_document::toml_root(text) is Some {
        Some(text)
    } else if !has_line && toml_document::toml_root(longer) is Some {
        Some(longer)
    } else if !has_line && table_at(text, "process_wait"@) is Some {
        Some(text)
    } else {
        None
    }
}

/// The document has a color of waiting.
pub open spec fn has_color(text: Seq<char>) -> bool {
    table_at(text, "colors"@) matches Some(keys) && keys.contains("process_wait"@)
}

/// The file with a color of waiting. The entry is made at the end of the section on
/// colors that a line starts; where the document does not have the color then, at
/// the end of one whose lines are read loosely, or else right under its header.
pub open spec fn colored(text: Seq<char>) -> Seq<char> {
    if has_color(text) {
        text
    } else if has_color(sections::with_wait_color(text, false)) {
        sections::with_wait_color(text, false)
    } else if has_color(sections::with_wait_color(text, true)) {
        sections::with_wait_color(text, true)
    } else if has_color(sections::with_first_color(text)) {
        sections::with_first_color(text)
    } else {
        text
    }
}

/// The file with its switch.
pub open spec fn with_switch(text: Seq<char>) -> Seq<char> {
    if root_has(text, "enabled"@) {
        text
    } else {
        toml_document::toml_with_bool(text, "enabled"@, true)
    }
}

/// The file with what it lacked; nothing where it is no document.
pub open spec fn completed(text: Seq<char>) -> Option<Seq<char>> {
    match sectioned(text) {
        Some(with_section) => Some(with_switch(colored(with_section))),
        None => None,
    }
}

/// Two documents have the same items at their top level, but for the switch.
pub open spec fn keeps_items(before: Seq<char>, after: Seq<char>) -> bool {
    &&& toml_document::toml_root(before) is Some
    &&& toml_document::toml_root(after) is Some
    &&& toml_document::toml_root(before)->0.remove("enabled"@) == toml_document::toml_root(after)->0.remove(
        "enabled"@,
    )
}

/// A document got its switch: it is on where there was none, and nothing changed
/// where there was one, of whatever kind. The other items are as they were.
pub open spec fn gets_switch(before: Seq<char>, after: Seq<char>) -> bool {
    &&& keeps_items(before, after)
    &&& root_has(after, "enabled"@)
    &&& if root_has(before, "enabled"@) {
        after == before
    } else {
        toml_document::toml_root(after)->0["enabled"@].0 == Some(true)
    }
}

/// Whether the document has a color of waiting.
fn document_has_color(text: &str) -> (r: bool)
    ensures
        r == has_color(text@),
{
    match table_has_key(text, "colors", "process_wait") {
        Ok(Some(found)) => found,
        _ => false,
    }
}

/// Adds the section on processes to wait for.
fn add_section(text: &str) -> (r: Result<String, toml_edit::TomlError>)
    ensures
        match sectioned(text@) {
            Some(after) => r matches Ok(s) && s@ == after,
            None => r is Err,
        },
        r matches Ok(s) ==> toml_document::toml_root(s@) is Some,
{
    if has_toml_table(text, "process_wait") {
        return match root_has_key(text, "enabled") {
            Ok(_) => Ok(text.to_owned()),
            Err(error) => Err(error),
        };
    }
    let longer = add_wait_section(text);
    match root_has_key(longer.as_str(), "enabled") {
        Ok(_) => Ok(longer),
        Err(error) => match table_has_key(text, "process_wait", "enabled") {
            Ok(Some(_)) => Ok(text.to_owned()),
            _ => Err(error),
        },
    }
}

/// Adds the color of waiting.
fn add_color(text: String) -> (r: String)
    requires
        toml_document::toml_root(text@) is Some,
    ensures
        r@ == colored(text@),
        toml_document::toml_root(r@) is Some,
{
    if document_has_color(text.as_str()) {
        return text;
    }
    let plain = add_wait_color(text.as_str(), false);
    if document_has_color(plain.as_str()) {
        return plain;
    }
    let loose = add_wait_color(text.as_str(), true);
    if document_has_color(loose.as_str()) {
        return loose;
    }
    let first = add_first_color(text.as_str());
    if document_has_color(first.as_str()) {
        return first;
    }
    text
}

/// Adds the switch.
fn add_switch(text: String) -> (r: Result<String, toml_edit::TomlError>)
    requires
        toml_document::toml_root(text@) is Some,
    ensures
        r matches Ok(s) && s@ == with_switch(text@) && gets_switch(text@, s@),
{
    match root_has_key(text.as_str(), "enabled") {
        Ok(true) => Ok(text),
        _ => with_root_bool(text.as_str(), "enabled", true),
    }
}

/// Adds what a file lacks.
fn complete(text: &str) -> (r: Result<String, toml_edit::TomlError>)
    ensures
        match completed(text@) {
            Some(after) => {
                &&& r matches Ok(s)
                &&& s@ == after
                &&& gets_switch(colored(sectioned(text@)->0), s@)
            },
            None => r is Err,
        },
{
    match add_section(text) {
        Ok(with_section) => add_switch(add_color(with_section)),
        Err(error) => Err(error),
    }
}

/// Brings a configuration file up to date. Read again, it has its switch, and the
/// items it had when the section and the color had been added.
pub fn migrate_config_text(text: &str) -> (r: Result<Migration, ConfigError>)
    ensures
        match completed(text@) {
            None => r matches Err(ConfigError::TomlEdit(_)),
            Some(after) => r matches Ok(m) && m.text@ == after && m.changed == (after != text@),
        },
        r matches Ok(m) ==> root_has(m.text@, "enabled"@),
        r matches Ok(m) ==> gets_switch(colored(sectioned(text@)->0), m.text@),
{
    match complete(text) {
        Err(error) => Err(ConfigError::TomlEdit(error)),
        Ok(after) => Ok(finish_migration(text, after)),
    }
}

/// A document in which a line starts the section, with its switch and a color of
/// waiting, stays as it is, to the letter.
pub proof fn complete_file_is_kept(text: Seq<char>)
    requires
        root_has(text, "enabled"@),
        sections::has_table(text::lines(text), "process_wait"@, false),
        has_color(text) || forall|loose: bool| !sections::lacks_color(text, loose),
    ensures
        completed(text) == Some(text),
{
    if !has_color(text) {
        assert(!sections::lacks_color(text, false));
        assert(!sections::lacks_color(text, true));
    }
}

proof fn lemma_color_keeps_lines(text: Seq<char>)
    ensures
        sections::occur_in(text::lines(text), text::lines(colored(text))),
{
    sections::lemma_occur_all(text::lines(text), text::lines(text));
    sections::color_keeps_lines(text, false);
    sections::color_keeps_lines(text, true);
    sections::first_color_is_seen(text);
}

/// The section and the color are added to the lines of a file, which stay in
/// their order, up to the carriage returns at their ends.
pub proof fn additions_keep_lines(text: Seq<char>)
    requires
        sectioned(text) is Some,
    ensures
        sections::occur_in(text::lines(text), text::lines(colored(sectioned(text)->0))),
{
    let with_section = sectioned(text)->0;
    let with_color = colored(with_section);
    sections::lemma_occur_all(text::lines(text), text::lines(text));
    sections::section_keeps_lines(text);
    lemma_color_keeps_lines(with_section);
    sections::lemma_occur_chain(text::lines(text), text::lines(with_section), text::lines(with_color));
}

/// A file has its switch before one is added.
pub open spec fn has_its_switch(text: Seq<char>) -> bool {
    sectioned(text) matches Some(with_section) && root_has(colored(with_section), "enabled"@)
}

/// A file has its section in a line, from the start or added.
pub open spec fn shows_its_section(text: Seq<char>) -> bool {
    sectioned(text) matches Some(with_section) && sections::has_table(
        text::lines(with_section),
        "process_wait"@,
        false,
    )
}

/// A color of waiting is added to a file.
pub open spec fn gets_color(text: Seq<char>) -> bool {
    sectioned(text) matches Some(with_section) && colored(with_section) != with_section
}

/// The section that is added stands in a line.
pub proof fn added_section_is_shown(text: Seq<char>)
    requires
        sectioned(text) is Some,
        sectioned(text) != Some(text),
    ensures
        shows_its_section(text),
{
    sections::added_section_is_seen(text, false);
}

/// Bringing a file up to date twice is bringing it up to date once, where the file
/// has its switch, and its section in a line or nothing to add to its colors.
pub proof fn migrating_twice_is_once(text: Seq<char>)
    requires
        has_its_switch(text),
        shows_its_section(text) || !gets_color(text),
    ensures
        completed(completed(text)->0) == completed(text),
{
    let with_section = sectioned(text)->0;
    let with_color = colored(with_section);
    if with_section != text {
        added_section_is_shown(text);
    }
    if shows_its_section(text) {
        lemma_color_keeps_lines(with_section);
        sections::kept_lines_start_sections(
            text::lines(with_section),
            text::lines(with_color),
            "process_wait"@,
            false,
        );
    }
}

/// A line between two line feeds is among the lines.
proof fn lemma_line_in(s: Seq<char>, a: int, b: int)
    requires
        0 < a <= b < s.len(),
        s[a - 1] == '\n',
        s[b] == '\n',
        forall|i: int| a <= i < b ==> s[i] != '\n',
        a < b ==> s[b - 1] != '\r',
    ensures
        text::lines(s) == text::lines(s.take(a)) + seq![s.subrange(a, b)] + text::lines(s.skip(b + 1)),
        text::lines(s)[text::lines(s.take(a)).len() as int] == s.subrange(a, b),
{
    let line = s.subrange(a, b);
    sections::lemma_lines_add(s.take(a), s.skip(a));
    assert(s.take(a) + s.skip(a) =~= s);
    text::lemma_lines_cons(line, s.skip(b + 1));
    assert(line + seq!['\n'] + s.skip(b + 1) =~= s.skip(a));
    assert(text::strip_cr(line) == line);
}

/// What a further line makes of the section on colors.
proof fn lemma_color_line(s: Seq<char>, a: int, b: int, loose: bool)
    requires
        0 < a < b < s.len(),
        s[a - 1] == '\n',
        s[b] == '\n',
        forall|i: int| a <= i < b ==> s[i] != '\n',
        s[b - 1] != '\r',
    ensures
        ({
            let line = s.subrange(a, b);
            let before = text::lines(s.take(a));
            let now = text::lines(s.take(b + 1));
            let key = "process_wait"@;
            &&& sections::starts_table(line, "colors"@, loose) ==> sections::in_table(now, "colors"@, loose)
            &&& sections::in_table(before, "colors"@, loose) && !text::is_white(s[a]) && s[a] != '[' ==> {
                &&& sections::in_table(now, "colors"@, loose)
                &&& sections::gives(line, key, loose) ==> sections::has_key(now, "colors"@, key, loose)
            }
            &&& sections::has_key(before, "colors"@, key, loose) ==> sections::has_key(now, "colors"@, key, loose)
        }),
{
    let t = s.take(b + 1);
    let line = s.subrange(a, b);
    lemma_line_in(t, a, b);
    assert(t.take(a) =~= s.take(a));
    assert(t.subrange(a, b) =~= line);
    assert(text::lines(t.skip(b + 1)) =~= seq![]);
    assert(text::lines(t) =~= text::lines(s.take(a)).push(line));
    sections::lemma_lines_in_push(text::lines(s.take(a)), line, "colors"@, "process_wait"@, loose);
    if sections::starts_table(line, "colors"@, loose) {
        sections::lemma_starts_is_header(line, "colors"@, loose);
    }
    if !text::is_white(s[a]) && s[a] != '[' {
        sections::lemma_no_header(line, loose);
    }
}

/// What the file as it is first written has in its sections.
#[verifier::spinoff_prover]
#[verifier::rlimit(60)]
proof fn lemma_default_sections(loose: bool)
    ensures
        sections::has_table(text::lines(DEFAULT_CONFIG_TEXT@), "process_wait"@, false),
        sections::has_key(text::lines(DEFAULT_CONFIG_TEXT@), "colors"@, "process_wait"@, loose),
{
    reveal_strlit(
        "# no-sleep-till-done configuration

# Keep the background service's sleep override active while the menu app runs.
enabled = true

# Seconds the lid must remain closed before the controller sleeps the Mac.
delay_seconds = 60

# Seconds between lid-state checks in the controller.
poll_seconds = 1

# Seconds between menu bar refreshes.
menu_refresh_seconds = 5

[process_wait]
# When enabled, sleep is delayed after delay_seconds until all matching
# command lines disappear, then exit_grace_seconds is counted before sleep.
enabled = false
command_substrings = []
exit_grace_seconds = 300

[colors]
# Color for the small menu bar state dot.
# Supports #rrggbb hex colors and standard HTML/CSS color names.
ready = \"green\"
timer = \"orange\"
process_wait = \"blue\"
error = \"red\"
unknown = \"gray\"
",
    );
    reveal_strlit("process_wait");
    reveal_strlit("colors");
    reveal_strlit("process_wait = \"blue\"");
    reveal_strlit("[");
    reveal_strlit("]");
    let s = DEFAULT_CONFIG_TEXT@;
    assert(sections::has_table(text::lines(s), "process_wait"@, false)) by {
        let head = sections::header("process_wait"@);
        assert(s.subrange(362, 376) =~= head);
        lemma_line_in(s, 362, 376);
    }
    assert(sections::has_key(text::lines(s), "colors"@, "process_wait"@, loose)) by {
        assert(s.subrange(591, 599) =~= sections::header("colors"@));
        let entry = s.subrange(740, 761);
        assert(entry =~= sections::PROCESS_WAIT_COLOR@);
        sections::lemma_wait_color_entry(loose);
        lemma_color_line(s, 591, 599, loose);
        lemma_color_line(s, 600, 641, loose);
        lemma_color_line(s, 642, 706, loose);
        lemma_color_line(s, 707, 722, loose);
        lemma_color_line(s, 723, 739, loose);
        lemma_color_line(s, 740, 761, loose);
        lemma_color_line(s, 762, 775, loose);
        lemma_color_line(s, 776, 792, loose);
        assert(s.take(793) =~= s);
    }
}

/// The file as it is first written lacks neither the section nor the color, and
/// where it is a document with its switch it stays as it is.
pub proof fn default_file_is_complete()
    ensures
        sections::has_table(text::lines(DEFAULT_CONFIG_TEXT@), "process_wait"@, false),
        forall|loose: bool| !sections::lacks_color(DEFAULT_CONFIG_TEXT@, loose),
        toml_document::toml_root(DEFAULT_CONFIG_TEXT@) is Some ==> {
            &&& sectioned(DEFAULT_CONFIG_TEXT@) == Some(DEFAULT_CONFIG_TEXT@)
            &&& colored(DEFAULT_CONFIG_TEXT@) == DEFAULT_CONFIG_TEXT@
        },
        root_has(DEFAULT_CONFIG_TEXT@, "enabled"@) ==> completed(DEFAULT_CONFIG_TEXT@) == Some(DEFAULT_CONFIG_TEXT@),
{
    lemma_default_sections(false);
    lemma_default_sections(true);
    assert forall|loose: bool| !sections::lacks_color(DEFAULT_CONFIG_TEXT@, loose) by {
        lemma_default_sections(loose);
    }
    assert(!sections::lacks_color(DEFAULT_CONFIG_TEXT@, false));
    assert(!sections::lacks_color(DEFAULT_CONFIG_TEXT@, true));
}

/// Changes the switch in a configuration file. Read again, the file has the
/// switch as it was set, and every other item as it was.
pub fn set_enabled(text: &str, enabled: bool) -> (r: Result<String, ConfigError>)
    ensures
        match toml_document::toml_root(text@) {
            None => r matches Err(ConfigError::TomlEdit(_)),
            Some(_) => r matches Ok(s) && s@ == toml_document::toml_with_bool(text@, "enabled"@, enabled)
                && root_has(s@, "enabled"@) && toml_document::toml_root(s@)->0["enabled"@].0 == Some(enabled)
                && keeps_items(text@, s@),
        },
{
    match with_root_bool(text, "enabled", enabled) {
        Err(error) => Err(ConfigError::TomlEdit(error)),
        Ok(s) => Ok(s),
    }
}

/// The file of an application below the home directory.
pub open spec fn config_below(home: Seq<char>, app: Seq<char>) -> Seq<char> {
    path::joined(path::joined(path::joined(home, ".config"@), app), "config.toml"@)
}

fn config_file_below(home: &str, app: &str) -> (r: String)
    ensures
        r@ == config_below(home@, app@),
{
    let dir = join_path(home, ".config");
    let own = join_path(dir.as_str(), app);
    join_path(own.as_str(), "config.toml")
}

/// What an optional text holds.
pub open spec fn view_of(s: Option<&str>) -> Option<Seq<char>> {
    match s {
        Some(text) => Some(text@),
        None => None,
    }
}

/// The configuration file, by what the environment names and the home directory.
pub open spec fn config_file_for(named: Option<Seq<char>>, formerly_named: Option<Seq<char>>, home: Seq<char>) -> Seq<
    char,
> {
    match (named, formerly_named) {
        (Some(file), _) => file,
        (None, Some(file)) => file,
        (None, None) => config_below(home, APP_NAME@),
    }
}

/// A missing configuration file is copied from the one under the former name.
pub open spec fn legacy_is_copied(file: Seq<char>, home: Seq<char>, legacy_is_file: bool) -> bool {
    legacy_is_file && !path::same_way(config_below(home, LEGACY_APP_NAME@), file)
}

/// The home directory whose configuration counts.
pub open spec fn home_that_counts(
    is_root: bool,
    sudo_user_home: Option<Seq<char>>,
    console_user_home: Option<Seq<char>>,
    home: Option<Seq<char>>,
) -> Seq<char> {
    match (is_root, sudo_user_home, console_user_home, home) {
        (true, Some(dir), _, _) => dir,
        (true, None, Some(dir), _) => dir,
        (_, _, _, Some(dir)) => dir,
        _ => "."@,
    }
}

/// What an optional string holds.
pub open spec fn held_by(s: Option<String>) -> Option<Seq<char>> {
    match s {
        Some(text) => Some(text@),
        None => None,
    }
}

/// The configuration file: the one that the environment names, under the
/// variable's present or former name, or the one below the home directory.
pub fn config_path(named: Option<&str>, formerly_named: Option<&str>, home: &str) -> (r: String)
    ensures
        r@ == (match (named, formerly_named) {
            (Some(file), _) => file@,
            (None, Some(file)) => file@,
            (None, None) => config_below(home@, APP_NAME@),
        }),
        r@ == config_file_for(view_of(named), view_of(formerly_named), home@),
{
    if let Some(file) = named {
        return file.to_owned();
    }
    if let Some(file) = formerly_named {
        return file.to_owned();
    }
    config_file_below(home, APP_NAME)
}

/// The configuration file under the application's former name.
pub fn legacy_config_path(home: &str) -> (r: String)
    ensures
        r@ == config_below(home@, LEGACY_APP_NAME@),
{
    config_file_below(home, LEGACY_APP_NAME)
}

/// Whether a missing configuration file is copied from the one under the
/// application's former name.
pub fn copies_legacy_config(file: &str, home: &str, legacy_is_file: bool) -> (r: bool)
    ensures
        r == (legacy_is_file && !path::same_way(config_below(home@, LEGACY_APP_NAME@), file@)),
        r == legacy_is_copied(file@, home@, legacy_is_file),
{
    let legacy = legacy_config_path(home);
    !same_path(legacy.as_str(), file) && legacy_is_file
}

/// The home directory whose configuration counts. The administrator acts for
/// the person who called on them, or else for the one at the console.
pub fn default_config_home(
    is_root: bool,
    sudo_user_home: Option<String>,
    console_user_home: Option<String>,
    home: Option<String>,
) -> (r: String)
    ensures
        r@ == (match (is_root, sudo_user_home, console_user_home, home) {
            (true, Some(dir), _, _) => dir@,
            (true, None, Some(dir), _) => dir@,
            (_, _, _, Some(dir)) => dir@,
            _ => "."@,
        }),
        r@ == home_that_counts(is_root, held_by(sudo_user_home), held_by(console_user_home), held_by(home)),
{
    if is_root {
        if let Some(dir) = sudo_user_home {
            return dir;
        }
        if let Some(dir) = console_user_home {
            return dir;
        }
    }
    match home {
        Some(dir) => dir,
        None => ".".to_owned(),
    }
}

/// The person at the console, by the name of the console's owner.
pub open spec fn console_user_in(report: Seq<char>) -> Option<Seq<char>> {
    let user = text::trim(report);
    if user.len() == 0 || user == "root"@ || user == "loginwindow"@ {
        None
    } else {
        Some(user)
    }
}

/// The person at the console, from what came of asking for the console's owner.
pub fn console_user(output: Option<CommandOutput>) -> (r: Option<String>)
    ensures
        match output {
            Some(o) => if o.success {
                match console_user_in(command::lossy_text(o.stdout@)) {
                    Some(user) => r matches Some(name) && name@ == user,
                    None => r is None,
                }
            } else {
                r is None
            },
            None => r is None,
        },
{
    match output {
        None => None,
        Some(o) => {
            if !o.success {
                return None;
            }
            let report = decode_lossy(&o.stdout);
            let user = trimmed_string(report.as_str());
            if user.as_str().is_empty() || str_eq(user.as_str(), "root") || str_eq(user.as_str(), "loginwindow") {
                return None;
            }
            Some(user)
        },
    }
}

/// The first of some lines that begins with `prefix`, without the prefix.
pub open spec fn first_after_prefix(ls: Seq<Seq<char>>, prefix: Seq<char>) -> Option<Seq<char>>
    decreases ls.len(),
{
    if ls.len() == 0 {
        None
    } else if text::starts_with(ls[0], prefix) {
        Some(ls[0].skip(prefix.len() as int))
    } else {
        first_after_prefix(ls.drop_first(), prefix)
    }
}

/// The home directory that a user's record names.
pub open spec fn home_in_record(report: Seq<char>) -> Option<Seq<char>> {
    match first_after_prefix(text::lines(report), "NFSHomeDirectory: "@) {
        Some(rest) => Some(text::trim(rest)),
        None => None,
    }
}

fn read_home_in_record(report: &str) -> (r: Option<String>)
    ensures
        match home_in_record(report@) {
            Some(home) => r matches Some(dir) && dir@ == home,
            None => r is None,
        },
{
    let v = chars_of(report);
    let ls = lines_of(v.as_slice());
    let prefix = chars_of("NFSHomeDirectory: ");
    let ghost all = text::lines(report@);
    let mut i: usize = 0;
    assert(all.skip(0) =~= all);
    while i < ls.len()
        invariant
            i <= ls@.len(),
            text::views(ls@) == all,
            all == text::lines(report@),
            prefix@ == "NFSHomeDirectory: "@,
            first_after_prefix(all, prefix@) == first_after_prefix(all.skip(i as int), prefix@),
        decreases ls@.len() - i,
    {
        assert(text::views(ls@)[i as int] == ls@[i as int]@);
        assert(all.skip(i as int)[0] == ls@[i as int]@);
        assert(all.skip(i as int).drop_first() =~= all.skip(i + 1));
        let line = ls[i];
        if has_prefix(line, prefix.as_slice()) {
            let rest = slice_subrange(line, prefix.len(), line.len());
            assert(rest@ =~= line@.skip(prefix@.len() as int));
            return Some(string_of(trimmed(rest)));
        }
        i = i + 1;
    }
    None
}

/// Where home directories usually are.
pub fn usual_home(user: &str) -> (r: String)
    ensures
        r@ == path::joined("/Users"@, user@),
{
    join_path("/Users", user)
}

/// The home directory of a user, from what came of asking for the user's record;
/// where the record does not say, the usual place. Nothing is known where the
/// question could not be asked.
pub fn user_home(user: &str, output: Option<CommandOutput>) -> (r: Option<String>)
    ensures
        match output {
            Some(o) => r matches Some(dir) && dir@ == (match (
                o.success,
                home_in_record(command::lossy_text(o.stdout@)),
            ) {
                (true, Some(home)) => home,
                _ => path::joined("/Users"@, user@),
            }),
            None => r is None,
        },
{
    match output {
        None => None,
        Some(o) => {
            if o.success {
                let report = decode_lossy(&o.stdout);
                if let Some(home) = read_home_in_record(report.as_str()) {
                    return Some(home);
                }
            }
            Some(usual_home(user))
        },
    }
}

/// The name of a user's record.
pub fn user_record(user: &str) -> (r: String)
    ensures
        r@ == "/Users/"@ + user@,
{
    let mut r = "/Users/".to_owned();
    r.append(user);
    r
}

/// The configuration stands in a directory of the application below the home
/// directory's own for settings.
pub proof fn configuration_stands_below_home(home: Seq<char>, app: Seq<char>)
    requires
        home.len() > 0,
        home.last() != '/',
        app.len() > 0,
        app[0] != '/',
        app.last() != '/',
    ensures
        config_below(home, app) == home + "/.config/"@ + app + "/config.toml"@,
        config_below(home.push('/'), app) == config_below(home, app),
        APP_NAME@ == "no-sleep-till-done"@,
        LEGACY_APP_NAME@ == "lidsleep-delay"@,
{
    reveal_strlit(".config");
    reveal_strlit("/");
    reveal_strlit("/.config/");
    reveal_strlit("config.toml");
    reveal_strlit("/config.toml");
    let first = path::joined(home, ".config"@);
    assert(first.last() == 'g');
    let second = path::joined(first, app);
    assert(second =~= home + "/.config/"@ + app);
    assert(second.last() == app.last());
    assert(config_below(home, app) =~= home + "/.config/"@ + app + "/config.toml"@);
    assert(path::joined(home.push('/'), ".config"@) =~= first);
}

/// The person at the console is the one whom the report names, without the white
/// space around the name; the administrator and the window for logging in are no
/// persons.
pub proof fn console_user_is_named(before: Seq<char>, name: Seq<char>, after: Seq<char>)
    requires
        forall|i: int| 0 <= i < before.len() ==> text::is_white(#[trigger] before[i]),
        forall|i: int| 0 <= i < after.len() ==> text::is_white(#[trigger] after[i]),
        name.len() > 0,
        !text::is_white(name[0]),
        !text::is_white(name.last()),
    ensures
        console_user_in(before + name + after) == (if name == "root"@ || name == "loginwindow"@ {
            None
        } else {
            Some(name)
        }),
        console_user_in(before + after) is None,
{
    text::white_ends_are_cut(before, name, after);
    text::white_text_is_cut(before + after);
}

/// The file that the environment names counts, under the variable's present name
/// before its former one; where it names none, the one below the home directory.
pub proof fn environment_names_the_file(file: Seq<char>, other: Option<Seq<char>>, home: Seq<char>)
    requires
        home.len() > 0,
        home.last() != '/',
    ensures
        config_file_for(Some(file), other, home) == file,
        config_file_for(None, Some(file), home) == file,
        config_file_for(None, None, home) == home + "/.config/no-sleep-till-done/config.toml"@,
{
    reveal_strlit("no-sleep-till-done");
    reveal_strlit("/.config/");
    reveal_strlit("/config.toml");
    reveal_strlit("/.config/no-sleep-till-done/config.toml");
    configuration_stands_below_home(home, APP_NAME@);
    assert(home + "/.config/"@ + APP_NAME@ + "/config.toml"@ =~= home + "/.config/no-sleep-till-done/config.toml"@);
}

/// The file under the former name is copied where there is one, unless it is the
/// very file that is missing.
pub proof fn former_file_is_copied(file: Seq<char>, home: Seq<char>)
    ensures
        !legacy_is_copied(file, home, false),
        !legacy_is_copied(config_below(home, "lidsleep-delay"@), home, true),
        path::names(file) != path::names(config_below(home, "lidsleep-delay"@)) ==> legacy_is_copied(file, home, true),
{
}

/// The administrator acts for the person who called on them, before the one at the
/// console; everybody else has their own home directory, and where none is known
/// the current directory counts.
pub proof fn administrator_acts_for_someone(
    dir: Seq<char>,
    sudo_user_home: Option<Seq<char>>,
    console_user_home: Option<Seq<char>>,
    home: Option<Seq<char>>,
)
    ensures
        home_that_counts(true, Some(dir), console_user_home, home) == dir,
        home_that_counts(true, None, Some(dir), home) == dir,
        home_that_counts(true, None, None, Some(dir)) == dir,
        home_that_counts(false, sudo_user_home, console_user_home, Some(dir)) == dir,
        home_that_counts(true, None, None, None) == "."@,
        home_that_counts(false, sudo_user_home, console_user_home, None) == "."@,
{
}

/// A record names the home directory in the first line that says so, without the
/// white space around it.
pub proof fn record_names_the_home(line: Seq<char>, home: Seq<char>, rest: Seq<char>)
    requires
        forall|i: int| 0 <= i < line.len() ==> line[i] != '\n',
        !text::starts_with(line, "NFSHomeDirectory: "@),
        line.len() == 0 || line.last() != '\r',
        home.len() > 0,
        forall|i: int| 0 <= i < home.len() ==> home[i] != '\n',
        !text::is_white(home[0]),
        !text::is_white(home.last()),
    ensures
        home_in_record("NFSHomeDirectory: "@ + home + seq!['\n'] + rest) == Some(home),
        home_in_record(line + seq!['\n'] + rest) == home_in_record(rest),
        home_in_record(Seq::<char>::empty()) is None,
{
    reveal_strlit("NFSHomeDirectory: ");
    let prefix = "NFSHomeDirectory: "@;
    let first = prefix + home;
    assert forall|i: int| 0 <= i < first.len() implies first[i] != '\n' by {
        if i < prefix.len() {
            assert(first[i] == prefix[i]);
        } else {
            assert(first[i] == home[i - prefix.len()]);
        }
    }
    text::line_feeds_end_lines(first, rest);
    assert(first.last() == home.last());
    assert(first.take(prefix.len() as int) =~= prefix);
    assert(first.skip(prefix.len() as int) =~= home);
    text::white_ends_are_cut(seq![], home, seq![]);
    assert(seq![] + home + seq![] =~= home);
    text::line_feeds_end_lines(line, rest);
    let all = text::lines(line + seq!['\n'] + rest);
    assert(all.drop_first() =~= text::lines(rest));
}

/// What an application has that nobody configured.
pub proof fn defaults_are_these()
    ensures
        default_app().enabled,
        default_app().delay_seconds == 60,
        default_app().poll_seconds == 1,
        default_app().menu_refresh_seconds == 5,
        !default_app().process_wait.enabled,
        default_app().process_wait.command_substrings.len() == 0,
        default_app().process_wait.exit_grace_seconds == 300,
        normalized_app(default_app()) == default_app(),
{
    lemma_filter_all(default_app().process_wait.command_substrings);
}

/// A document without a line for the section gets the section at its end, on lines
/// of its own; one that has the line stays as it is. What is no document with the
/// section either is refused, unless it has the table in another form.
pub proof fn missing_section_is_added(text: Seq<char>)
    ensures
        ({
            let longer = if text.len() > 0 && text.last() == '\n' {
                text + sections::PROCESS_WAIT_SECTION@
            } else {
                text + seq!['\n'] + sections::PROCESS_WAIT_SECTION@
            };
            let has_line = exists|i: int|
                0 <= i < text::lines(text).len() && text::trim(#[trigger] text::lines(text)[i])
                    == seq!['['] + "process_wait"@ + seq![']'];
            &&& has_line && toml_document::toml_root(text) is Some ==> sectioned(text) == Some(text)
            &&& !has_line && toml_document::toml_root(longer) is Some ==> sectioned(text) == Some(longer)
            &&& has_line && toml_document::toml_root(text) is None ==> sectioned(text) is None
            &&& toml_document::toml_root(text) is None && toml_document::toml_root(longer) is None ==> sectioned(
                text,
            ) is None
        }),
{
    reveal_strlit("\n");
    reveal_strlit("[");
    reveal_strlit("]");
    let ls = text::lines(text);
    assert(sections::header("process_wait"@) =~= seq!['['] + "process_wait"@ + seq![']']);
    if sections::has_table(ls, "process_wait"@, false) {
        let i = choose|i: int| 0 <= i < ls.len() && sections::starts_table(#[trigger] ls[i], "process_wait"@, false);
        assert(text::trim(ls[i]) == seq!['['] + "process_wait"@ + seq![']']);
    }
    if exists|i: int|
        0 <= i < ls.len() && text::trim(#[trigger] ls[i]) == seq!['['] + "process_wait"@ + seq![']'] {
        let i = choose|i: int|
            0 <= i < ls.len() && text::trim(#[trigger] ls[i]) == seq!['['] + "process_wait"@ + seq![']'];
        assert(sections::starts_table(ls[i], "process_wait"@, false));
    }
    if text.len() > 0 {
        assert(text.skip(text.len() - 1) =~= seq![text.last()]);
        assert("\n"@ =~= seq!['\n']);
        if text.last() == '\n' {
            assert(sections::ended(text) == text);
        } else {
            assert(seq![text.last()][0] != seq!['\n'][0]);
            assert(sections::ended(text) =~= text + seq!['\n']);
        }
    } else {
        assert(sections::ended(text) =~= text + seq!['\n']);
    }
}

/// A document with the color stays as it is; one without gets it, wherever an entry
/// in its section on colors gives it the color. The file is left alone where no
/// entry does.
pub proof fn missing_color_is_added(text: Seq<char>)
    ensures
        has_color(text) ==> colored(text) == text,
        has_color(sections::with_wait_color(text, false)) || has_color(sections::with_wait_color(text, true))
            || has_color(sections::with_first_color(text)) ==> has_color(colored(text)),
        !has_color(text) && has_color(sections::with_wait_color(text, false)) ==> colored(text)
            == sections::with_wait_color(text, false),
        !has_color(colored(text)) ==> colored(text) == text,
        has_color(text) <==> {
            &&& toml_document::toml_root(text) is Some
            &&& toml_document::toml_root(text)->0.contains_key("colors"@)
            &&& toml_document::toml_root(text)->0["colors"@].1 is Some
            &&& toml_document::toml_root(text)->0["colors"@].1->0.contains("process_wait"@)
        },
{
}

/// The switch is added, turned on, where a document has none under that name; one
/// that has it stays as it is. The three additions are made one after another.
pub proof fn additions_are_made_in_order(text: Seq<char>)
    ensures
        toml_document::toml_root(text) is Some && toml_document::toml_root(text)->0.contains_key("enabled"@)
            ==> with_switch(text) == text,
        !(toml_document::toml_root(text) is Some && toml_document::toml_root(text)->0.contains_key("enabled"@))
            ==> with_switch(text) == toml_document::toml_with_bool(text, "enabled"@, true),
        sectioned(text) is None ==> completed(text) is None,
        sectioned(text) is Some ==> completed(text) == Some(with_switch(colored(sectioned(text)->0))),
{
}

} // verus!
