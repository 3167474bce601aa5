//! The way of the configuration file: it is made where it is missing, brought up
//! to date, and read.
use vstd::prelude::*;

use crate::config;
use crate::config::{copies_legacy_config, default_config_text, migrate_config_text, AppConfig, ConfigError};
use crate::path;
use crate::sections;
use crate::text;

verus! {

/// What is to be done for the configuration.
#[derive(Debug)]
pub enum LoadStep {
    /// Is there a file?
    LookForFile,
    /// Make the directory of the file, where it stands in one.
    MakeDirectory,
    /// Is there a file under the application's former name?
    LookForLegacy,
    /// Copy the file under the former name.
    CopyLegacy,
    /// Write the file as it is at first.
    WriteDefault(String),
    /// Read the file.
    ReadFile,
    /// Write the file that was brought up to date.
    WriteMigrated(String),
    /// Take the values out of a text.
    ReadValues(String),
    /// The configuration.
    Done(Result<AppConfig, ConfigError>),
}

/// What came of a step.
#[derive(Debug)]
pub enum LoadEvent {
    /// Whether there is a file.
    Looked(bool),
    /// Something was made, copied or written.
    Written(Result<(), String>),
    /// The text of the file.
    Read(Result<String, String>),
    /// The values in a text.
    ValuesRead(Result<AppConfig, String>),
}

/// A step ends the way for a reason that the system gave.
pub open spec fn fails(next: LoadStep, message: String) -> bool {
    next == LoadStep::Done(Err(ConfigError::Io(message)))
}

/// What follows on reading the file: it is brought up to date, and written where
/// that changed it.
pub open spec fn read_leads_to(text: Seq<char>, next: LoadStep) -> bool {
    match config::completed(text) {
        None => next matches LoadStep::Done(Err(ConfigError::TomlEdit(_))),
        Some(after) => if after == text {
            next matches LoadStep::ReadValues(t) && t@ == text
        } else {
            next matches LoadStep::WriteMigrated(t) && t@ == after
        },
    }
}

/// What follows on a step by what came of it. What does not answer a step leaves
/// it as it is.
pub open spec fn leads_to(
    step: LoadStep,
    event: LoadEvent,
    file: Seq<char>,
    home: Seq<char>,
    next: LoadStep,
) -> bool {
    match (step, event) {
        (LoadStep::LookForFile, LoadEvent::Looked(found)) => next == if found {
            LoadStep::ReadFile
        } else {
            LoadStep::MakeDirectory
        },
        (LoadStep::LookForLegacy, LoadEvent::Looked(found)) => if found && !path::same_way(
            config::config_below(home, config::LEGACY_APP_NAME@),
            file,
        ) {
            next is CopyLegacy
        } else {
            next matches LoadStep::WriteDefault(t) && t@ == config::DEFAULT_CONFIG_TEXT@
        },
        (LoadStep::MakeDirectory, LoadEvent::Written(r)) => match r {
            Ok(_) => next is LookForLegacy,
            Err(message) => fails(next, message),
        },
        (LoadStep::CopyLegacy, LoadEvent::Written(r)) => match r {
            Ok(_) => next is ReadFile,
            Err(message) => fails(next, message),
        },
        (LoadStep::WriteDefault(_), LoadEvent::Written(r)) => match r {
            Ok(_) => next is ReadFile,
            Err(message) => fails(next, message),
        },
        (LoadStep::WriteMigrated(text), LoadEvent::Written(r)) => match r {
            Ok(_) => next == LoadStep::ReadValues(text),
            Err(message) => fails(next, message),
        },
        (LoadStep::ReadFile, LoadEvent::Read(r)) => match r {
            Ok(text) => read_leads_to(text@, next),
            Err(message) => fails(next, message),
        },
        (LoadStep::ReadValues(_), LoadEvent::ValuesRead(r)) => match r {
            Ok(values) => next matches LoadStep::Done(Ok(app)) && app@ == config::normalized_app(values@),
            Err(message) => next == LoadStep::Done(Err(ConfigError::Toml(message))),
        },
        _ => next == step,
    }
}

/// After the file was made or written.
fn after_writing(result: Result<(), String>, next: LoadStep) -> (r: LoadStep)
    ensures
        r == (match result {
            Ok(_) => next,
            Err(message) => LoadStep::Done(Err(ConfigError::Io(message))),
        }),
{
    match result {
        Ok(()) => next,
        Err(message) => LoadStep::Done(Err(ConfigError::Io(message))),
    }
}

/// After the file was read.
fn after_reading(text: String) -> (r: LoadStep)
    ensures
        read_leads_to(text@, r),
{
    match migrate_config_text(text.as_str()) {
        Err(error) => LoadStep::Done(Err(error)),
        Ok(migration) => if migration.changed {
            LoadStep::WriteMigrated(migration.text)
        } else {
            LoadStep::ReadValues(migration.text)
        },
    }
}

/// What is to be done next for the configuration in `file`, by what came of a
/// step; the way starts with looking for the file. `home` is the home directory
/// in which a file under the application's former name may stand.
pub fn load_or_create_config(step: LoadStep, event: LoadEvent, file: &str, home: &str) -> (next: LoadStep)
    ensures
        leads_to(step, event, file@, home@, next),
{
    match (step, event) {
        (LoadStep::LookForFile, LoadEvent::Looked(found)) => if found {
            LoadStep::ReadFile
        } else {
            LoadStep::MakeDirectory
        },
        (LoadStep::LookForLegacy, LoadEvent::Looked(found)) => if copies_legacy_config(file, home, found) {
            LoadStep::CopyLegacy
        } else {
            LoadStep::WriteDefault(default_config_text())
        },
        (LoadStep::MakeDirectory, LoadEvent::Written(result)) => after_writing(result, LoadStep::LookForLegacy),
        (LoadStep::CopyLegacy, LoadEvent::Written(result)) => after_writing(result, LoadStep::ReadFile),
        (LoadStep::WriteDefault(_), LoadEvent::Written(result)) => after_writing(result, LoadStep::ReadFile),
        (LoadStep::WriteMigrated(text), LoadEvent::Written(result)) => after_writing(
            result,
            LoadStep::ReadValues(text),
        ),
        (LoadStep::ReadFile, LoadEvent::Read(result)) => match result {
            Ok(text) => after_reading(text),
            Err(message) => LoadStep::Done(Err(ConfigError::Io(message))),
        },
        (LoadStep::ReadValues(_), LoadEvent::ValuesRead(result)) => match result {
            Ok(values) => LoadStep::Done(Ok(values.normalized())),
            Err(message) => LoadStep::Done(Err(ConfigError::Toml(message))),
        },
        (step, _) => step,
    }
}

/// A file that is there is never replaced: it is read, and written again only
/// with what was added to it. The section and the color are added to its lines;
/// then the switch is set, where it is missing.
pub proof fn present_file_is_only_completed(
    text: String,
    file: Seq<char>,
    home: Seq<char>,
    found: LoadStep,
    read: LoadStep,
)
    requires
        leads_to(LoadStep::LookForFile, LoadEvent::Looked(true), file, home, found),
        leads_to(found, LoadEvent::Read(Ok(text)), file, home, read),
    ensures
        match read {
            LoadStep::ReadValues(same) => same@ == text@,
            LoadStep::WriteMigrated(after) => {
                let with_color = config::colored(config::sectioned(text@)->0);
                &&& after@ != text@
                &&& after@ == config::with_switch(with_color)
                &&& sections::occur_in(text::lines(text@), text::lines(with_color))
            },
            LoadStep::Done(r) => r is Err,
            _ => false,
        },
{
    if config::sectioned(text@) is Some {
        config::additions_keep_lines(text@);
    }
}

/// A file that was written when it was brought up to date is left alone by the
/// next load, where it had its switch, and its section in a line or nothing to add
/// to its colors.
pub proof fn completed_file_is_left_alone(
    text: String,
    completed: String,
    file: Seq<char>,
    home: Seq<char>,
    again: LoadStep,
)
    requires
        leads_to(LoadStep::ReadFile, LoadEvent::Read(Ok(text)), file, home, LoadStep::WriteMigrated(completed)),
        leads_to(LoadStep::ReadFile, LoadEvent::Read(Ok(completed)), file, home, again),
        config::has_its_switch(text@),
        config::shows_its_section(text@) || !config::gets_color(text@),
    ensures
        again matches LoadStep::ReadValues(same) && same@ == completed@,
{
    config::migrating_twice_is_once(text@);
}

/// A missing file is copied from the one under the former name, where that is
/// there and another file, and else written as it is at first; then it is read.
/// What was written at first is read unchanged, now and by every later load, as
/// far as it is a document with its switch.
pub proof fn missing_file_is_made(
    file: Seq<char>,
    home: Seq<char>,
    legacy: bool,
    missing: LoadStep,
    housed: LoadStep,
    chosen: LoadStep,
    made: LoadStep,
    text: String,
    read: LoadStep,
)
    requires
        leads_to(LoadStep::LookForFile, LoadEvent::Looked(false), file, home, missing),
        leads_to(missing, LoadEvent::Written(Ok(())), file, home, housed),
        leads_to(housed, LoadEvent::Looked(legacy), file, home, chosen),
        leads_to(chosen, LoadEvent::Written(Ok(())), file, home, made),
        leads_to(made, LoadEvent::Read(Ok(text)), file, home, read),
    ensures
        missing is MakeDirectory,
        housed is LookForLegacy,
        chosen is CopyLegacy <==> legacy && !path::same_way(config::config_below(home, config::LEGACY_APP_NAME@), file),
        !(chosen is CopyLegacy) ==> (chosen matches LoadStep::WriteDefault(t) && t@ == config::DEFAULT_CONFIG_TEXT@),
        made is ReadFile,
        text@ == config::DEFAULT_CONFIG_TEXT@ && config::root_has(text@, "enabled"@) ==> (
        read matches LoadStep::ReadValues(same) && same@ == text@),
{
    config::default_file_is_complete();
}

/// A configuration that is loaded has no zero time and no empty string to look for.
pub proof fn loaded_configuration_is_usable(
    text: String,
    values: AppConfig,
    file: Seq<char>,
    home: Seq<char>,
    next: LoadStep,
)
    requires
        leads_to(LoadStep::ReadValues(text), LoadEvent::ValuesRead(Ok(values)), file, home, next),
    ensures
        next matches LoadStep::Done(Ok(app)) && {
            &&& app@.delay_seconds >= 1
            &&& app@.poll_seconds >= 1
            &&& app@.menu_refresh_seconds >= 1
            &&& app@.process_wait.exit_grace_seconds >= 1
            &&& forall|i: int|
                0 <= i < app@.process_wait.command_substrings.len() ==> (
                #[trigger] app@.process_wait.command_substrings[i]).len() > 0
        },
{
    config::normalized_is_usable(values@);
}

/// What fails on the way ends it, with the reason.
pub proof fn loading_fails_with_its_reason(
    step: LoadStep,
    message: String,
    file: Seq<char>,
    home: Seq<char>,
    unwritten: LoadStep,
    unread: LoadStep,
    unusable: LoadStep,
    text: String,
)
    requires
        step is MakeDirectory || step is CopyLegacy || step is WriteDefault || step is WriteMigrated,
        leads_to(step, LoadEvent::Written(Err(message)), file, home, unwritten),
        leads_to(LoadStep::ReadFile, LoadEvent::Read(Err(message)), file, home, unread),
        leads_to(LoadStep::ReadValues(text), LoadEvent::ValuesRead(Err(message)), file, home, unusable),
    ensures
        unwritten == LoadStep::Done(Err(ConfigError::Io(message))),
        unread == LoadStep::Done(Err(ConfigError::Io(message))),
        unusable == LoadStep::Done(Err(ConfigError::Toml(message))),
{
}

/// A configuration that is loaded has the values of the file, as far as they can
/// be used.
pub proof fn loaded_configuration_has_the_values_of_the_file(
    text: String,
    values: AppConfig,
    file: Seq<char>,
    home: Seq<char>,
    next: LoadStep,
)
    requires
        leads_to(LoadStep::ReadValues(text), LoadEvent::ValuesRead(Ok(values)), file, home, next),
    ensures
        next matches LoadStep::Done(Ok(app)) && {
            &&& values@.delay_seconds >= 1 ==> app@.delay_seconds == values@.delay_seconds
            &&& values@.poll_seconds >= 1 ==> app@.poll_seconds == values@.poll_seconds
            &&& values@.menu_refresh_seconds >= 1 ==> app@.menu_refresh_seconds == values@.menu_refresh_seconds
            &&& values@.process_wait.exit_grace_seconds >= 1 ==> app@.process_wait.exit_grace_seconds
                == values@.process_wait.exit_grace_seconds
            &&& app@.enabled == values@.enabled
            &&& app@.process_wait.enabled == values@.process_wait.enabled
            &&& app@.colors == values@.colors
        },
{
    config::usable_values_are_kept(values@);
}

/// A file that was written when it was brought up to date is what the values are
/// read from; a file that lacked nothing is not written.
pub proof fn values_are_read_from_the_file(
    text: String,
    now: String,
    file: Seq<char>,
    home: Seq<char>,
    written: LoadStep,
    read: LoadStep,
)
    requires
        leads_to(LoadStep::WriteMigrated(now), LoadEvent::Written(Ok(())), file, home, written),
        leads_to(LoadStep::ReadFile, LoadEvent::Read(Ok(text)), file, home, read),
    ensures
        written matches LoadStep::ReadValues(t) && t@ == now@,
        config::completed(text@) == Some(text@) ==> (read matches LoadStep::ReadValues(t) && t@ == text@),
        config::completed(text@) is None ==> (read matches LoadStep::Done(r) && r is Err),
        config::completed(text@) is Some && config::completed(text@) != Some(text@) ==> (
        read matches LoadStep::WriteMigrated(t) && Some(t@) == config::completed(text@)),
{
}

} // verus!
