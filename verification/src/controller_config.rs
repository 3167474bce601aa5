//! The settings of the controller: those of the file, and those of the command line.
use vstd::prelude::*;

use crate::cli;
use crate::cli::{switch_value, unknown_argument_message};
use crate::config;
use crate::config::{AppConfig, ProcessWaitConfig};
use crate::number;
use crate::power::{CommandError, CommandFailure};
use crate::system;
use crate::system::SystemError;
use crate::text::str_eq;
use crate::time;
use crate::time::Span;

verus! {

pub const USAGE: &'static str = "Usage: no-sleep-till-done [OPTIONS]

Options:
  --delay-seconds N          Seconds lid must stay closed before sleep [60]
  --poll-seconds N           Lid polling interval in seconds [1]
  --dry-run                  Log commands instead of changing power settings
  --once                     Read lid state once, then exit
  --keep-disabled-on-exit    Leave battery SleepDisabled enabled when daemon exits
  -h, --help                 Show this help
";

/// Which processes the controller waits for.
#[derive(Debug, PartialEq)]
pub struct ProcessWait {
    pub enabled: bool,
    pub command_substrings: Vec<String>,
    pub exit_grace: Span,
}

/// The settings of the controller.
#[derive(Debug, PartialEq)]
pub struct Config {
    pub enabled: bool,
    pub delay: Span,
    pub poll: Span,
    pub process_wait: ProcessWait,
    /// The delay, where the command line sets it.
    pub delay_override: Option<Span>,
    /// The polling interval, where the command line sets it.
    pub poll_override: Option<Span>,
    pub dry_run: bool,
    pub once: bool,
    pub keep_disabled_on_exit: bool,
}

/// What a `ProcessWait` holds.
#[verifier::ext_equal]
pub struct ProcessWaitModel {
    pub enabled: bool,
    pub command_substrings: Seq<Seq<char>>,
    pub exit_grace: Span,
}

/// What a `Config` holds.
#[verifier::ext_equal]
pub struct ConfigModel {
    pub enabled: bool,
    pub delay: Span,
    pub poll: Span,
    pub process_wait: ProcessWaitModel,
    pub delay_override: Option<Span>,
    pub poll_override: Option<Span>,
    pub dry_run: bool,
    pub once: bool,
    pub keep_disabled_on_exit: bool,
}

impl View for ProcessWait {
    type V = ProcessWaitModel;

    open spec fn view(&self) -> ProcessWaitModel {
        ProcessWaitModel {
            enabled: self.enabled,
            command_substrings: system::string_views(self.command_substrings@),
            exit_grace: self.exit_grace,
        }
    }
}

impl View for Config {
    type V = ConfigModel;

    open spec fn view(&self) -> ConfigModel {
        ConfigModel {
            enabled: self.enabled,
            delay: self.delay,
            poll: self.poll,
            process_wait: self.process_wait@,
            delay_override: self.delay_override,
            poll_override: self.poll_override,
            dry_run: self.dry_run,
            once: self.once,
            keep_disabled_on_exit: self.keep_disabled_on_exit,
        }
    }
}

/// A number of seconds.
pub open spec fn secs(n: u64) -> Span {
    Span { nanos: time::seconds(n as nat) as u128 }
}

/// The processes to wait for, by the file.
pub open spec fn wait_of(file: config::WaitModel) -> ProcessWaitModel {
    ProcessWaitModel {
        enabled: file.enabled,
        command_substrings: file.command_substrings,
        exit_grace: secs(file.exit_grace_seconds),
    }
}

impl ProcessWaitModel {
    /// There are processes to wait for.
    pub open spec fn active(self) -> bool {
        self.enabled && self.command_substrings.len() > 0
    }
}

impl ProcessWait {
    pub fn from_config(file: ProcessWaitConfig) -> (r: Self)
        ensures
            r@ == wait_of(file@),
    {
        ProcessWait {
            enabled: file.enabled,
            command_substrings: file.command_substrings,
            exit_grace: Span::from_secs(file.exit_grace_seconds),
        }
    }

    pub fn is_active(&self) -> (r: bool)
        ensures
            r == self@.active(),
    {
        self.enabled && self.command_substrings.len() > 0
    }
}

/// The settings of the file alone.
pub open spec fn settings_of(file: config::AppModel) -> ConfigModel {
    ConfigModel {
        enabled: file.enabled,
        delay: secs(file.delay_seconds),
        poll: secs(file.poll_seconds),
        process_wait: wait_of(file.process_wait),
        delay_override: None,
        poll_override: None,
        dry_run: false,
        once: false,
        keep_disabled_on_exit: false,
    }
}

/// The settings after the file was read again: what the command line sets, stays.
pub open spec fn reloaded(current: ConfigModel, file: config::AppModel) -> ConfigModel {
    ConfigModel {
        enabled: file.enabled,
        delay: match current.delay_override {
            Some(span) => span,
            None => secs(file.delay_seconds),
        },
        poll: match current.poll_override {
            Some(span) => span,
            None => secs(file.poll_seconds),
        },
        process_wait: wait_of(file.process_wait),
        ..current
    }
}

impl Config {
    /// The settings after the file was read again.
    pub fn with_app_config(&self, file: AppConfig) -> (r: Self)
        ensures
            r@ == reloaded(self@, file@),
    {
        Config {
            enabled: file.enabled,
            delay: match self.delay_override {
                Some(span) => span,
                None => Span::from_secs(file.delay_seconds),
            },
            poll: match self.poll_override {
                Some(span) => span,
                None => Span::from_secs(file.poll_seconds),
            },
            process_wait: ProcessWait::from_config(file.process_wait),
            delay_override: self.delay_override,
            poll_override: self.poll_override,
            dry_run: self.dry_run,
            once: self.once,
            keep_disabled_on_exit: self.keep_disabled_on_exit,
        }
    }
}

/// What the command line sets holds at the start, and stays when the file is
/// read again; everything else follows the file.
pub proof fn overrides_survive_reload(current: ConfigModel, file: config::AppModel)
    requires
        current.delay_override matches Some(span) ==> current.delay == span,
        current.poll_override matches Some(span) ==> current.poll == span,
    ensures
        current.delay_override is Some ==> reloaded(current, file).delay == current.delay,
        current.poll_override is Some ==> reloaded(current, file).poll == current.poll,
        current.delay_override is None ==> reloaded(current, file).delay == secs(file.delay_seconds),
        current.poll_override is None ==> reloaded(current, file).poll == secs(file.poll_seconds),
        reloaded(current, file).enabled == file.enabled,
        reloaded(current, file).process_wait == wait_of(file.process_wait),
        reloaded(current, file).delay_override == current.delay_override,
        reloaded(current, file).poll_override == current.poll_override,
        reloaded(current, file).dry_run == current.dry_run,
        reloaded(current, file).once == current.once,
        reloaded(current, file).keep_disabled_on_exit == current.keep_disabled_on_exit,
        forall|later: config::AppModel| #[trigger]
            reloaded(reloaded(current, file), later) == reloaded(current, later),
{
}

/// Why the controller gave up.
#[derive(Debug, Eq, PartialEq)]
pub enum AppError {
    /// The command line is wrong, or asks for help.
    Cli(String),
    RootRequired,
    /// A name could not be handed to the system.
    CString(String),
    /// The registry gave no reading.
    Iokit(String),
    /// The configuration could not be had.
    Config(String),
    /// A command failed.
    CommandFailed(CommandFailure),
    /// A file or a command could not be used.
    Io(String),
}

pub const ROOT_REQUIRED: &'static str = "no-sleep-till-done is the privileged controller and must run with sudo unless --dry-run is used; run no-sleep-till-done-menubar as the normal user app";

impl AppError {
    pub open spec fn text(self) -> Seq<char> {
        match self {
            AppError::Cli(message) => message@,
            AppError::RootRequired => ROOT_REQUIRED@,
            AppError::CString(message) => "invalid C string: "@ + message@,
            AppError::Iokit(message) => "IOKit error: "@ + message@,
            AppError::Config(message) => "configuration error: "@ + message@,
            AppError::CommandFailed(failure) => failure.text(),
            AppError::Io(message) => message@,
        }
    }

    /// The message to show.
    pub fn message(&self) -> (s: String)
        ensures
            s@ == self.text(),
    {
        match self {
            AppError::Cli(message) => message.clone(),
            AppError::RootRequired => ROOT_REQUIRED.to_owned(),
            AppError::CString(message) => after("invalid C string: ", message.as_str()),
            AppError::Iokit(message) => after("IOKit error: ", message.as_str()),
            AppError::Config(message) => after("configuration error: ", message.as_str()),
            AppError::CommandFailed(failure) => failure.message(),
            AppError::Io(message) => message.clone(),
        }
    }
}

fn after(prefix: &str, message: &str) -> (s: String)
    ensures
        s@ == prefix@ + message@,
{
    let mut s = prefix.to_owned();
    vstd::string::StringExecFns::append(&mut s, message);
    s
}

/// The error of a command is one of the controller's.
pub open spec fn from_command(error: CommandError) -> AppError {
    match error {
        CommandError::Io(message) => AppError::Io(message),
        CommandError::Failed(failure) => AppError::CommandFailed(failure),
    }
}

pub fn app_error(error: CommandError) -> (r: AppError)
    ensures
        r == from_command(error),
{
    match error {
        CommandError::Io(message) => AppError::Io(message),
        CommandError::Failed(failure) => AppError::CommandFailed(failure),
    }
}

/// A failed reading is one of the controller's errors.
pub fn reading_error(error: SystemError) -> (r: AppError)
    ensures
        r == (match error {
            SystemError::CString(message) => AppError::CString(message),
            SystemError::Iokit(message) => AppError::Iokit(message),
            SystemError::Command(message) => AppError::Io(message),
            SystemError::CommandFailed(message) => AppError::Io(message),
        }),
{
    match error {
        SystemError::CString(message) => AppError::CString(message),
        SystemError::Iokit(message) => AppError::Iokit(message),
        SystemError::Command(message) => AppError::Io(message),
        SystemError::CommandFailed(message) => AppError::Io(message),
    }
}

/// The settings after the command line, or what is wrong with it.
pub open spec fn with_args(current: ConfigModel, args: Seq<Seq<char>>) -> Result<ConfigModel, Seq<char>>
    decreases args.len(),
{
    if args.len() == 0 {
        Ok(current)
    } else if args[0] == "--delay-seconds"@ {
        if args.len() < 2 {
            Err(cli::lacks_value(args[0]))
        } else {
            match cli::positive(args[0], args[1]) {
                Ok(n) => with_args(
                    ConfigModel { delay: secs(n), delay_override: Some(secs(n)), ..current },
                    args.skip(2),
                ),
                Err(message) => Err(message),
            }
        }
    } else if args[0] == "--poll-seconds"@ {
        if args.len() < 2 {
            Err(cli::lacks_value(args[0]))
        } else {
            match cli::positive(args[0], args[1]) {
                Ok(n) => with_args(
                    ConfigModel { poll: secs(n), poll_override: Some(secs(n)), ..current },
                    args.skip(2),
                ),
                Err(message) => Err(message),
            }
        }
    } else if args[0] == "--dry-run"@ {
        with_args(ConfigModel { dry_run: true, ..current }, args.skip(1))
    } else if args[0] == "--once"@ {
        with_args(ConfigModel { once: true, ..current }, args.skip(1))
    } else if args[0] == "--keep-disabled-on-exit"@ {
        with_args(ConfigModel { keep_disabled_on_exit: true, ..current }, args.skip(1))
    } else if args[0] == "-h"@ || args[0] == "--help"@ {
        Err(USAGE@)
    } else {
        Err(cli::unknown_argument(args[0], USAGE@))
    }
}

/// The result of reading the command line is the one that is stated.
pub open spec fn is_parsed(r: Result<Config, AppError>, stated: Result<ConfigModel, Seq<char>>) -> bool {
    match stated {
        Ok(model) => r matches Ok(config) && config@ == model,
        Err(message) => r matches Err(AppError::Cli(said)) && said@ == message,
    }
}

/// The settings that the command line and the file give.
pub fn parse_args(file: Result<AppConfig, String>, args: &[String]) -> (r: Result<Config, AppError>)
    ensures
        match file {
            Err(message) => r == Err::<Config, AppError>(AppError::Config(message)),
            Ok(file_config) => is_parsed(r, with_args(settings_of(file_config@), system::string_views(args@))),
        },
{
    match file {
        Err(message) => Err(AppError::Config(message)),
        Ok(file_config) => {
            let config = Config {
                enabled: file_config.enabled,
                delay: Span::from_secs(file_config.delay_seconds),
                poll: Span::from_secs(file_config.poll_seconds),
                process_wait: ProcessWait::from_config(file_config.process_wait),
                delay_override: None,
                poll_override: None,
                dry_run: false,
                once: false,
                keep_disabled_on_exit: false,
            };
            apply_args(config, args)
        },
    }
}

/// Applies the command line to some settings.
fn apply_args(settings: Config, args: &[String]) -> (r: Result<Config, AppError>)
    ensures
        is_parsed(r, with_args(settings@, system::string_views(args@))),
{
    let ghost stated = with_args(settings@, system::string_views(args@));
    let mut config = settings;
    let ghost all = system::string_views(args@);
    let mut i: usize = 0;
    assert(all.skip(0) =~= all);
    while i < args.len()
        invariant
            i <= args@.len(),
            all == system::string_views(args@),
            stated == with_args(settings@, all),
            with_args(config@, all.skip(i as int)) == stated,
        decreases args@.len() - i,
    {
        let ghost rest = all.skip(i as int);
        let arg = args[i].as_str();
        let next: Option<&String> = if i + 1 < args.len() {
            Some(&args[i + 1])
        } else {
            None
        };
        proof {
            assert(rest[0] == arg@);
            if i + 1 < args@.len() {
                assert(rest[1] == args@[i + 1]@);
                assert(rest.skip(2) =~= all.skip(i + 2));
            }
            assert(rest.skip(1) =~= all.skip(i + 1));
        }
        if str_eq(arg, "--delay-seconds") {
            match switch_value("--delay-seconds", next) {
                Ok(n) => {
                    let span = Span::from_secs(n);
                    config = Config { delay: span, delay_override: Some(span), ..config };
                    i = i + 2;
                },
                Err(message) => {
                    return Err(AppError::Cli(message));
                },
            }
        } else if str_eq(arg, "--poll-seconds") {
            match switch_value("--poll-seconds", next) {
                Ok(n) => {
                    let span = Span::from_secs(n);
                    config = Config { poll: span, poll_override: Some(span), ..config };
                    i = i + 2;
                },
                Err(message) => {
                    return Err(AppError::Cli(message));
                },
            }
        } else if str_eq(arg, "--dry-run") {
            config = Config { dry_run: true, ..config };
            i = i + 1;
        } else if str_eq(arg, "--once") {
            config = Config { once: true, ..config };
            i = i + 1;
        } else if str_eq(arg, "--keep-disabled-on-exit") {
            config = Config { keep_disabled_on_exit: true, ..config };
            i = i + 1;
        } else if str_eq(arg, "-h") || str_eq(arg, "--help") {
            return Err(AppError::Cli(USAGE.to_owned()));
        } else {
            return Err(AppError::Cli(unknown_argument_message(arg, USAGE)));
        }
    }
    assert(all.skip(i as int).len() == 0);
    Ok(config)
}

/// Settings that the command line gives agree with what it overrides.
pub proof fn args_set_overrides(current: ConfigModel, args: Seq<Seq<char>>)
    requires
        current.delay_override matches Some(span) ==> current.delay == span,
        current.poll_override matches Some(span) ==> current.poll == span,
    ensures
        with_args(current, args) matches Ok(model) ==> {
            &&& model.delay_override matches Some(span) ==> model.delay == span
            &&& model.poll_override matches Some(span) ==> model.poll == span
        },
    decreases args.len(),
{
    if args.len() > 0 {
        if args.len() >= 2 {
            if let Ok(n) = cli::positive(args[0], args[1]) {
                args_set_overrides(
                    ConfigModel { delay: secs(n), delay_override: Some(secs(n)), ..current },
                    args.skip(2),
                );
                args_set_overrides(
                    ConfigModel { poll: secs(n), poll_override: Some(secs(n)), ..current },
                    args.skip(2),
                );
            }
        }
        args_set_overrides(ConfigModel { dry_run: true, ..current }, args.skip(1));
        args_set_overrides(ConfigModel { once: true, ..current }, args.skip(1));
        args_set_overrides(ConfigModel { keep_disabled_on_exit: true, ..current }, args.skip(1));
    }
}

/// No time in the settings is zero.
pub open spec fn is_usable(settings: ConfigModel) -> bool {
    &&& settings.delay.nanos > 0
    &&& settings.poll.nanos > 0
    &&& settings.process_wait.exit_grace.nanos > 0
    &&& settings.delay_override matches Some(span) ==> span.nanos > 0
    &&& settings.poll_override matches Some(span) ==> span.nanos > 0
}

/// A usable file gives usable settings, at the start and when it is read again.
pub proof fn usable_file_gives_usable_settings(file: config::AppModel, current: ConfigModel)
    requires
        file == config::normalized_app(file),
        is_usable(current),
    ensures
        is_usable(settings_of(file)),
        is_usable(reloaded(current, file)),
{
    config::normalized_is_usable(file);
}

/// The command line keeps settings usable.
pub proof fn args_keep_settings_usable(current: ConfigModel, args: Seq<Seq<char>>)
    requires
        is_usable(current),
    ensures
        with_args(current, args) matches Ok(settings) ==> is_usable(settings),
    decreases args.len(),
{
    if args.len() > 0 {
        if args.len() >= 2 {
            if let Ok(n) = cli::positive(args[0], args[1]) {
                args_keep_settings_usable(
                    ConfigModel { delay: secs(n), delay_override: Some(secs(n)), ..current },
                    args.skip(2),
                );
                args_keep_settings_usable(
                    ConfigModel { poll: secs(n), poll_override: Some(secs(n)), ..current },
                    args.skip(2),
                );
            }
        }
        args_keep_settings_usable(ConfigModel { dry_run: true, ..current }, args.skip(1));
        args_keep_settings_usable(ConfigModel { once: true, ..current }, args.skip(1));
        args_keep_settings_usable(ConfigModel { keep_disabled_on_exit: true, ..current }, args.skip(1));
    }
}

/// The settings of the file count in seconds; those of the command line stay.
pub proof fn file_sets_seconds(current: ConfigModel, file: config::AppModel)
    ensures
        ({
            let now = reloaded(current, file);
            let fresh = settings_of(file);
            &&& fresh.delay.nanos == file.delay_seconds * 1_000_000_000
            &&& fresh.poll.nanos == file.poll_seconds * 1_000_000_000
            &&& fresh.process_wait.exit_grace.nanos == file.process_wait.exit_grace_seconds * 1_000_000_000
            &&& fresh.process_wait.enabled == file.process_wait.enabled
            &&& fresh.process_wait.command_substrings == file.process_wait.command_substrings
            &&& fresh.enabled == file.enabled
            &&& fresh.delay_override is None && fresh.poll_override is None
            &&& !fresh.dry_run && !fresh.once && !fresh.keep_disabled_on_exit
            &&& current.delay_override is None ==> now.delay == fresh.delay
            &&& current.poll_override is None ==> now.poll == fresh.poll
            &&& current.delay_override is Some ==> now.delay == current.delay_override->0
            &&& current.poll_override is Some ==> now.poll == current.poll_override->0
            &&& now.enabled == fresh.enabled
            &&& now.process_wait == fresh.process_wait
        }),
{
    assert(file.delay_seconds * 1_000_000_000 <= u128::MAX);
    assert(file.poll_seconds * 1_000_000_000 <= u128::MAX);
    assert(file.process_wait.exit_grace_seconds * 1_000_000_000 <= u128::MAX);
}

/// Processes are waited for where waiting is turned on and something is looked for.
pub proof fn waiting_needs_something_to_wait_for(wait: ProcessWaitModel)
    ensures
        wait.active() <==> wait.enabled && wait.command_substrings != Seq::<Seq<char>>::empty(),
{
    if wait.command_substrings.len() == 0 {
        assert(wait.command_substrings =~= Seq::<Seq<char>>::empty());
    }
}

/// A command line of two parts has the effect of the one and then of the other.
pub proof fn switches_take_effect_in_order(current: ConfigModel, a: Seq<Seq<char>>, b: Seq<Seq<char>>)
    ensures
        with_args(current, Seq::<Seq<char>>::empty()) == Ok::<ConfigModel, Seq<char>>(current),
        with_args(current, a) matches Ok(between) ==> with_args(current, a + b) == with_args(between, b),
    decreases a.len(),
{
    if a.len() == 0 {
        assert(a + b =~= b);
    } else {
        let all = a + b;
        assert(all[0] == a[0]);
        assert(all.skip(1) =~= a.skip(1) + b);
        if a.len() >= 2 {
            assert(all[1] == a[1]);
            assert(all.skip(2) =~= a.skip(2) + b);
            if let Ok(n) = cli::positive(a[0], a[1]) {
                switches_take_effect_in_order(
                    ConfigModel { delay: secs(n), delay_override: Some(secs(n)), ..current },
                    a.skip(2),
                    b,
                );
                switches_take_effect_in_order(
                    ConfigModel { poll: secs(n), poll_override: Some(secs(n)), ..current },
                    a.skip(2),
                    b,
                );
            }
        }
        switches_take_effect_in_order(ConfigModel { dry_run: true, ..current }, a.skip(1), b);
        switches_take_effect_in_order(ConfigModel { once: true, ..current }, a.skip(1), b);
        switches_take_effect_in_order(ConfigModel { keep_disabled_on_exit: true, ..current }, a.skip(1), b);
    }
}

/// The switches of the command line are told apart.
proof fn lemma_switches_differ()
    ensures
        "--delay-seconds"@.len() == 15,
        "--poll-seconds"@.len() == 14,
        "--dry-run"@.len() == 9,
        "--once"@.len() == 6,
        "--keep-disabled-on-exit"@.len() == 23,
        "-h"@.len() == 2,
        "--help"@.len() == 6,
        "--help"@ != "--once"@,
{
    reveal_strlit("--delay-seconds");
    reveal_strlit("--poll-seconds");
    reveal_strlit("--dry-run");
    reveal_strlit("--once");
    reveal_strlit("--keep-disabled-on-exit");
    reveal_strlit("-h");
    reveal_strlit("--help");
    assert("--help"@[2] == 'h' && "--once"@[2] == 'o');
}

/// Each switch sets what it is for, and nothing else.
pub proof fn switches_set_what_they_are_for(current: ConfigModel, n: u64)
    requires
        n >= 1,
    ensures
        ({
            let number = number::decimal(n as nat);
            let delayed = with_args(current, seq!["--delay-seconds"@, number]);
            let polled = with_args(current, seq!["--poll-seconds"@, number]);
            let dry = with_args(current, seq!["--dry-run"@]);
            let once = with_args(current, seq!["--once"@]);
            let kept = with_args(current, seq!["--keep-disabled-on-exit"@]);
            &&& delayed is Ok && polled is Ok && dry is Ok && once is Ok && kept is Ok
            &&& (delayed->Ok_0).delay.nanos == n * 1_000_000_000
            &&& (delayed->Ok_0).delay_override == Some((delayed->Ok_0).delay)
            &&& (polled->Ok_0).poll.nanos == n * 1_000_000_000
            &&& (polled->Ok_0).poll_override == Some((polled->Ok_0).poll)
            &&& delayed->Ok_0 == (ConfigModel {
                delay: (delayed->Ok_0).delay,
                delay_override: (delayed->Ok_0).delay_override,
                ..current
            })
            &&& polled->Ok_0 == (ConfigModel {
                poll: (polled->Ok_0).poll,
                poll_override: (polled->Ok_0).poll_override,
                ..current
            })
            &&& dry->Ok_0 == (ConfigModel { dry_run: true, ..current })
            &&& once->Ok_0 == (ConfigModel { once: true, ..current })
            &&& kept->Ok_0 == (ConfigModel { keep_disabled_on_exit: true, ..current })
        }),
{
    lemma_switches_differ();
    reveal_with_fuel(with_args, 2);
    let number = number::decimal(n as nat);
    cli::positive_numbers_are_taken("--delay-seconds"@, number, n as nat);
    cli::positive_numbers_are_taken("--poll-seconds"@, number, n as nat);
    assert(seq!["--delay-seconds"@, number].skip(2).len() == 0);
    assert(seq!["--poll-seconds"@, number].skip(2).len() == 0);
    assert(seq!["--dry-run"@].skip(1).len() == 0);
    assert(seq!["--once"@].skip(1).len() == 0);
    assert(seq!["--keep-disabled-on-exit"@].skip(1).len() == 0);
    assert(n * 1_000_000_000 <= u128::MAX);
}

/// A command line that asks for help, that has something unknown, or a number
/// missing or wrong where one belongs, is refused with what is wrong, whatever
/// follows it.
pub proof fn wrong_command_lines_are_refused(current: ConfigModel, arg: Seq<char>, value: Seq<char>, rest: Seq<Seq<char>>)
    ensures
        with_args(current, seq!["-h"@] + rest) == Err::<ConfigModel, Seq<char>>(USAGE@),
        with_args(current, seq!["--help"@] + rest) == Err::<ConfigModel, Seq<char>>(USAGE@),
        with_args(current, seq!["--delay-seconds"@]) == Err::<ConfigModel, Seq<char>>(
            "--delay-seconds"@ + " requires a value"@,
        ),
        with_args(current, seq!["--poll-seconds"@]) == Err::<ConfigModel, Seq<char>>(
            "--poll-seconds"@ + " requires a value"@,
        ),
        number::parse_decimal(value, u64::MAX as nat) is None ==> {
            &&& with_args(current, seq!["--delay-seconds"@, value] + rest) == Err::<ConfigModel, Seq<char>>(
                "--delay-seconds"@ + " must be a positive integer"@,
            )
            &&& with_args(current, seq!["--poll-seconds"@, value] + rest) == Err::<ConfigModel, Seq<char>>(
                "--poll-seconds"@ + " must be a positive integer"@,
            )
        },
        arg != "--delay-seconds"@ && arg != "--poll-seconds"@ && arg != "--dry-run"@ && arg != "--once"@ && arg
            != "--keep-disabled-on-exit"@ && arg != "-h"@ && arg != "--help"@ ==> with_args(
            current,
            seq![arg] + rest,
        ) == Err::<ConfigModel, Seq<char>>("unknown argument: "@ + arg + "\n\n"@ + USAGE@),
{
    lemma_switches_differ();
    cli::positive_numbers_are_taken("--delay-seconds"@, value, 0);
    cli::positive_numbers_are_taken("--poll-seconds"@, value, 0);
    assert((seq!["-h"@] + rest)[0] == "-h"@);
    assert((seq!["--help"@] + rest)[0] == "--help"@);
    assert((seq![arg] + rest)[0] == arg);
    let delayed = seq!["--delay-seconds"@, value] + rest;
    let polled = seq!["--poll-seconds"@, value] + rest;
    assert(delayed[0] == "--delay-seconds"@ && delayed[1] == value);
    assert(polled[0] == "--poll-seconds"@ && polled[1] == value);
}

/// An error is shown with its message: as it is, or after what kind of error it is.
/// What failed in a reading is kept in the error that it becomes.
pub proof fn errors_are_described(message: String)
    ensures
        AppError::Cli(message).text() == message@,
        AppError::Io(message).text() == message@,
        AppError::CString(message).text() == "invalid C string: "@ + message@,
        AppError::Iokit(message).text() == "IOKit error: "@ + message@,
        AppError::Config(message).text() == "configuration error: "@ + message@,
        from_command(CommandError::Io(message)) == AppError::Io(message),
{
}

} // verus!
