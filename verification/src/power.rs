//! The commands that change the power settings, and what came of them.
use vstd::prelude::*;
use vstd::string::StringExecFns;

use crate::command;
use crate::command::{decode_lossy, trimmed_string, CommandOutput};
use crate::number;
use crate::number::push_signed_decimal;
use crate::system;
use crate::text;

verus! {

/// A command that changes the power settings.
#[derive(Clone, Copy, Debug, Eq, PartialEq, Structural)]
pub enum PowerCommand {
    /// Keeps the machine awake while its lid is closed.
    PreventSleep,
    /// Lets the machine sleep as usual.
    AllowSleep,
    /// Puts the machine to sleep.
    SleepNow,
    /// Puts the display to sleep.
    SleepDisplay,
    /// Wakes the display.
    WakeDisplay,
}

impl PowerCommand {
    pub open spec fn program_text(self) -> Seq<char> {
        match self {
            PowerCommand::WakeDisplay => "/usr/bin/caffeinate"@,
            _ => "/usr/bin/pmset"@,
        }
    }

    pub open spec fn arg_texts(self) -> Seq<Seq<char>> {
        match self {
            PowerCommand::PreventSleep => seq!["-b"@, "disablesleep"@, "1"@],
            PowerCommand::AllowSleep => seq!["-b"@, "disablesleep"@, "0"@],
            PowerCommand::SleepNow => seq!["sleepnow"@],
            PowerCommand::SleepDisplay => seq!["displaysleepnow"@],
            PowerCommand::WakeDisplay => seq!["-u"@, "-t"@, "2"@],
        }
    }

    pub fn program(self) -> (s: String)
        ensures
            s@ == self.program_text(),
    {
        match self {
            PowerCommand::WakeDisplay => "/usr/bin/caffeinate".to_owned(),
            _ => "/usr/bin/pmset".to_owned(),
        }
    }

    pub fn args(self) -> (v: Vec<String>)
        ensures
            system::string_views(v@) == self.arg_texts(),
    {
        let mut v: Vec<String> = Vec::new();
        match self {
            PowerCommand::PreventSleep => {
                v.push("-b".to_owned());
                v.push("disablesleep".to_owned());
                v.push("1".to_owned());
            },
            PowerCommand::AllowSleep => {
                v.push("-b".to_owned());
                v.push("disablesleep".to_owned());
                v.push("0".to_owned());
            },
            PowerCommand::SleepNow => {
                v.push("sleepnow".to_owned());
            },
            PowerCommand::SleepDisplay => {
                v.push("displaysleepnow".to_owned());
            },
            PowerCommand::WakeDisplay => {
                v.push("-u".to_owned());
                v.push("-t".to_owned());
                v.push("2".to_owned());
            },
        }
        assert(system::string_views(v@) =~= self.arg_texts());
        v
    }
}

/// A command that could be started, and failed.
#[derive(Debug, Eq, PartialEq)]
pub struct CommandFailure {
    pub program: String,
    pub args: Vec<String>,
    pub code: Option<i32>,
    pub stderr: String,
}

/// Texts with a blank between each and the next.
pub open spec fn spaced(parts: Seq<Seq<char>>) -> Seq<char>
    decreases parts.len(),
{
    if parts.len() == 0 {
        seq![]
    } else if parts.len() == 1 {
        parts[0]
    } else {
        spaced(parts.drop_last()) + " "@ + parts.last()
    }
}

/// An exit code as it is shown.
pub open spec fn code_text(code: Option<i32>) -> Seq<char> {
    match code {
        Some(n) => "Some("@ + number::signed_decimal(n as int) + ")"@,
        None => "None"@,
    }
}

/// The message of a failure.
pub open spec fn failure_message(program: Seq<char>, args: Seq<Seq<char>>, code: Option<i32>, stderr: Seq<char>) -> Seq<
    char,
> {
    program + " "@ + spaced(args) + " failed with "@ + code_text(code) + ": "@ + text::trim(stderr)
}

pub fn push_spaced(s: &mut String, parts: &Vec<String>)
    ensures
        final(s)@ == old(s)@ + spaced(system::string_views(parts@)),
{
    let ghost start = s@;
    let ghost all = system::string_views(parts@);
    let mut i: usize = 0;
    assert(all.take(0).len() == 0);
    while i < parts.len()
        invariant
            i <= parts@.len(),
            all == system::string_views(parts@),
            s@ =~= start + spaced(all.take(i as int)),
        decreases parts@.len() - i,
    {
        if i > 0 {
            s.append(" ");
        }
        s.append(parts[i].as_str());
        proof {
            let now = all.take(i + 1);
            assert(now.drop_last() =~= all.take(i as int));
            assert(now.last() == parts@[i as int]@);
            if i == 0 {
                assert(now[0] == parts@[0]@);
            }
        }
        i = i + 1;
    }
    assert(all.take(i as int) =~= all);
}

impl CommandFailure {
    pub open spec fn text(self) -> Seq<char> {
        failure_message(self.program@, system::string_views(self.args@), self.code, self.stderr@)
    }

    /// The message to show.
    pub fn message(&self) -> (s: String)
        ensures
            s@ == self.text(),
    {
        let mut s = self.program.clone();
        s.append(" ");
        push_spaced(&mut s, &self.args);
        s.append(" failed with ");
        match self.code {
            Some(n) => {
                s.append("Some(");
                push_signed_decimal(&mut s, n);
                s.append(")");
            },
            None => {
                s.append("None");
            },
        }
        s.append(": ");
        let said = trimmed_string(self.stderr.as_str());
        s.append(said.as_str());
        assert(s@ =~= self.text());
        s
    }
}

/// Why a command did not do its work.
#[derive(Debug, Eq, PartialEq)]
pub enum CommandError {
    /// It could not be started.
    Io(String),
    /// It failed.
    Failed(CommandFailure),
}

/// A failure is that of a power command, with what it left behind.
pub open spec fn is_failure_of(failure: CommandFailure, command: PowerCommand, output: CommandOutput) -> bool {
    &&& failure.program@ == command.program_text()
    &&& system::string_views(failure.args@) == command.arg_texts()
    &&& failure.code == output.code
    &&& failure.stderr@ == command::lossy_text(output.stderr@)
}

/// What came of a power command.
pub fn run_command(command: PowerCommand, output: Result<CommandOutput, String>) -> (r: Result<(), CommandError>)
    ensures
        match output {
            Err(message) => r == Err::<(), CommandError>(CommandError::Io(message)),
            Ok(o) => if o.success {
                r is Ok
            } else {
                r matches Err(CommandError::Failed(failure)) && is_failure_of(failure, command, o)
            },
        },
        r is Ok <==> (output matches Ok(o) && o.success),
        r matches Err(CommandError::Failed(failure)) ==> (output matches Ok(o) && failure.code == o.code
            && failure.program@ == command.program_text() && system::string_views(failure.args@)
            == command.arg_texts()),
{
    match output {
        Err(message) => Err(CommandError::Io(message)),
        Ok(o) => {
            if o.success {
                return Ok(());
            }
            Err(
                CommandError::Failed(
                    CommandFailure {
                        program: command.program(),
                        args: command.args(),
                        code: o.code,
                        stderr: decode_lossy(&o.stderr),
                    },
                ),
            )
        },
    }
}

/// The note on a command that is not run.
pub fn dry_run_note(command: PowerCommand) -> (s: String)
    ensures
        s@ == "dry-run: "@ + command.program_text() + " "@ + spaced(command.arg_texts()),
{
    let mut s = "dry-run: ".to_owned();
    let program = command.program();
    s.append(program.as_str());
    s.append(" ");
    let args = command.args();
    push_spaced(&mut s, &args);
    s
}

/// The commands on the machine's power: the override is set and taken back with
/// the same program, and each command is another than the rest.
pub proof fn power_commands_are_told_apart(a: PowerCommand, b: PowerCommand)
    ensures
        PowerCommand::PreventSleep.program_text() == "/usr/bin/pmset"@,
        PowerCommand::PreventSleep.arg_texts() == seq!["-b"@, "disablesleep"@, "1"@],
        PowerCommand::AllowSleep.program_text() == "/usr/bin/pmset"@,
        PowerCommand::AllowSleep.arg_texts() == seq!["-b"@, "disablesleep"@, "0"@],
        PowerCommand::SleepNow.program_text() == "/usr/bin/pmset"@,
        PowerCommand::SleepNow.arg_texts() == seq!["sleepnow"@],
        PowerCommand::SleepDisplay.program_text() == "/usr/bin/pmset"@,
        PowerCommand::SleepDisplay.arg_texts() == seq!["displaysleepnow"@],
        PowerCommand::WakeDisplay.program_text() == "/usr/bin/caffeinate"@,
        PowerCommand::WakeDisplay.arg_texts() == seq!["-u"@, "-t"@, "2"@],
        a.program_text() == b.program_text() && a.arg_texts() == b.arg_texts() ==> a == b,
{
    reveal_strlit("/usr/bin/pmset");
    reveal_strlit("/usr/bin/caffeinate");
    assert("/usr/bin/pmset"@.len() == 14);
    assert("/usr/bin/caffeinate"@.len() == 19);
    reveal_strlit("0");
    reveal_strlit("1");
    reveal_strlit("sleepnow");
    reveal_strlit("displaysleepnow");
    assert("0"@[0] == '0' && "1"@[0] == '1');
    assert("sleepnow"@.len() == 8 && "displaysleepnow"@.len() == 15);
    let on = PowerCommand::PreventSleep.arg_texts();
    let off = PowerCommand::AllowSleep.arg_texts();
    let now = PowerCommand::SleepNow.arg_texts();
    let dark = PowerCommand::SleepDisplay.arg_texts();
    assert(on[2] == "1"@ && off[2] == "0"@);
    assert(on.len() == 3 && off.len() == 3 && now.len() == 1 && dark.len() == 1);
    assert(now[0] == "sleepnow"@ && dark[0] == "displaysleepnow"@);
}

/// Texts stand one after another with a single blank between each and the next.
pub proof fn blanks_stand_between(parts: Seq<Seq<char>>, last: Seq<char>)
    ensures
        spaced(Seq::<Seq<char>>::empty()).len() == 0,
        spaced(seq![last]) == last,
        parts.len() > 0 ==> spaced(parts.push(last)) == spaced(parts) + seq![' '] + last,
{
    reveal_strlit(" ");
    assert(" "@ =~= seq![' ']);
    assert(parts.push(last).drop_last() =~= parts);
}

/// The message on a failure names the command, how it ended and what it said.
pub proof fn failures_are_described(program: Seq<char>, args: Seq<Seq<char>>, n: i32, stderr: Seq<char>)
    ensures
        failure_message(program, args, None, stderr) == program + " "@ + spaced(args) + " failed with "@ + "None"@
            + ": "@ + text::trim(stderr),
        n >= 0 ==> failure_message(program, args, Some(n), stderr) == program + " "@ + spaced(args)
            + " failed with "@ + ("Some("@ + number::decimal(n as nat) + ")"@) + ": "@ + text::trim(stderr),
        n < 0 ==> failure_message(program, args, Some(n), stderr) == program + " "@ + spaced(args) + " failed with "@
            + ("Some("@ + (seq!['-'] + number::decimal((-n) as nat)) + ")"@) + ": "@ + text::trim(stderr),
{
}

} // verus!
