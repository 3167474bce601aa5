//! What the system reports: lid, battery, power settings and processes.
use vstd::prelude::*;
use vstd::slice::slice_subrange;

use crate::command;
use crate::command::{decode_lossy, failure_text, CommandOutput};
use crate::number;
use crate::number::read_decimal;
use crate::text;
use crate::text::{chars_of, count_until, count_word, has_str, has_str_suffix, lines_of,
    string_of, trimmed_start, words_of};

verus! {

#[derive(Clone, Copy, Debug, Eq, PartialEq, Structural)]
pub enum LidState {
    Open,
    Closed,
}

#[derive(Clone, Copy, Debug, Eq, PartialEq, Structural)]
pub enum PowerSource {
    Battery,
    AC,
    Unknown,
}

#[derive(Clone, Debug, Eq, PartialEq)]
pub struct BatteryState {
    pub percent: Option<u8>,
    pub source: PowerSource,
    pub charging: bool,
    pub raw: String,
}

/// A process whose command matches.
#[derive(Clone, Debug, Eq, PartialEq)]
pub struct ProcessMatch {
    pub pid: u32,
    pub command: String,
}

/// A process in the table of all processes.
#[derive(Clone, Debug, Eq, PartialEq)]
pub struct ProcessInfo {
    pub pid: u32,
    pub ppid: u32,
    pub command: String,
}

impl View for ProcessMatch {
    type V = (u32, Seq<char>);

    open spec fn view(&self) -> (u32, Seq<char>) {
        (self.pid, self.command@)
    }
}

impl View for ProcessInfo {
    type V = (u32, u32, Seq<char>);

    open spec fn view(&self) -> (u32, u32, Seq<char>) {
        (self.pid, self.ppid, self.command@)
    }
}

impl ProcessInfo {
    /// Another record of the same process.
    pub fn copied(&self) -> (r: ProcessInfo)
        ensures
            r == *self,
    {
        ProcessInfo { pid: self.pid, ppid: self.ppid, command: self.command.clone() }
    }
}

/// Why a reading failed.
#[derive(Clone, Debug, Eq, PartialEq)]
pub enum SystemError {
    /// A name could not be handed to the system.
    CString(String),
    /// The registry gave no reading.
    Iokit(String),
    /// A command could not be started.
    Command(String),
    /// A command failed; this is what it said.
    CommandFailed(String),
}

impl SystemError {
    /// The message that the error carries.
    pub open spec fn text(self) -> Seq<char> {
        match self {
            SystemError::CString(message) => message@,
            SystemError::Iokit(message) => message@,
            SystemError::Command(message) => message@,
            SystemError::CommandFailed(message) => message@,
        }
    }

    /// The message to show.
    pub fn message(&self) -> (s: String)
        ensures
            s@ == self.text(),
    {
        match self {
            SystemError::CString(message) => message.clone(),
            SystemError::Iokit(message) => message.clone(),
            SystemError::Command(message) => message.clone(),
            SystemError::CommandFailed(message) => message.clone(),
        }
    }
}

/// The lid that a registry reading stands for: the reading says whether the lid
/// is closed.
pub fn read_lid_state(reading: Result<bool, SystemError>) -> (r: Result<LidState, SystemError>)
    ensures
        r == (match reading {
            Ok(closed) => Ok(
                if closed {
                    LidState::Closed
                } else {
                    LidState::Open
                },
            ),
            Err(error) => Err(error),
        }),
        r == Ok::<LidState, SystemError>(LidState::Closed) <==> reading == Ok::<bool, SystemError>(true),
        r == Ok::<LidState, SystemError>(LidState::Open) <==> reading == Ok::<bool, SystemError>(false),
{
    match reading {
        Ok(closed) => Ok(
            if closed {
                LidState::Closed
            } else {
                LidState::Open
            },
        ),
        Err(error) => Err(error),
    }
}

/// The sleep override that a registry reading stands for: the reading itself.
pub fn read_sleep_disabled(reading: Result<bool, SystemError>) -> (r: Result<bool, SystemError>)
    ensures
        r == reading,
{
    reading
}

/// Where the power comes from, by a battery report.
pub open spec fn source_in(report: Seq<char>) -> PowerSource {
    if text::contains(report, "'Battery Power'"@) {
        PowerSource::Battery
    } else if text::contains(report, "'AC Power'"@) {
        PowerSource::AC
    } else {
        PowerSource::Unknown
    }
}

/// The first of some words that ends with `suffix`, without the suffix.
pub open spec fn first_before_suffix(words: Seq<Seq<char>>, suffix: Seq<char>) -> Option<Seq<char>>
    decreases words.len(),
{
    if words.len() == 0 {
        None
    } else if text::ends_with(words[0], suffix) {
        Some(words[0].take(words[0].len() - suffix.len()))
    } else {
        first_before_suffix(words.drop_first(), suffix)
    }
}

/// The number in the last word before the first percent sign.
pub open spec fn number_before_percent(report: Seq<char>) -> Option<nat> {
    let words = text::words(report.take(text::until(report, '%') as int));
    if words.len() == 0 {
        None
    } else {
        number::parse_decimal(words.last(), u8::MAX as nat)
    }
}

/// The charge, by a battery report: the number in the first word that ends with
/// `%;`, or else the last word before the first percent sign.
pub open spec fn percent_in(report: Seq<char>) -> Option<nat> {
    let marked = match first_before_suffix(text::words(report), "%;"@) {
        Some(word) => number::parse_decimal(word, u8::MAX as nat),
        None => None,
    };
    match marked {
        Some(n) => Some(n),
        None => number_before_percent(report),
    }
}

/// Whether the battery is charging or charged, by a battery report.
pub open spec fn charging_in(report: Seq<char>) -> bool {
    text::contains(report, "; charging;"@) || text::contains(report, "; charged;"@)
}

/// A state says what a battery report says.
pub open spec fn battery_describes(state: BatteryState, report: Seq<char>) -> bool {
    &&& match state.percent {
        Some(n) => percent_in(report) == Some(n as nat),
        None => percent_in(report) is None,
    }
    &&& state.source == source_in(report)
    &&& state.charging == charging_in(report)
    &&& state.raw@ == report
}

/// Reads a number below 256.
fn read_byte(v: &[char]) -> (r: Option<u8>)
    ensures
        r matches Some(n) ==> number::parse_decimal(v@, u8::MAX as nat) == Some(n as nat),
        r is None ==> number::parse_decimal(v@, u8::MAX as nat) is None,
{
    match read_decimal(v, 255) {
        Some(n) => Some(n as u8),
        None => None,
    }
}

/// Finds the number in the first word that ends with `%;`.
fn marked_percent(v: &[char]) -> (r: Option<u8>)
    ensures
        r matches Some(n) ==> first_before_suffix(text::words(v@), "%;"@) matches Some(w)
            && number::parse_decimal(w, u8::MAX as nat) == Some(n as nat),
        r is None ==> (first_before_suffix(text::words(v@), "%;"@) matches Some(w)
            ==> number::parse_decimal(w, u8::MAX as nat) is None),
{
    let ws = words_of(v);
    let ghost all = text::words(v@);
    let mut i: usize = 0;
    assert(all.skip(0) =~= all);
    while i < ws.len()
        invariant
            i <= ws@.len(),
            text::views(ws@) == all,
            first_before_suffix(all, "%;"@) == first_before_suffix(all.skip(i as int), "%;"@),
            all == text::words(v@),
        decreases ws@.len() - i,
    {
        assert(text::views(ws@)[i as int] == ws@[i as int]@);
        assert(all.skip(i as int)[0] == ws@[i as int]@);
        assert(all.skip(i as int).drop_first() =~= all.skip(i + 1));
        let w = ws[i];
        if has_str_suffix(w, "%;") {
            proof {
                reveal_strlit("%;");
            }
            let head = slice_subrange(w, 0, w.len() - 2);
            assert(head@ =~= w@.take(w@.len() - 2));
            return read_byte(head);
        }
        i = i + 1;
    }
    None
}

/// Reads a battery report.
pub fn parse_battery_state(report: &str) -> (state: BatteryState)
    ensures
        battery_describes(state, report@),
{
    let v = chars_of(report);
    let s = v.as_slice();
    let source = if has_str(s, "'Battery Power'") {
        PowerSource::Battery
    } else if has_str(s, "'AC Power'") {
        PowerSource::AC
    } else {
        PowerSource::Unknown
    };
    let percent: Option<u8> = match marked_percent(s) {
        Some(n) => Some(n),
        None => {
            let n: usize = count_until(s, '%');
            let head = slice_subrange(s, 0, n);
            assert(head@ =~= report@.take(n as int));
            let ws = words_of(head);
            assert(text::words(head@).len() == ws@.len());
            if ws.len() == 0 {
                None
            } else {
                assert(text::words(head@).last() == ws@.last()@);
                read_byte(ws[ws.len() - 1])
            }
        },
    };
    let charging = has_str(s, "; charging;") || has_str(s, "; charged;");
    BatteryState { percent, source, charging, raw: string_of(s) }
}

/// Reads the state of the battery from what came of asking for it.
pub fn read_battery_state(output: Result<CommandOutput, String>) -> (r: Result<BatteryState, SystemError>)
    ensures
        match output {
            Err(message) => r == Err::<BatteryState, SystemError>(SystemError::Command(message)),
            Ok(o) => if o.success {
                r matches Ok(state) && battery_describes(state, command::lossy_text(o.stdout@))
            } else {
                r matches Err(SystemError::CommandFailed(message)) && message@ == text::trim(
                    command::lossy_text(o.stderr@),
                )
            },
        },
{
    match output {
        Err(message) => Err(SystemError::Command(message)),
        Ok(o) => {
            if !o.success {
                return Err(SystemError::CommandFailed(failure_text(&o.stderr)));
            }
            let report = decode_lossy(&o.stdout);
            Ok(parse_battery_state(report.as_str()))
        },
    }
}

/// The process that a line of the process list describes: a number, white
/// space, then the command.
pub open spec fn ps_line(line: Seq<char>) -> Option<(u32, Seq<char>)> {
    let t = text::trim_start(line);
    let n = text::word_len(t) as int;
    let command = text::trim_start(t.skip(n));
    if n >= t.len() {
        None
    } else {
        match number::parse_decimal(t.take(n), u32::MAX as nat) {
            Some(pid) => if command.len() > 0 {
                Some((pid as u32, command))
            } else {
                None
            },
            None => None,
        }
    }
}

/// The parts of a line that starts with a number: the number, and what follows
/// the white space after it.
fn split_number(line: &[char]) -> (r: Option<(u32, &[char])>)
    ensures
        r matches Some(parts) ==> {
            let t = text::trim_start(line@);
            let n = text::word_len(t) as int;
            &&& n < t.len()
            &&& number::parse_decimal(t.take(n), u32::MAX as nat) == Some(parts.0 as nat)
            &&& parts.1@ == text::trim_start(t.skip(n))
        },
        r is None ==> {
            let t = text::trim_start(line@);
            let n = text::word_len(t) as int;
            n >= t.len() || number::parse_decimal(t.take(n), u32::MAX as nat) is None
        },
{
    let t = trimmed_start(line);
    let n: usize = count_word(t);
    if n >= t.len() {
        return None;
    }
    let head = slice_subrange(t, 0, n);
    let tail = slice_subrange(t, n, t.len());
    assert(head@ =~= t@.take(n as int));
    assert(tail@ =~= t@.skip(n as int));
    match read_decimal(head, u32::MAX as u64) {
        Some(pid) => Some((pid as u32, trimmed_start(tail))),
        None => None,
    }
}

/// Reads a line of the process list.
pub fn parse_ps_line(line: &str) -> (r: Option<ProcessMatch>)
    ensures
        r matches Some(p) ==> ps_line(line@) == Some(p@),
        r is None ==> ps_line(line@) is None,
{
    let v = chars_of(line);
    parse_ps_chars(v.as_slice())
}

fn parse_ps_chars(line: &[char]) -> (r: Option<ProcessMatch>)
    ensures
        r matches Some(p) ==> ps_line(line@) == Some(p@),
        r is None ==> ps_line(line@) is None,
{
    match split_number(line) {
        Some((pid, rest)) => {
            if rest.len() == 0 {
                return None;
            }
            Some(ProcessMatch { pid, command: string_of(rest) })
        },
        None => None,
    }
}

/// The process that a line of the process table describes: its number, its
/// parent's number, then the command.
pub open spec fn table_line(line: Seq<char>) -> Option<(u32, u32, Seq<char>)> {
    match ps_line(line) {
        Some((pid, rest)) => match ps_line(rest) {
            Some((ppid, command)) => Some((pid, ppid, command)),
            None => None,
        },
        None => None,
    }
}

fn parse_table_chars(line: &[char]) -> (r: Option<ProcessInfo>)
    ensures
        r matches Some(p) ==> table_line(line@) == Some(p@),
        r is None ==> table_line(line@) is None,
{
    match split_number(line) {
        Some((pid, rest)) => {
            if rest.len() == 0 {
                return None;
            }
            match split_number(rest) {
                Some((ppid, command)) => {
                    if command.len() == 0 {
                        return None;
                    }
                    Some(ProcessInfo { pid, ppid, command: string_of(command) })
                },
                None => None,
            }
        },
        None => None,
    }
}

/// The strings that some `String`s hold.
pub open spec fn string_views(v: Seq<String>) -> Seq<Seq<char>> {
    v.map_values(|s: String| s@)
}

/// Some needle is not empty.
pub open spec fn any_needle(needles: Seq<Seq<char>>) -> bool {
    exists|i: int| 0 <= i < needles.len() && (#[trigger] needles[i]).len() > 0
}

/// A command contains one of the needles that are not empty.
pub open spec fn command_matches(command: Seq<char>, needles: Seq<Seq<char>>) -> bool {
    exists|i: int|
        0 <= i < needles.len() && (#[trigger] needles[i]).len() > 0 && text::contains(command, needles[i])
}

/// Whether there is anything to look for.
pub fn has_needle(needles: &[String]) -> (r: bool)
    ensures
        r == any_needle(string_views(needles@)),
{
    let mut i: usize = 0;
    while i < needles.len()
        invariant
            i <= needles@.len(),
            forall|j: int| 0 <= j < i ==> (#[trigger] string_views(needles@)[j]).len() == 0,
        decreases needles@.len() - i,
    {
        assert(string_views(needles@)[i as int] == needles@[i as int]@);
        if !needles[i].as_str().is_empty() {
            return true;
        }
        i = i + 1;
    }
    false
}

/// Whether a command contains one of the needles that are not empty.
pub fn matches_needle(command: &str, needles: &[String]) -> (r: bool)
    ensures
        r == command_matches(command@, string_views(needles@)),
{
    let v = chars_of(command);
    let mut i: usize = 0;
    while i < needles.len()
        invariant
            i <= needles@.len(),
            v@ == command@,
            forall|j: int|
                0 <= j < i ==> !((#[trigger] string_views(needles@)[j]).len() > 0 && text::contains(
                    command@,
                    string_views(needles@)[j],
                )),
        decreases needles@.len() - i,
    {
        let ghost needle = string_views(needles@)[i as int];
        assert(needle == needles@[i as int]@);
        if !needles[i].as_str().is_empty() && has_str(v.as_slice(), needles[i].as_str()) {
            return true;
        }
        i = i + 1;
    }
    false
}

/// The processes of a process list other than `own` whose command matches, in
/// the order of the list.
pub open spec fn matches_in(ls: Seq<Seq<char>>, needles: Seq<Seq<char>>, own: u32) -> Seq<(u32, Seq<char>)>
    decreases ls.len(),
{
    if ls.len() == 0 {
        seq![]
    } else {
        let before = matches_in(ls.drop_last(), needles, own);
        match ps_line(ls.last()) {
            Some(p) => if p.0 != own && command_matches(p.1, needles) {
                before.push(p)
            } else {
                before
            },
            None => before,
        }
    }
}

/// What some matches are.
pub open spec fn match_views(v: Seq<ProcessMatch>) -> Seq<(u32, Seq<char>)> {
    v.map_values(|p: ProcessMatch| p@)
}

/// Picks the matching processes out of the text of a process list.
pub fn find_matches(list: &str, command_substrings: &[String], current_pid: u32) -> (r: Vec<ProcessMatch>)
    ensures
        match_views(r@) == matches_in(text::lines(list@), string_views(command_substrings@), current_pid),
        forall|p: (u32, Seq<char>)| #[trigger]
            match_views(r@).contains(p) <==> is_listed(text::lines(list@), p) && p.0 != current_pid && is_named(
                p.1,
                string_views(command_substrings@),
            ),
{
    let v = chars_of(list);
    let ls = lines_of(v.as_slice());
    let ghost all = text::lines(list@);
    let ghost needles = string_views(command_substrings@);
    let mut r: Vec<ProcessMatch> = Vec::new();
    let mut i: usize = 0;
    assert(all.take(0) =~= Seq::<Seq<char>>::empty());
    assert(match_views(r@) =~= matches_in(all.take(0), needles, current_pid));
    while i < ls.len()
        invariant
            i <= ls@.len(),
            text::views(ls@) == all,
            needles == string_views(command_substrings@),
            match_views(r@) == matches_in(all.take(i as int), needles, current_pid),
        decreases ls@.len() - i,
    {
        let ghost before = match_views(r@);
        assert(text::views(ls@)[i as int] == ls@[i as int]@);
        assert(all.take(i + 1).drop_last() =~= all.take(i as int));
        assert(all.take(i + 1).last() == ls@[i as int]@);
        match parse_ps_chars(ls[i]) {
            Some(p) => {
                if p.pid != current_pid && matches_needle(p.command.as_str(), command_substrings) {
                    let ghost found = p@;
                    r.push(p);
                    assert(match_views(r@) =~= before.push(found));
                }
            },
            None => {},
        }
        i = i + 1;
    }
    assert(all.len() == ls@.len());
    assert(all.take(i as int) =~= all);
    proof {
        assert forall|p: (u32, Seq<char>)| #[trigger]
            match_views(r@).contains(p) <==> is_listed(all, p) && p.0 != current_pid && is_named(p.1, needles) by {
            found_are_those_looked_for(all, needles, current_pid, p);
        }
    }
    r
}

/// A line of a list gives a process.
pub open spec fn is_listed(ls: Seq<Seq<char>>, process: (u32, Seq<char>)) -> bool {
    exists|i: int| 0 <= i < ls.len() && ps_line(#[trigger] ls[i]) == Some(process)
}

/// Reads the matching processes from what came of listing the processes.
/// Nothing is looked for, and the list does not matter, where no needle is given.
pub fn matching_processes(
    command_substrings: &[String],
    output: Result<CommandOutput, String>,
    current_pid: u32,
) -> (r: Result<Vec<ProcessMatch>, SystemError>)
    ensures
        if !any_needle(string_views(command_substrings@)) {
            r matches Ok(found) && found@.len() == 0
        } else {
            match output {
                Err(message) => r == Err::<Vec<ProcessMatch>, SystemError>(SystemError::Command(message)),
                Ok(o) => if o.success {
                    r matches Ok(found) && match_views(found@) == matches_in(
                        text::lines(command::lossy_text(o.stdout@)),
                        string_views(command_substrings@),
                        current_pid,
                    )
                } else {
                    r matches Err(SystemError::CommandFailed(message)) && message@ == text::trim(
                        command::lossy_text(o.stderr@),
                    )
                },
            }
        },
        r matches Ok(found) ==> forall|p: (u32, Seq<char>)| #[trigger]
            match_views(found@).contains(p) ==> p.0 != current_pid && is_named(p.1, string_views(command_substrings@)),
        output matches Ok(o) && o.success ==> r is Ok,
        output matches Ok(o) ==> o.success && any_needle(string_views(command_substrings@)) ==> (r matches Ok(found)
            && forall|p: (u32, Seq<char>)| #[trigger]
            match_views(found@).contains(p) <==> is_listed(text::lines(command::lossy_text(o.stdout@)), p) && p.0
                != current_pid && is_named(p.1, string_views(command_substrings@))),
{
    if !has_needle(command_substrings) {
        return Ok(Vec::new());
    }
    match output {
        Err(message) => Err(SystemError::Command(message)),
        Ok(o) => {
            if !o.success {
                return Err(SystemError::CommandFailed(failure_text(&o.stderr)));
            }
            let list = decode_lossy(&o.stdout);
            Ok(find_matches(list.as_str(), command_substrings, current_pid))
        },
    }
}

/// What some processes are.
pub open spec fn info_views(v: Seq<ProcessInfo>) -> Seq<(u32, u32, Seq<char>)> {
    v.map_values(|p: ProcessInfo| p@)
}

/// The processes of a process table, in its order; lines that describe none are
/// left out.
pub open spec fn table_of(ls: Seq<Seq<char>>) -> Seq<(u32, u32, Seq<char>)>
    decreases ls.len(),
{
    if ls.len() == 0 {
        seq![]
    } else {
        match table_line(ls.last()) {
            Some(p) => table_of(ls.drop_last()).push(p),
            None => table_of(ls.drop_last()),
        }
    }
}

/// Reads the text of a process table.
pub fn parse_process_table(list: &str) -> (r: Vec<ProcessInfo>)
    ensures
        info_views(r@) == table_of(text::lines(list@)),
{
    let v = chars_of(list);
    let ls = lines_of(v.as_slice());
    let ghost all = text::lines(list@);
    let mut r: Vec<ProcessInfo> = Vec::new();
    let mut i: usize = 0;
    assert(all.take(0) =~= Seq::<Seq<char>>::empty());
    assert(info_views(r@) =~= table_of(all.take(0)));
    while i < ls.len()
        invariant
            i <= ls@.len(),
            text::views(ls@) == all,
            info_views(r@) == table_of(all.take(i as int)),
        decreases ls@.len() - i,
    {
        let ghost before = info_views(r@);
        assert(text::views(ls@)[i as int] == ls@[i as int]@);
        assert(all.take(i + 1).drop_last() =~= all.take(i as int));
        assert(all.take(i + 1).last() == ls@[i as int]@);
        match parse_table_chars(ls[i]) {
            Some(p) => {
                let ghost found = p@;
                r.push(p);
                assert(info_views(r@) =~= before.push(found));
            },
            None => {},
        }
        i = i + 1;
    }
    assert(all.len() == ls@.len());
    assert(all.take(i as int) =~= all);
    r
}

/// Reads the process table from what came of asking for it.
pub fn process_table(output: Result<CommandOutput, String>) -> (r: Result<Vec<ProcessInfo>, SystemError>)
    ensures
        match output {
            Err(message) => r == Err::<Vec<ProcessInfo>, SystemError>(SystemError::Command(message)),
            Ok(o) => if o.success {
                r matches Ok(table) && info_views(table@) == table_of(
                    text::lines(command::lossy_text(o.stdout@)),
                )
            } else {
                r matches Err(SystemError::CommandFailed(message)) && message@ == text::trim(
                    command::lossy_text(o.stderr@),
                )
            },
        },
{
    match output {
        Err(message) => Err(SystemError::Command(message)),
        Ok(o) => {
            if !o.success {
                return Err(SystemError::CommandFailed(failure_text(&o.stderr)));
            }
            let list = decode_lossy(&o.stdout);
            Ok(parse_process_table(list.as_str()))
        },
    }
}

/// Whether a process is looked for: it is not `own`, and its command matches.
pub open spec fn is_wanted(p: ProcessInfo, needles: Seq<Seq<char>>, own: u32) -> bool {
    p.pid != own && command_matches(p.command@, needles)
}

/// The processes that are looked for.
pub open spec fn wanted(needles: Seq<Seq<char>>, own: u32) -> spec_fn(ProcessInfo) -> bool {
    |p: ProcessInfo| is_wanted(p, needles, own)
}

/// Picks the matching processes out of a process table, in its order.
pub fn filter_processes(table: &[ProcessInfo], command_substrings: &[String], current_pid: u32) -> (r: Vec<
    ProcessInfo,
>)
    ensures
        r@ == table@.filter(wanted(string_views(command_substrings@), current_pid)),
{
    let ghost keep = wanted(string_views(command_substrings@), current_pid);
    let mut r: Vec<ProcessInfo> = Vec::new();
    let mut i: usize = 0;
    proof {
        reveal(Seq::filter);
        assert(table@.take(0) =~= Seq::<ProcessInfo>::empty());
        assert(r@ =~= table@.take(0).filter(keep));
    }
    while i < table.len()
        invariant
            i <= table@.len(),
            keep == wanted(string_views(command_substrings@), current_pid),
            r@ == table@.take(i as int).filter(keep),
        decreases table@.len() - i,
    {
        let ghost before = r@;
        proof {
            reveal(Seq::filter);
            assert(table@.take(i + 1).drop_last() =~= table@.take(i as int));
        }
        if table[i].pid != current_pid && matches_needle(table[i].command.as_str(), command_substrings) {
            r.push(table[i].copied());
            assert(keep(table@[i as int]));
        } else {
            assert(!keep(table@[i as int]));
        }
        i = i + 1;
    }
    assert(table@.take(i as int) =~= table@);
    r
}

/// A line of the process list gives the number and the command: the number stands
/// before white space, and the command is what follows, to its end. Without a
/// command the line gives nothing.
pub proof fn process_lines_give_number_and_command(before: Seq<char>, pid: u32, between: Seq<char>, command: Seq<char>)
    requires
        forall|i: int| 0 <= i < before.len() ==> text::is_white(#[trigger] before[i]),
        forall|i: int| 0 <= i < between.len() ==> text::is_white(#[trigger] between[i]),
        between.len() > 0,
        command.len() > 0 ==> !text::is_white(command[0]),
    ensures
        ps_line(before + number::decimal(pid as nat) + between + command) == (if command.len() > 0 {
            Some((pid, command))
        } else {
            None
        }),
        ps_line(before + number::decimal(pid as nat)) is None,
        ps_line(before) is None,
{
    let digits = number::decimal(pid as nat);
    number::lemma_decimal(pid as nat);
    number::decimal_reads_back(pid as nat, u32::MAX as nat);
    assert forall|i: int| 0 <= i < digits.len() implies !text::is_white(#[trigger] digits[i]) by {
        assert(number::is_digit(digits[i]));
    }
    let line = before + digits + between + command;
    let rest = between + command;
    assert(line =~= before + digits + rest);
    text::lemma_leading_white(before, digits + rest);
    assert(before + digits + rest =~= before + (digits + rest));
    text::white_space_parts_words(before, digits, rest);
    let t = digits + rest;
    assert(t.take(digits.len() as int) =~= digits);
    assert(t.skip(digits.len() as int) =~= rest);
    if command.len() > 0 {
        text::lemma_leading_white(between, command);
    } else {
        assert(rest =~= between);
        text::white_text_is_cut(rest);
    }
    text::lemma_leading_white(before, digits);
    text::white_space_parts_words(before, digits, Seq::<char>::empty());
    assert(digits + Seq::<char>::empty() =~= digits);
    text::white_text_is_cut(before);
}

/// A line whose first word is no number gives no process.
pub proof fn lines_without_number_give_nothing(before: Seq<char>, word: Seq<char>, rest: Seq<char>)
    requires
        forall|i: int| 0 <= i < before.len() ==> text::is_white(#[trigger] before[i]),
        word.len() > 0,
        forall|i: int| 0 <= i < word.len() ==> !text::is_white(#[trigger] word[i]),
        rest.len() > 0 ==> text::is_white(rest[0]),
        number::parse_decimal(word, u32::MAX as nat) is None,
    ensures
        ps_line(before + word + rest) is None,
        table_line(before + word + rest) is None,
{
    let t = word + rest;
    assert(t[0] == word[0]);
    text::lemma_leading_white(before, t);
    assert(before + word + rest =~= before + t);
    text::white_space_parts_words(before, word, rest);
    assert(t.take(word.len() as int) =~= word);
}

/// A line of the process table gives two numbers, of the process and of its
/// parent, and the command.
pub proof fn table_lines_give_both_numbers(
    before: Seq<char>,
    pid: u32,
    between: Seq<char>,
    ppid: u32,
    behind: Seq<char>,
    command: Seq<char>,
)
    requires
        forall|i: int| 0 <= i < before.len() ==> text::is_white(#[trigger] before[i]),
        forall|i: int| 0 <= i < between.len() ==> text::is_white(#[trigger] between[i]),
        forall|i: int| 0 <= i < behind.len() ==> text::is_white(#[trigger] behind[i]),
        between.len() > 0,
        behind.len() > 0,
        command.len() > 0,
        !text::is_white(command[0]),
    ensures
        table_line(
            before + number::decimal(pid as nat) + between + (number::decimal(ppid as nat) + behind + command),
        ) == Some((pid, ppid, command)),
{
    let parent = number::decimal(ppid as nat);
    let rest = parent + behind + command;
    number::lemma_decimal(ppid as nat);
    assert(number::is_digit(parent[0]));
    assert(rest[0] == parent[0]);
    process_lines_give_number_and_command(before, pid, between, rest);
    process_lines_give_number_and_command(Seq::empty(), ppid, behind, command);
    assert(Seq::<char>::empty() + parent + behind + command =~= rest);
}

/// Something to look for that is not empty stands somewhere in a command.
pub open spec fn is_named(command: Seq<char>, needles: Seq<Seq<char>>) -> bool {
    exists|j: int, k: int|
        {
            &&& 0 <= j < needles.len()
            &&& needles[j].len() > 0
            &&& 0 <= k <= command.len() - needles[j].len()
            &&& (#[trigger] command.skip(k)).take((#[trigger] needles[j]).len() as int) == needles[j]
        }
}

/// A command is one to wait for exactly where something to look for stands in it;
/// every string that is not empty is looked for.
pub proof fn commands_match_by_any_string(command: Seq<char>, needles: Seq<Seq<char>>)
    ensures
        command_matches(command, needles) <==> is_named(command, needles),
        any_needle(needles) <==> exists|j: int| 0 <= j < needles.len() && (#[trigger] needles[j]).len() > 0,
{
    if command_matches(command, needles) {
        let j = choose|j: int|
            0 <= j < needles.len() && (#[trigger] needles[j]).len() > 0 && text::contains(command, needles[j]);
        text::parts_are_contained(seq![], needles[j], seq![], command);
        let k = choose|k: int|
            0 <= k <= command.len() - needles[j].len() && (#[trigger] command.skip(k)).take(needles[j].len() as int)
                == needles[j];
        assert(command.skip(k).take(needles[j].len() as int) == needles[j]);
    }
    if is_named(command, needles) {
        let (j, k) = choose|j: int, k: int|
            {
                &&& 0 <= j < needles.len()
                &&& needles[j].len() > 0
                &&& 0 <= k <= command.len() - needles[j].len()
                &&& (#[trigger] command.skip(k)).take((#[trigger] needles[j]).len() as int) == needles[j]
            };
        text::parts_are_contained(seq![], needles[j], seq![], command);
        assert(command.skip(k).take(needles[j].len() as int) == needles[j]);
        assert(text::contains(command, needles[j]));
    }
}

/// A process of a list is found exactly where it is not the own one and something
/// to look for stands in its command; and nothing else is found.
pub proof fn found_are_those_looked_for(
    ls: Seq<Seq<char>>,
    needles: Seq<Seq<char>>,
    own: u32,
    process: (u32, Seq<char>),
)
    ensures
        matches_in(ls, needles, own).contains(process) <==> {
            &&& is_listed(ls, process)
            &&& process.0 != own
            &&& is_named(process.1, needles)
        },
    decreases ls.len(),
{
    if ls.len() > 0 {
        let init = ls.drop_last();
        let before = matches_in(init, needles, own);
        let all = matches_in(ls, needles, own);
        found_are_those_looked_for(init, needles, own, process);
        commands_match_by_any_string(process.1, needles);
        if before.contains(process) {
            let i = choose|i: int| 0 <= i < before.len() && before[i] == process;
            assert(all[i] == process);
        }
        if exists|i: int| 0 <= i < init.len() && ps_line(#[trigger] init[i]) == Some(process) {
            let i = choose|i: int| 0 <= i < init.len() && ps_line(#[trigger] init[i]) == Some(process);
            assert(ls[i] == init[i]);
        }
        if exists|i: int| 0 <= i < ls.len() && ps_line(#[trigger] ls[i]) == Some(process) {
            let i = choose|i: int| 0 <= i < ls.len() && ps_line(#[trigger] ls[i]) == Some(process);
            if i < init.len() {
                assert(init[i] == ls[i]);
            }
        }
        if let Some(p) = ps_line(ls.last()) {
            assert(ls[ls.len() - 1] == ls.last());
            if p.0 != own && command_matches(p.1, needles) {
                assert(all[all.len() - 1] == p);
                if all.contains(process) {
                    let i = choose|i: int| 0 <= i < all.len() && all[i] == process;
                    if i < before.len() {
                        assert(before[i] == process);
                    }
                }
            }
        }
    }
}

/// Processes are found in the order of the list, each as often as it is listed:
/// what is found in a list of two parts is what is found in the one and then what
/// is found in the other.
pub proof fn lists_are_searched_in_order(a: Seq<Seq<char>>, b: Seq<Seq<char>>, needles: Seq<Seq<char>>, own: u32)
    ensures
        matches_in(a + b, needles, own) == matches_in(a, needles, own) + matches_in(b, needles, own),
        a.len() == 1 ==> matches_in(a, needles, own).len() <= 1,
    decreases b.len(),
{
    if b.len() == 0 {
        assert(a + b =~= a);
        assert(matches_in(b, needles, own) =~= seq![]);
        assert(matches_in(a, needles, own) + matches_in(b, needles, own) =~= matches_in(a, needles, own));
    } else {
        lists_are_searched_in_order(a, b.drop_last(), needles, own);
        assert((a + b).drop_last() =~= a + b.drop_last());
        assert((a + b).last() == b.last());
        assert(matches_in(a + b, needles, own) =~= matches_in(a, needles, own) + matches_in(b, needles, own));
    }
    if a.len() == 1 {
        assert(matches_in(a.drop_last(), needles, own) =~= seq![]);
    }
}

/// With one more string to look for, nothing that was found is lost.
pub proof fn more_strings_find_more(
    ls: Seq<Seq<char>>,
    needles: Seq<Seq<char>>,
    more: Seq<Seq<char>>,
    own: u32,
    process: (u32, Seq<char>),
)
    requires
        forall|j: int| 0 <= j < needles.len() ==> more.contains(#[trigger] needles[j]),
        matches_in(ls, needles, own).contains(process),
    ensures
        matches_in(ls, more, own).contains(process),
{
    found_are_those_looked_for(ls, needles, own, process);
    found_are_those_looked_for(ls, more, own, process);
    let command = process.1;
    let (j, k) = choose|j: int, k: int|
        {
            &&& 0 <= j < needles.len()
            &&& needles[j].len() > 0
            &&& 0 <= k <= command.len() - needles[j].len()
            &&& (#[trigger] command.skip(k)).take((#[trigger] needles[j]).len() as int) == needles[j]
        };
    assert(more.contains(needles[j]));
    let i = choose|i: int| 0 <= i < more.len() && more[i] == needles[j];
    assert(command.skip(k).take(more[i].len() as int) == more[i]);
}

/// A process of the table is looked for by the same measure as one of the list.
pub proof fn table_is_searched_like_the_list(p: ProcessInfo, needles: Seq<Seq<char>>, own: u32)
    ensures
        wanted(needles, own)(p) <==> p.pid != own && is_named(p.command@, needles),
{
    commands_match_by_any_string(p.command@, needles);
}

/// Every line of the table that gives a process gives it, in the order of the
/// lines; the others give nothing.
pub proof fn table_has_its_lines(ls: Seq<Seq<char>>, line: Seq<char>)
    ensures
        table_of(Seq::<Seq<char>>::empty()).len() == 0,
        table_of(ls.push(line)) == (match table_line(line) {
            Some(process) => table_of(ls).push(process),
            None => table_of(ls),
        }),
{
    assert(ls.push(line).drop_last() =~= ls);
}

/// The charge is the number before the percent sign in the first word that ends
/// with a percent sign and a semicolon.
pub proof fn charge_stands_before_the_percent_sign(report: Seq<char>, at: int, n: nat)
    requires
        0 <= at < text::words(report).len(),
        text::words(report)[at] == number::decimal(n) + "%;"@,
        n <= 255,
        forall|i: int| 0 <= i < at ==> !text::ends_with(#[trigger] text::words(report)[i], "%;"@),
    ensures
        percent_in(report) == Some(n),
{
    lemma_first_marked(text::words(report), at, "%;"@);
    let word = text::words(report)[at];
    reveal_strlit("%;");
    number::decimal_reads_back(n, u8::MAX as nat);
    assert(word.take(word.len() - 2) =~= number::decimal(n));
    assert(word.skip(word.len() - 2) =~= "%;"@);
}

proof fn lemma_first_marked(words: Seq<Seq<char>>, at: int, suffix: Seq<char>)
    requires
        0 <= at < words.len(),
        forall|i: int| 0 <= i < at ==> !text::ends_with(#[trigger] words[i], suffix),
    ensures
        text::ends_with(words[at], suffix) ==> first_before_suffix(words, suffix) == Some(
            words[at].take(words[at].len() - suffix.len()),
        ),
    decreases at,
{
    if at > 0 {
        let rest = words.drop_first();
        assert forall|i: int| 0 <= i < at - 1 implies !text::ends_with(#[trigger] rest[i], suffix) by {
            assert(rest[i] == words[i + 1]);
        }
        lemma_first_marked(rest, at - 1, suffix);
        assert(!text::ends_with(words[0], suffix));
    }
}

/// A report that names the battery is about the battery, one that names the mains
/// instead is about those, and any other about neither. The battery is charging
/// where the report says that it is, or that it is charged.
pub proof fn report_names_the_source(before: Seq<char>, after: Seq<char>, report: Seq<char>)
    ensures
        source_in(before + "'Battery Power'"@ + after) == PowerSource::Battery,
        !text::contains(report, "'Battery Power'"@) ==> source_in(report) != PowerSource::Battery,
        source_in(report) == PowerSource::AC <==> !text::contains(report, "'Battery Power'"@) && text::contains(
            report,
            "'AC Power'"@,
        ),
        charging_in(before + "; charging;"@ + after),
        charging_in(before + "; charged;"@ + after),
        charging_in(report) ==> text::contains(report, "; charging;"@) || text::contains(report, "; charged;"@),
{
    text::parts_are_contained(before, "'Battery Power'"@, after, report);
    text::parts_are_contained(before, "; charging;"@, after, report);
    text::parts_are_contained(before, "; charged;"@, after, report);
}

/// Where no word is marked so, the charge is the last word before the first
/// percent sign.
pub proof fn charge_may_stand_before_any_percent_sign(before: Seq<char>, n: nat, after: Seq<char>)
    requires
        n <= 255,
        before.len() > 0 ==> text::is_white(before.last()),
        forall|i: int| 0 <= i < before.len() ==> before[i] != '%',
        first_before_suffix(
            text::words(before + number::decimal(n) + seq!['%'] + after),
            "%;"@,
        ) is None,
    ensures
        percent_in(before + number::decimal(n) + seq!['%'] + after) == Some(n),
{
    let digits = number::decimal(n);
    let report = before + digits + seq!['%'] + after;
    number::lemma_decimal(n);
    number::decimal_reads_back(n, u8::MAX as nat);
    let head = before + digits;
    assert forall|i: int| 0 <= i < head.len() implies head[i] != '%' by {
        if i >= before.len() {
            assert(number::is_digit(digits[i - before.len()]));
        }
    }
    text::lemma_until_is(report, '%', head.len());
    assert(report.take(head.len() as int) =~= head);
    assert forall|i: int| 0 <= i < digits.len() implies !text::is_white(#[trigger] digits[i]) by {
        assert(number::is_digit(digits[i]));
    }
    text::last_word_comes_last(before, digits);
}

/// A state of the battery says what the report says, and keeps the report.
pub proof fn battery_state_says_what_the_report_says(state: BatteryState, report: Seq<char>)
    requires
        battery_describes(state, report),
    ensures
        state.percent is Some <==> percent_in(report) is Some,
        state.percent matches Some(n) ==> percent_in(report) == Some(n as nat),
        state.source == source_in(report),
        state.charging <==> text::contains(report, "; charging;"@) || text::contains(report, "; charged;"@),
        state.raw@ == report,
{
}

} // verus!
