//! What came of running an outside command.
use vstd::prelude::*;

use crate::text;
use crate::text::{chars_of, lines_of, string_of, text_eq, trimmed};

verus! {

/// What a command that could be started left behind.
#[derive(Clone, Debug, Eq, PartialEq)]
pub struct CommandOutput {
    /// Whether the command exited with success.
    pub success: bool,
    /// The exit code, where the command exited on its own.
    pub code: Option<i32>,
    pub stdout: Vec<u8>,
    pub stderr: Vec<u8>,
}

/// The text that bytes stand for, with what is not UTF-8 replaced.
pub uninterp spec fn lossy_text(bytes: Seq<u8>) -> Seq<char>;

/// `String::from_utf8_lossy` turns bytes into text. The result depends on the
/// bytes alone; bytes that are UTF-8 are decoded, and nothing is replaced. What
/// the replacement makes of other bytes is not said.
#[verifier::external_body]
pub(crate) fn decode_lossy(bytes: &Vec<u8>) -> (s: String)
    ensures
        s@ == lossy_text(bytes@),
        vstd::utf8::valid_utf8(bytes@) ==> s@ == vstd::utf8::decode_utf8(bytes@),
{
    String::from_utf8_lossy(bytes).into_owned()
}

/// What a failed command says on its error output, without the white space around it.
pub fn failure_text(stderr: &Vec<u8>) -> (s: String)
    ensures
        s@ == text::trim(lossy_text(stderr@)),
{
    let decoded = decode_lossy(stderr);
    trimmed_string(decoded.as_str())
}

/// A string without the white space at either end.
pub fn trimmed_string(s: &str) -> (r: String)
    ensures
        r@ == text::trim(s@),
{
    let v = chars_of(s);
    string_of(trimmed(v.as_slice()))
}

/// A report on a service has a line that says that the service runs.
pub open spec fn reports_running(report: Seq<char>) -> bool {
    exists|i: int|
        0 <= i < text::lines(report).len() && text::trim(#[trigger] text::lines(report)[i])
            == "state = running"@
}

/// Whether a report on a service says that the service runs.
pub fn report_says_running(report: &str) -> (r: bool)
    ensures
        r == reports_running(report@),
{
    let v = chars_of(report);
    let ls = lines_of(v.as_slice());
    let ghost all = text::lines(report@);
    let mut i: usize = 0;
    while i < ls.len()
        invariant
            i <= ls@.len(),
            text::views(ls@) == all,
            all == text::lines(report@),
            forall|j: int| 0 <= j < i ==> text::trim(#[trigger] all[j]) != "state = running"@,
        decreases ls@.len() - i,
    {
        assert(text::views(ls@)[i as int] == ls@[i as int]@);
        if text_eq(trimmed(ls[i]), "state = running") {
            assert(text::trim(all[i as int]) == "state = running"@);
            return true;
        }
        i = i + 1;
    }
    assert(all.len() == ls@.len());
    false
}

/// The service manager's answer means that a service runs: the question was
/// answered, and the report says so.
pub open spec fn answer_means_running(answer: Option<CommandOutput>) -> bool {
    match answer {
        Some(output) => output.success && reports_running(lossy_text(output.stdout@)),
        None => false,
    }
}

/// Whether the service manager's answer means that a service runs. There is no
/// answer where the service manager could not be started.
pub fn service_is_running(answer: &Option<CommandOutput>) -> (r: bool)
    ensures
        r == answer_means_running(*answer),
{
    match answer {
        Some(output) => {
            if !output.success {
                return false;
            }
            let report = decode_lossy(&output.stdout);
            report_says_running(report.as_str())
        },
        None => false,
    }
}

/// A report says that a service runs exactly where one of its lines does, whatever
/// white space stands around that.
pub proof fn running_is_said_in_a_line(line: Seq<char>, rest: Seq<char>)
    requires
        forall|i: int| 0 <= i < line.len() ==> line[i] != '\n',
    ensures
        text::trim(line) == "state = running"@ && line.len() > 0 ==> reports_running(line),
        reports_running(line + seq!['\n'] + rest) <==> text::trim(line) == "state = running"@ || reports_running(
            rest,
        ),
        !reports_running(Seq::<char>::empty()),
{
    text::line_feeds_end_lines(line, rest);
    let all = text::lines(line + seq!['\n'] + rest);
    let later = text::lines(rest);
    text::lemma_trim_return(line);
    if reports_running(line + seq!['\n'] + rest) {
        let i = choose|i: int| 0 <= i < all.len() && text::trim(#[trigger] all[i]) == "state = running"@;
        if i > 0 {
            assert(all[(i - 1) + 1] == later[i - 1]);
            assert(text::trim(later[i - 1]) == "state = running"@);
        }
    }
    if reports_running(rest) {
        let i = choose|i: int| 0 <= i < later.len() && text::trim(#[trigger] later[i]) == "state = running"@;
        assert(all[i + 1] == later[i]);
    }
    if text::trim(line) == "state = running"@ {
        assert(text::trim(all[0]) == "state = running"@);
        if line.len() > 0 {
            assert(text::trim(text::lines(line)[0]) == "state = running"@);
        }
    }
}

/// A service runs where the question was answered well, and the report says so.
pub proof fn running_needs_a_good_answer(output: CommandOutput)
    ensures
        answer_means_running(Some(output)) <==> output.success && reports_running(lossy_text(output.stdout@)),
        !answer_means_running(None),
{
}

} // verus!
