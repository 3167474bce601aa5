//! The heartbeat that the menu bar app leaves for the controller.
use vstd::prelude::*;
use vstd::slice::slice_subrange;
use vstd::string::StringExecFns;

use crate::number;
use crate::number::{push_decimal, read_decimal};
use crate::text;
use crate::text::{chars_of, count_until, lines_of, text_eq, trimmed};

verus! {

/// Where the menu bar app writes its heartbeat.
pub const APP_ACTIVE_LEASE_PATH: &'static str = "/tmp/com.evren.nosleeptilldone.active";

/// Where the menu bar app asks the controller to restore normal sleep.
pub const CONTROLLER_RESET_REQUEST_PATH: &'static str = "/tmp/com.evren.nosleeptilldone.reset";

/// Seconds after which a heartbeat no longer counts.
pub const LEASE_TIMEOUT_SECONDS: u64 = 15;

/// What a heartbeat says: whether the app is enabled, and a generation that
/// changes when the controller is to read its configuration anew.
#[derive(Clone, Copy, Debug, Eq, PartialEq, Structural)]
pub struct LeaseRecord {
    pub enabled: bool,
    pub reload_generation: u64,
}

/// What one line after the first does to a record. A line without an equals
/// sign, or with another key, does nothing; a bad generation spoils the record.
pub open spec fn lease_line(record: LeaseRecord, line: Seq<char>) -> Option<LeaseRecord> {
    let n = text::until(line, '=') as int;
    let key = text::trim(line.take(n));
    let value = text::trim(line.skip(n + 1));
    if n >= line.len() {
        Some(record)
    } else if key == "enabled"@ {
        Some(LeaseRecord { enabled: value == "true"@, ..record })
    } else if key == "reload_generation"@ {
        match number::parse_decimal(value, u64::MAX as nat) {
            Some(g) => Some(LeaseRecord { reload_generation: g as u64, ..record }),
            None => None,
        }
    } else {
        Some(record)
    }
}

/// What a run of lines does to a record, in their order.
pub open spec fn lease_lines(record: LeaseRecord, ls: Seq<Seq<char>>) -> Option<LeaseRecord>
    decreases ls.len(),
{
    if ls.len() == 0 {
        Some(record)
    } else {
        match lease_line(record, ls[0]) {
            Some(next) => lease_lines(next, ls.drop_first()),
            None => None,
        }
    }
}

/// The record that a heartbeat's text holds. The first line says `active`; a
/// text with no other line is an enabled record of generation zero.
pub open spec fn lease_of(text: Seq<char>) -> Option<LeaseRecord> {
    let ls = text::lines(text);
    if ls.len() == 0 || text::trim(ls[0]) != "active"@ {
        None
    } else {
        lease_lines(LeaseRecord { enabled: true, reload_generation: 0 }, ls.drop_first())
    }
}

/// The text of a record.
pub open spec fn lease_text(record: LeaseRecord) -> Seq<char> {
    "active\nenabled="@ + text::bool_text(record.enabled) + "\nreload_generation="@ + number::decimal(
        record.reload_generation as nat,
    ) + "\n"@
}

/// Applies one line to a record.
fn read_lease_line(record: LeaseRecord, line: &[char]) -> (r: Option<LeaseRecord>)
    ensures
        r == lease_line(record, line@),
{
    let n: usize = count_until(line, '=');
    if n >= line.len() {
        return Some(record);
    }
    let left = slice_subrange(line, 0, n);
    let right = slice_subrange(line, n + 1, line.len());
    assert(left@ =~= line@.take(n as int));
    assert(right@ =~= line@.skip(n + 1));
    let key = trimmed(left);
    let value = trimmed(right);
    if text_eq(key, "enabled") {
        Some(LeaseRecord { enabled: text_eq(value, "true"), ..record })
    } else if text_eq(key, "reload_generation") {
        match read_decimal(value, u64::MAX) {
            Some(g) => Some(LeaseRecord { reload_generation: g, ..record }),
            None => None,
        }
    } else {
        Some(record)
    }
}

impl LeaseRecord {
    /// Reads a record from a heartbeat's text.
    pub fn parse(text: &str) -> (r: Option<Self>)
        ensures
            r == lease_of(text@),
    {
        let v = chars_of(text);
        let ls = lines_of(v.as_slice());
        let ghost all = text::lines(text@);
        assert(all.len() == ls@.len());
        if ls.len() == 0 {
            return None;
        }
        assert(all[0] == ls@[0]@);
        if !text_eq(trimmed(ls[0]), "active") {
            return None;
        }
        let mut record = LeaseRecord { enabled: true, reload_generation: 0 };
        let mut i: usize = 1;
        assert(all.skip(1) =~= all.drop_first());
        while i < ls.len()
            invariant
                1 <= i <= ls@.len(),
                text::views(ls@) == all,
                lease_of(text@) == lease_lines(
                    LeaseRecord { enabled: true, reload_generation: 0 },
                    all.drop_first(),
                ),
                lease_lines(record, all.skip(i as int)) == lease_lines(
                    LeaseRecord { enabled: true, reload_generation: 0 },
                    all.drop_first(),
                ),
            decreases ls@.len() - i,
        {
            assert(text::views(ls@)[i as int] == ls@[i as int]@);
            assert(all.skip(i as int)[0] == ls@[i as int]@);
            assert(all.skip(i as int).drop_first() =~= all.skip(i + 1));
            match read_lease_line(record, ls[i]) {
                Some(next) => {
                    record = next;
                },
                None => {
                    return None;
                },
            }
            i = i + 1;
        }
        Some(record)
    }

    /// Writes a record as a heartbeat's text.
    pub fn serialize(self) -> (s: String)
        ensures
            s@ == lease_text(self),
    {
        let mut s = String::new();
        s.append("active\nenabled=");
        s.append(if self.enabled { "true" } else { "false" });
        s.append("\nreload_generation=");
        push_decimal(&mut s, self.reload_generation as u128);
        s.append("\n");
        assert(s@ =~= lease_text(self));
        s
    }
}

/// A heartbeat of an age still counts.
pub open spec fn is_fresh(age_nanos: u128) -> bool {
    age_nanos <= LEASE_TIMEOUT_SECONDS * 1_000_000_000
}

/// The lease that counts, by the age of the heartbeat's file and its text.
pub open spec fn lease_that_counts(age_nanos: Option<u128>, text: Option<Seq<char>>) -> Option<LeaseRecord> {
    match (age_nanos, text) {
        (Some(age), Some(t)) => if is_fresh(age) {
            lease_of(t)
        } else {
            None
        },
        _ => None,
    }
}

/// Whether a heartbeat written `age_nanos` ago still counts.
pub fn lease_is_fresh(age_nanos: u128) -> (r: bool)
    ensures
        r == (age_nanos <= LEASE_TIMEOUT_SECONDS * 1_000_000_000),
        r == is_fresh(age_nanos),
{
    age_nanos <= LEASE_TIMEOUT_SECONDS as u128 * 1_000_000_000
}

/// The lease that counts: the one in the heartbeat's text, where there is a file
/// and it is not too old. `age_nanos` is the age of the file, and `text` what it
/// holds; a file that is too old need not be read.
pub fn app_lease(age_nanos: Option<u128>, text: Option<&str>) -> (r: Option<LeaseRecord>)
    ensures
        r == (match (age_nanos, text) {
            (Some(age), Some(t)) => if age <= LEASE_TIMEOUT_SECONDS * 1_000_000_000 {
                lease_of(t@)
            } else {
                None
            },
            _ => None,
        }),
        r == lease_that_counts(
            age_nanos,
            match text {
                Some(t) => Some(t@),
                None => None,
            },
        ),
{
    match (age_nanos, text) {
        (Some(age), Some(t)) => if lease_is_fresh(age) {
            LeaseRecord::parse(t)
        } else {
            None
        },
        _ => None,
    }
}

/// The generation that a starting app takes: the one after that of the
/// heartbeat left behind, or one where none can be read.
pub open spec fn generation_after(text: Option<Seq<char>>) -> u64 {
    match text {
        Some(t) => match lease_of(t) {
            Some(record) => if record.reload_generation == u64::MAX {
                0
            } else {
                (record.reload_generation + 1) as u64
            },
            None => 1,
        },
        None => 1,
    }
}

/// Picks the generation of a starting app from the heartbeat left behind.
pub fn next_reload_generation(text: Option<&str>) -> (g: u64)
    ensures
        g == generation_after(
            match text {
                Some(t) => Some(t@),
                None => None,
            },
        ),
{
    match text {
        Some(t) => match LeaseRecord::parse(t) {
            Some(record) => record.reload_generation.wrapping_add(1),
            None => 1,
        },
        None => 1,
    }
}

proof fn lemma_assignment_line(record: LeaseRecord, key: Seq<char>, value: Seq<char>)
    requires
        key == "enabled"@ || key == "reload_generation"@,
        value.len() > 0,
        !text::is_white(value[0]),
        !text::is_white(value.last()),
    ensures
        lease_line(record, key + seq!['='] + value) == (if key == "enabled"@ {
            Some(LeaseRecord { enabled: value == "true"@, ..record })
        } else {
            match number::parse_decimal(value, u64::MAX as nat) {
                Some(g) => Some(LeaseRecord { reload_generation: g as u64, ..record }),
                None => None,
            }
        }),
{
    reveal_strlit("enabled");
    reveal_strlit("reload_generation");
    let line = key + seq!['='] + value;
    text::lemma_until_is(line, '=', key.len());
    assert(line.take(key.len() as int) =~= key);
    assert(line.skip(key.len() as int + 1) =~= value);
    assert(text::trim(key) == key);
    assert(text::trim(value) == value);
}

/// A record read back from its own text is the record that was written.
pub proof fn lease_reads_back(record: LeaseRecord)
    ensures
        lease_of(lease_text(record)) == Some(record),
{
    let first = "active"@;
    let flag = "enabled"@ + seq!['='] + text::bool_text(record.enabled);
    let number = number::decimal(record.reload_generation as nat);
    let generation = "reload_generation"@ + seq!['='] + number;
    reveal_strlit("active");
    reveal_strlit("enabled");
    reveal_strlit("reload_generation");
    reveal_strlit("true");
    reveal_strlit("false");
    reveal_strlit("active\nenabled=");
    reveal_strlit("\nreload_generation=");
    reveal_strlit("\n");
    number::lemma_decimal(record.reload_generation as nat);
    number::decimal_reads_back(record.reload_generation as nat, u64::MAX as nat);
    let tail2 = generation + seq!['\n'] + Seq::<char>::empty();
    let tail1 = flag + seq!['\n'] + tail2;
    let whole = first + seq!['\n'] + tail1;
    assert(whole =~= lease_text(record));
    assert forall|i: int| 0 <= i < generation.len() implies generation[i] != '\n' by {
        if i >= "reload_generation"@.len() + 1 {
            assert(number::is_digit(number[i - "reload_generation"@.len() - 1]));
        }
    }
    text::lemma_lines_cons(first, tail1);
    text::lemma_lines_cons(flag, tail2);
    text::lemma_lines_cons(generation, Seq::<char>::empty());
    assert(number::is_digit(number.last()));
    assert(number::is_digit(number[0]));
    assert(generation.last() == number.last());
    assert(text::strip_cr(generation) == generation);
    assert(text::strip_cr(flag) == flag);
    assert(text::strip_cr(first) == first);
    let ls = text::lines(whole);
    assert(ls =~= seq![first, flag, generation]);
    assert(text::trim(first) == first);
    let r0 = LeaseRecord { enabled: true, reload_generation: 0 };
    let r1 = LeaseRecord { enabled: record.enabled, reload_generation: 0 };
    lemma_assignment_line(r0, "enabled"@, text::bool_text(record.enabled));
    lemma_assignment_line(r1, "reload_generation"@, number);
    assert("false"@[0] != "true"@[0]);
    assert("enabled"@[0] != "reload_generation"@[0]);
    let rest = ls.drop_first();
    assert(rest[0] == flag);
    assert(rest.drop_first()[0] == generation);
    assert(rest.drop_first().drop_first() =~= Seq::<Seq<char>>::empty());
    reveal_with_fuel(lease_lines, 4);
}

/// An assignment in a heartbeat sets what it names, whatever white space stands
/// around the name and the value: the switch is on for one word only, and the
/// generation is a number, without which the heartbeat counts for nothing. Other
/// names, and lines without an equals sign, set nothing.
pub proof fn assignments_set_what_they_name(
    record: LeaseRecord,
    a: Seq<char>,
    key: Seq<char>,
    b: Seq<char>,
    c: Seq<char>,
    value: Seq<char>,
    d: Seq<char>,
)
    requires
        forall|i: int| 0 <= i < a.len() ==> text::is_white(#[trigger] a[i]),
        forall|i: int| 0 <= i < b.len() ==> text::is_white(#[trigger] b[i]),
        forall|i: int| 0 <= i < c.len() ==> text::is_white(#[trigger] c[i]),
        forall|i: int| 0 <= i < d.len() ==> text::is_white(#[trigger] d[i]),
        key.len() > 0,
        !text::is_white(key[0]),
        !text::is_white(key.last()),
        forall|i: int| 0 <= i < key.len() ==> #[trigger] key[i] != '=',
        value.len() > 0,
        !text::is_white(value[0]),
        !text::is_white(value.last()),
    ensures
        ({
            let set = lease_line(record, a + key + b + seq!['='] + (c + value + d));
            &&& key == "enabled"@ ==> set == Some(LeaseRecord { enabled: value == "true"@, ..record })
            &&& key == "reload_generation"@ && number::parse_decimal(value, u64::MAX as nat) is None ==> set is None
            &&& key == "reload_generation"@ && number::parse_decimal(value, u64::MAX as nat) is Some ==> {
                &&& set is Some
                &&& (set->0).reload_generation as nat == number::parse_decimal(value, u64::MAX as nat)->0
                &&& (set->0).enabled == record.enabled
            }
            &&& key != "enabled"@ && key != "reload_generation"@ ==> set == Some(record)
            &&& lease_line(record, a + key + b) == Some(record)
        }),
{
    let left = a + key + b;
    let right = c + value + d;
    let line = left + seq!['='] + right;
    assert forall|i: int| 0 <= i < left.len() implies left[i] != '=' by {
        if i < a.len() {
            assert(text::is_white(a[i]));
        } else if i < a.len() + key.len() {
            assert(left[i] == key[i - a.len()]);
        } else {
            assert(text::is_white(b[i - a.len() - key.len()]));
        }
    }
    text::lemma_until_is(line, '=', left.len());
    text::lemma_until_is(left, '=', left.len());
    assert(line.take(left.len() as int) =~= left);
    assert(line.skip(left.len() as int + 1) =~= right);
    text::white_ends_are_cut(a, key, b);
    text::white_ends_are_cut(c, value, d);
    reveal_strlit("enabled");
    reveal_strlit("reload_generation");
    assert("enabled"@[0] != "reload_generation"@[0]);
}

/// The lines of a heartbeat count in their order, the later ones over the earlier.
pub proof fn lines_count_in_their_order(record: LeaseRecord, a: Seq<Seq<char>>, b: Seq<Seq<char>>)
    ensures
        lease_lines(record, Seq::<Seq<char>>::empty()) == Some(record),
        lease_lines(record, a + b) == (match lease_lines(record, a) {
            Some(between) => lease_lines(between, b),
            None => None,
        }),
    decreases a.len(),
{
    if a.len() == 0 {
        assert(a + b =~= b);
    } else {
        assert((a + b)[0] == a[0]);
        assert((a + b).drop_first() =~= a.drop_first() + b);
        if let Some(after) = lease_line(record, a[0]) {
            lines_count_in_their_order(after, a.drop_first(), b);
        }
    }
}

/// A heartbeat counts only where its first line says so; one that says nothing
/// else is enabled.
pub proof fn first_line_says_active(first: Seq<char>, rest: Seq<char>)
    requires
        forall|i: int| 0 <= i < first.len() ==> first[i] != '\n',
    ensures
        text::trim(first) != "active"@ ==> lease_of(first + seq!['\n'] + rest) is None,
        text::trim(first) != "active"@ ==> lease_of(first) is None,
        lease_of(Seq::<char>::empty()) is None,
        lease_of("active"@) == Some(LeaseRecord { enabled: true, reload_generation: 0 }),
        first == "active"@ ==> lease_of(first + seq!['\n'] + rest) == lease_lines(
            LeaseRecord { enabled: true, reload_generation: 0 },
            text::lines(rest),
        ),
{
    reveal_strlit("active");
    text::line_feeds_end_lines(first, rest);
    let all = text::lines(first + seq!['\n'] + rest);
    assert(all.drop_first() =~= text::lines(rest));
    text::lemma_trim_return(first);
    assert forall|i: int| 0 <= i < "active"@.len() implies "active"@[i] != '\n' by {}
    text::line_feeds_end_lines("active"@, rest);
    text::white_ends_are_cut(seq![], "active"@, seq![]);
    assert(seq![] + "active"@ + seq![] =~= "active"@);
    assert(text::lines("active"@).drop_first() =~= seq![]);
}

/// A heartbeat counts for fifteen seconds and no longer. What was written in that
/// time is the lease; without a file, or a text, there is none.
pub proof fn heartbeat_counts_for_fifteen_seconds(record: LeaseRecord, text: Seq<char>, age_nanos: u128)
    ensures
        is_fresh(age_nanos) <==> age_nanos <= 15_000_000_000,
        age_nanos <= 15_000_000_000 ==> lease_that_counts(Some(age_nanos), Some(lease_text(record))) == Some(record),
        age_nanos <= 15_000_000_000 ==> lease_that_counts(Some(age_nanos), Some(text)) == lease_of(text),
        age_nanos > 15_000_000_000 ==> lease_that_counts(Some(age_nanos), Some(text)) is None,
        lease_that_counts(None, Some(text)) is None,
        lease_that_counts(Some(age_nanos), None) is None,
{
    lease_reads_back(record);
}

/// A starting application takes another generation than the heartbeat that it
/// finds: the next one, and after the last one the first again.
pub proof fn starting_takes_another_generation(record: LeaseRecord)
    ensures
        generation_after(Some(lease_text(record))) != record.reload_generation,
        record.reload_generation < u64::MAX ==> generation_after(Some(lease_text(record)))
            == record.reload_generation + 1,
        record.reload_generation == u64::MAX ==> generation_after(Some(lease_text(record))) == 0,
        generation_after(None) == 1,
        forall|text: Seq<char>| lease_of(text) is None ==> #[trigger] generation_after(Some(text)) == 1,
{
    lease_reads_back(record);
}

/// A heartbeat is written line by line: that it counts, whether the application is
/// on, and the generation.
pub proof fn heartbeat_is_written_in_lines(record: LeaseRecord)
    ensures
        lease_text(record) == "active\nenabled="@ + (if record.enabled {
            "true"@
        } else {
            "false"@
        }) + "\nreload_generation="@ + number::decimal(record.reload_generation as nat) + "\n"@,
{
}

} // verus!
