//! Sections of the configuration file, line by line, so that what a person wrote
//! into the file stays as it is.
use vstd::prelude::*;
use vstd::slice::slice_subrange;
use vstd::string::StringExecFns;

use crate::text;
use crate::text::{chars_eq, chars_of, count_until, has_prefix, has_str_prefix, has_str_suffix, lines_of, push_chars,
    text_eq, trimmed, trimmed_start};

verus! {

/// The section on processes to wait for, as it is added to a file that lacks it.
pub const PROCESS_WAIT_SECTION: &'static str = "
[process_wait]
# When enabled, sleep is delayed after delay_seconds until all matching
# command lines disappear, then exit_grace_seconds is counted before sleep.
enabled = false
command_substrings = []
exit_grace_seconds = 300
";

/// The entry for the color of waiting, as it is added to a file that lacks it.
pub const PROCESS_WAIT_COLOR: &'static str = "process_wait = \"blue\"";

/// The line that starts a section, in its plain form.
pub open spec fn header(table: Seq<char>) -> Seq<char> {
    "["@ + table + "]"@
}

/// A line without the comment at its end.
pub open spec fn uncommented(line: Seq<char>) -> Seq<char> {
    line.take(text::until(line, '#') as int)
}

/// A text stands in brackets.
pub open spec fn in_brackets(t: Seq<char>) -> bool {
    text::starts_with(t, "["@) && text::ends_with(t, "]"@)
}

/// A line that starts some section. Where lines are read loosely, a comment may
/// follow.
pub open spec fn is_header(line: Seq<char>, loose: bool) -> bool {
    in_brackets(text::trim(line)) || (loose && in_brackets(text::trim(uncommented(line))))
}

/// A name without the quotes around it.
pub open spec fn unquoted(name: Seq<char>) -> Seq<char> {
    if name.len() >= 2 && (name[0] == '"' || name[0] == '\'') && name.last() == name[0] {
        name.subrange(1, name.len() - 1)
    } else {
        name
    }
}

/// A text in brackets names a section. White space and quotes around the name do
/// not matter.
pub open spec fn names(t: Seq<char>, table: Seq<char>) -> bool {
    t.len() >= 2 && in_brackets(t) && unquoted(text::trim(t.subrange(1, t.len() - 1))) == table
}

/// A line that starts a section: in its plain form, or in another where lines are
/// read loosely.
pub open spec fn starts_table(line: Seq<char>, table: Seq<char>, loose: bool) -> bool {
    text::trim(line) == header(table) || (loose && names(text::trim(uncommented(line)), table))
}

/// Whether a line after `ls` belongs to a section.
pub open spec fn in_table(ls: Seq<Seq<char>>, table: Seq<char>, loose: bool) -> bool
    decreases ls.len(),
{
    if ls.len() == 0 {
        false
    } else if is_header(ls.last(), loose) {
        starts_table(ls.last(), table, loose)
    } else {
        in_table(ls.drop_last(), table, loose)
    }
}

/// The lines that belong to a section.
pub open spec fn lines_in(ls: Seq<Seq<char>>, table: Seq<char>, loose: bool) -> Seq<Seq<char>>
    decreases ls.len(),
{
    if ls.len() == 0 {
        seq![]
    } else if !is_header(ls.last(), loose) && in_table(ls.drop_last(), table, loose) {
        lines_in(ls.drop_last(), table, loose).push(ls.last())
    } else {
        lines_in(ls.drop_last(), table, loose)
    }
}

/// Some line starts the section.
pub open spec fn has_table(ls: Seq<Seq<char>>, table: Seq<char>, loose: bool) -> bool {
    exists|i: int| 0 <= i < ls.len() && starts_table(#[trigger] ls[i], table, loose)
}

/// A line gives a value to a key that is spelled in a way.
pub open spec fn gives_as(line: Seq<char>, spelled: Seq<char>) -> bool {
    let t = text::trim_start(line);
    text::starts_with(t, spelled) && text::starts_with(text::trim_start(t.skip(spelled.len() as int)), "="@)
}

/// A line gives `key` a value. The key may stand in quotes where lines are read
/// loosely.
pub open spec fn gives(line: Seq<char>, key: Seq<char>, loose: bool) -> bool {
    ||| gives_as(line, key)
    ||| loose && gives_as(line, seq!['"'] + key + seq!['"'])
    ||| loose && gives_as(line, seq!['\''] + key + seq!['\''])
}

/// Some line of the section gives `key` a value.
pub open spec fn has_key(ls: Seq<Seq<char>>, table: Seq<char>, key: Seq<char>, loose: bool) -> bool {
    exists|i: int| 0 <= i < lines_in(ls, table, loose).len() && gives(#[trigger] lines_in(ls, table, loose)[i], key, loose)
}

/// Another section starts after this one.
pub open spec fn is_left(ls: Seq<Seq<char>>, table: Seq<char>, loose: bool) -> bool
    decreases ls.len(),
{
    ls.len() > 0 && (is_left(ls.drop_last(), table, loose) || (is_header(ls.last(), loose) && in_table(ls.drop_last(), table, loose)))
}

/// The lines with an entry before the first section after this one.
pub open spec fn entered(ls: Seq<Seq<char>>, table: Seq<char>, entry: Seq<char>, loose: bool) -> Seq<Seq<char>>
    decreases ls.len(),
{
    if ls.len() == 0 {
        seq![]
    } else {
        let before = entered(ls.drop_last(), table, entry, loose);
        if is_header(ls.last(), loose) && in_table(ls.drop_last(), table, loose) && !is_left(ls.drop_last(), table, loose) {
            before.push(entry).push(ls.last())
        } else {
            before.push(ls.last())
        }
    }
}

/// The lines with an entry at the end of a section, where there is one.
pub open spec fn with_entry(ls: Seq<Seq<char>>, table: Seq<char>, entry: Seq<char>, loose: bool) -> Seq<Seq<char>> {
    if in_table(ls, table, loose) && !is_left(ls, table, loose) {
        entered(ls, table, entry, loose).push(entry)
    } else {
        entered(ls, table, entry, loose)
    }
}

/// Lines as a text.
pub open spec fn unlines(ls: Seq<Seq<char>>) -> Seq<char>
    decreases ls.len(),
{
    if ls.len() == 0 {
        seq![]
    } else {
        unlines(ls.drop_last()) + ls.last() + "\n"@
    }
}

/// A text with its last line ended.
pub open spec fn ended(s: Seq<char>) -> Seq<char> {
    if text::ends_with(s, "\n"@) {
        s
    } else {
        s + "\n"@
    }
}

/// A file with a section on processes to wait for at its end.
pub open spec fn with_section_at_end(s: Seq<char>) -> Seq<char> {
    ended(s) + PROCESS_WAIT_SECTION@
}

/// The section on colors lacks the color of waiting.
pub open spec fn lacks_color(s: Seq<char>, loose: bool) -> bool {
    has_table(text::lines(s), "colors"@, loose) && !has_key(text::lines(s), "colors"@, "process_wait"@, loose)
}

/// The file with the color of waiting, where it has a section on colors.
pub open spec fn with_wait_color(s: Seq<char>, loose: bool) -> Seq<char> {
    if lacks_color(s, loose) {
        unlines(with_entry(text::lines(s), "colors"@, PROCESS_WAIT_COLOR@, loose))
    } else {
        s
    }
}

/// The lines with an entry right under the first one that starts a section, which
/// is read loosely.
pub open spec fn headed(ls: Seq<Seq<char>>, table: Seq<char>, entry: Seq<char>) -> Seq<Seq<char>>
    decreases ls.len(),
{
    if ls.len() == 0 {
        seq![]
    } else {
        let before = headed(ls.drop_last(), table, entry).push(ls.last());
        if starts_table(ls.last(), table, true) && !has_table(ls.drop_last(), table, true) {
            before.push(entry)
        } else {
            before
        }
    }
}

/// The file with the color of waiting as the first entry of the section on colors,
/// where that lacks it.
pub open spec fn with_first_color(s: Seq<char>) -> Seq<char> {
    if lacks_color(s, true) {
        unlines(headed(text::lines(s), "colors"@, PROCESS_WAIT_COLOR@))
    } else {
        s
    }
}

fn uncommented_of(line: &[char]) -> (r: &[char])
    ensures
        r@ == uncommented(line@),
{
    let r = slice_subrange(line, 0, count_until(line, '#'));
    assert(r@ =~= uncommented(line@));
    r
}

fn stands_in_brackets(t: &[char]) -> (r: bool)
    ensures
        r == in_brackets(t@),
{
    has_str_prefix(t, "[") && has_str_suffix(t, "]")
}

fn is_header_line(line: &[char], loose: bool) -> (r: bool)
    ensures
        r == is_header(line@, loose),
{
    stands_in_brackets(trimmed(line)) || (loose && stands_in_brackets(trimmed(uncommented_of(line))))
}

fn unquoted_of(name: &[char]) -> (r: &[char])
    ensures
        r@ == unquoted(name@),
{
    if name.len() >= 2 && (name[0] == '"' || name[0] == '\'') && name[name.len() - 1] == name[0] {
        slice_subrange(name, 1, name.len() - 1)
    } else {
        name
    }
}

fn header_of(table: &str) -> (r: Vec<char>)
    ensures
        r@ == header(table@),
{
    let mut s = String::new();
    s.append("[");
    s.append(table);
    s.append("]");
    assert(s@ =~= header(table@));
    chars_of(s.as_str())
}

fn line_starts_table(line: &[char], table: &str, loose: bool) -> (r: bool)
    ensures
        r == starts_table(line@, table@, loose),
{
    let head = header_of(table);
    if chars_eq(trimmed(line), head.as_slice()) {
        return true;
    }
    let t = trimmed(uncommented_of(line));
    loose && t.len() >= 2 && stands_in_brackets(t) && text_eq(unquoted_of(trimmed(slice_subrange(t, 1, t.len() - 1))), table)
}

fn sees_table(s: &str, table: &str, loose: bool) -> (r: bool)
    ensures
        r == has_table(text::lines(s@), table@, loose),
{
    let v = chars_of(s);
    let ls = lines_of(v.as_slice());
    let ghost all = text::lines(s@);
    let mut i: usize = 0;
    while i < ls.len()
        invariant
            i <= ls@.len(),
            text::views(ls@) == all,
            all == text::lines(s@),
            forall|j: int| 0 <= j < i ==> !starts_table(#[trigger] all[j], table@, loose),
        decreases ls@.len() - i,
    {
        assert(text::views(ls@)[i as int] == ls@[i as int]@);
        if line_starts_table(ls[i], table, loose) {
            assert(starts_table(all[i as int], table@, loose));
            return true;
        }
        i = i + 1;
    }
    assert(all.len() == ls@.len());
    false
}

/// The lines of a section.
fn table_lines<'a>(ls: &Vec<&'a [char]>, table: &str, loose: bool) -> (r: Vec<&'a [char]>)
    ensures
        text::views(r@) == lines_in(text::views(ls@), table@, loose),
{
    let ghost all = text::views(ls@);
    let mut r: Vec<&'a [char]> = Vec::new();
    let mut inside = false;
    let mut i: usize = 0;
    assert(all.take(0).len() == 0);
    assert(text::views(r@) =~= lines_in(all.take(0), table@, loose));
    while i < ls.len()
        invariant
            i <= ls@.len(),
            all == text::views(ls@),
            inside == in_table(all.take(i as int), table@, loose),
            text::views(r@) == lines_in(all.take(i as int), table@, loose),
        decreases ls@.len() - i,
    {
        let line = ls[i];
        let ghost before = text::views(r@);
        proof {
            assert(all.take(i + 1).drop_last() =~= all.take(i as int));
            assert(all.take(i + 1).last() == line@);
        }
        if is_header_line(line, loose) {
            inside = line_starts_table(line, table, loose);
        } else if inside {
            r.push(line);
            assert(text::views(r@) =~= before.push(line@));
        }
        i = i + 1;
    }
    assert(all.take(i as int) =~= all);
    r
}

fn gives_spelled(line: &[char], spelled: &[char]) -> (r: bool)
    ensures
        r == gives_as(line@, spelled@),
{
    let t = trimmed_start(line);
    if !has_prefix(t, spelled) {
        return false;
    }
    let rest = slice_subrange(t, spelled.len(), t.len());
    assert(rest@ =~= t@.skip(spelled@.len() as int));
    has_str_prefix(trimmed_start(rest), "=")
}

fn in_quotes(key: &[char], quote: char) -> (r: Vec<char>)
    ensures
        r@ == seq![quote] + key@ + seq![quote],
{
    let mut s = String::new();
    s.push(quote);
    push_chars(&mut s, key);
    s.push(quote);
    assert(s@ =~= seq![quote] + key@ + seq![quote]);
    chars_of(s.as_str())
}

fn gives_key(line: &[char], key: &str, loose: bool) -> (r: bool)
    ensures
        r == gives(line@, key@, loose),
{
    let k = chars_of(key);
    let double = in_quotes(k.as_slice(), '"');
    let single = in_quotes(k.as_slice(), '\'');
    gives_spelled(line, k.as_slice()) || (loose && (gives_spelled(line, double.as_slice()) || gives_spelled(
        line,
        single.as_slice(),
    )))
}

fn sees_key(s: &str, table: &str, key: &str, loose: bool) -> (r: bool)
    ensures
        r == has_key(text::lines(s@), table@, key@, loose),
{
    let v = chars_of(s);
    let ls = lines_of(v.as_slice());
    let inside = table_lines(&ls, table, loose);
    let ghost all = lines_in(text::lines(s@), table@, loose);
    let mut i: usize = 0;
    while i < inside.len()
        invariant
            i <= inside@.len(),
            text::views(inside@) == all,
            all == lines_in(text::lines(s@), table@, loose),
            forall|j: int| 0 <= j < i ==> !gives(#[trigger] all[j], key@, loose),
        decreases inside@.len() - i,
    {
        assert(text::views(inside@)[i as int] == inside@[i as int]@);
        if gives_key(inside[i], key, loose) {
            assert(gives(all[i as int], key@, loose));
            return true;
        }
        i = i + 1;
    }
    assert(all.len() == inside@.len());
    false
}

fn insert_entry(s: &str, table: &str, entry: &str, loose: bool) -> (r: String)
    ensures
        r@ == unlines(with_entry(text::lines(s@), table@, entry@, loose)),
{
    let v = chars_of(s);
    let ls = lines_of(v.as_slice());
    let ghost all = text::lines(s@);
    let mut r = String::new();
    let mut inside = false;
    let mut inserted = false;
    let mut i: usize = 0;
    assert(all.take(0).len() == 0);
    assert(r@ =~= unlines(entered(all.take(0), table@, entry@, loose)));
    while i < ls.len()
        invariant
            i <= ls@.len(),
            text::views(ls@) == all,
            inside == in_table(all.take(i as int), table@, loose),
            inserted == is_left(all.take(i as int), table@, loose),
            r@ == unlines(entered(all.take(i as int), table@, entry@, loose)),
        decreases ls@.len() - i,
    {
        let line = ls[i];
        let ghost before = entered(all.take(i as int), table@, entry@, loose);
        proof {
            assert(text::views(ls@)[i as int] == line@);
            assert(all.take(i + 1).drop_last() =~= all.take(i as int));
            assert(all.take(i + 1).last() == line@);
            assert(before.push(entry@).drop_last() =~= before);
            assert(before.push(entry@).push(line@).drop_last() =~= before.push(entry@));
            assert(before.push(line@).drop_last() =~= before);
        }
        let starts = is_header_line(line, loose);
        let leaves = inside && starts && !inserted;
        if leaves {
            r.append(entry);
            r.append("\n");
            assert(r@ =~= unlines(before.push(entry@)));
        }
        if inside && starts {
            inserted = true;
        }
        push_chars(&mut r, line);
        r.append("\n");
        if starts {
            inside = line_starts_table(line, table, loose);
        }
        i = i + 1;
    }
    assert(all.take(i as int) =~= all);
    if inside && !inserted {
        let ghost before = entered(all, table@, entry@, loose);
        assert(before.push(entry@).drop_last() =~= before);
        r.append(entry);
        r.append("\n");
        assert(r@ =~= unlines(before.push(entry@)));
    }
    r
}

fn insert_under_header(s: &str, table: &str, entry: &str) -> (r: String)
    ensures
        r@ == unlines(headed(text::lines(s@), table@, entry@)),
{
    let v = chars_of(s);
    let ls = lines_of(v.as_slice());
    let ghost all = text::lines(s@);
    let mut r = String::new();
    let mut inserted = false;
    let mut i: usize = 0;
    assert(all.take(0).len() == 0);
    assert(r@ =~= unlines(headed(all.take(0), table@, entry@)));
    while i < ls.len()
        invariant
            i <= ls@.len(),
            text::views(ls@) == all,
            inserted == has_table(all.take(i as int), table@, true),
            r@ == unlines(headed(all.take(i as int), table@, entry@)),
        decreases ls@.len() - i,
    {
        let line = ls[i];
        let ghost before = headed(all.take(i as int), table@, entry@);
        let ghost upto = all.take(i + 1);
        proof {
            assert(text::views(ls@)[i as int] == line@);
            assert(upto.drop_last() =~= all.take(i as int));
            assert(upto.last() == line@);
            assert(before.push(line@).drop_last() =~= before);
            assert(before.push(line@).push(entry@).drop_last() =~= before.push(line@));
            if has_table(all.take(i as int), table@, true) {
                let j = choose|j: int|
                    0 <= j < i && starts_table(#[trigger] all.take(i as int)[j], table@, true);
                assert(upto[j] == all.take(i as int)[j]);
            }
            if has_table(upto, table@, true) {
                let j = choose|j: int| 0 <= j < i + 1 && starts_table(#[trigger] upto[j], table@, true);
                assert(j < i ==> all.take(i as int)[j] == upto[j]);
            }
            assert(upto[i as int] == line@);
        }
        push_chars(&mut r, line);
        r.append("\n");
        assert(r@ =~= unlines(before.push(line@)));
        if line_starts_table(line, table, true) && !inserted {
            r.append(entry);
            r.append("\n");
            assert(r@ =~= unlines(before.push(line@).push(entry@)));
            inserted = true;
        }
        i = i + 1;
    }
    assert(all.take(i as int) =~= all);
    r
}

/// Whether a line of the text starts a section.
pub fn has_toml_table(s: &str, table: &str) -> (r: bool)
    ensures
        r == has_table(text::lines(s@), table@, false),
{
    sees_table(s, table, false)
}

/// Whether a section of the text gives a key a value.
pub fn table_contains_key(s: &str, table: &str, key: &str) -> (r: bool)
    ensures
        r == has_key(text::lines(s@), table@, key@, false),
{
    sees_key(s, table, key, false)
}

/// Inserts an entry at the end of a section.
pub fn insert_key_in_table(s: &str, table: &str, entry: &str) -> (r: String)
    ensures
        r@ == unlines(with_entry(text::lines(s@), table@, entry@, false)),
{
    insert_entry(s, table, entry, false)
}

/// A file with a section on processes to wait for at its end.
pub fn add_wait_section(s: &str) -> (r: String)
    ensures
        r@ == with_section_at_end(s@),
{
    let mut r = s.to_owned();
    let v = chars_of(s);
    if !has_str_suffix(v.as_slice(), "\n") {
        r.append("\n");
    }
    r.append(PROCESS_WAIT_SECTION);
    assert(r@ =~= with_section_at_end(s@));
    r
}

/// A file with the color of waiting, where it has a section on colors that lacks
/// it; else the file as it is.
pub fn add_wait_color(s: &str, loose: bool) -> (r: String)
    ensures
        r@ == with_wait_color(s@, loose),
{
    if sees_table(s, "colors", loose) && !sees_key(s, "colors", "process_wait", loose) {
        insert_entry(s, "colors", PROCESS_WAIT_COLOR, loose)
    } else {
        s.to_owned()
    }
}

/// A file with the color of waiting as the first entry of its section on colors,
/// where that lacks it; else the file as it is.
pub fn add_first_color(s: &str) -> (r: String)
    ensures
        r@ == with_first_color(s@),
{
    if sees_table(s, "colors", true) && !sees_key(s, "colors", "process_wait", true) {
        insert_under_header(s, "colors", PROCESS_WAIT_COLOR)
    } else {
        s.to_owned()
    }
}

/// A white character at the end of a text is not seen in the trimmed text.
proof fn lemma_trim_push(s: Seq<char>, c: char)
    requires
        text::is_white(c),
    ensures
        text::trim(s.push(c)) == text::trim(s),
    decreases s.len(),
{
    let t = s.push(c);
    if s.len() == 0 {
        assert(t.drop_first() =~= Seq::<char>::empty());
        assert(text::trim_start(t) =~= text::trim_start(s)) by {
            assert(text::trim_start(t) == text::trim_start(t.drop_first()));
        }
    } else if text::is_white(s[0]) {
        assert(t.drop_first() =~= s.drop_first().push(c));
        lemma_trim_push(s.drop_first(), c);
    } else {
        assert(t.drop_last() =~= s);
    }
}

proof fn lemma_trim_strip(s: Seq<char>)
    ensures
        text::trim(text::strip_cr(s)) == text::trim(s),
{
    if s.len() > 0 && s.last() == '\r' {
        assert(s.drop_last().push('\r') =~= s);
        lemma_trim_push(s.drop_last(), '\r');
    }
}

/// What is in front of a comment is the same without a carriage return at the end.
proof fn lemma_uncommented_strip(s: Seq<char>)
    ensures
        text::trim(uncommented(text::strip_cr(s))) == text::trim(uncommented(s)),
{
    text::lemma_until(s, '#');
    let n = text::until(s, '#');
    if s.len() > 0 && s.last() == '\r' {
        let t = s.drop_last();
        if n < s.len() {
            text::lemma_until_is(t, '#', n);
            assert(t.take(n as int) =~= s.take(n as int));
        } else {
            text::lemma_until_is(t, '#', t.len());
            assert(t.take(t.len() as int) =~= t);
            assert(s.take(s.len() as int) =~= s);
            lemma_trim_strip(s);
        }
    }
}

/// A text that begins with no white space begins as before when it is trimmed.
proof fn lemma_trim_first(s: Seq<char>)
    requires
        s.len() > 0,
        !text::is_white(s[0]),
    ensures
        text::trim(s).len() > 0,
        text::trim(s)[0] == s[0],
{
    assert(text::trim_start(s) == s);
    lemma_trim_end_first(s);
}

proof fn lemma_trim_end_first(s: Seq<char>)
    requires
        s.len() > 0,
        !text::is_white(s[0]),
    ensures
        text::trim_end(s).len() > 0,
        text::trim_end(s)[0] == s[0],
    decreases s.len(),
{
    if text::is_white(s.last()) {
        lemma_trim_end_first(s.drop_last());
    }
}

/// A line that begins with something else than a bracket starts no section.
pub proof fn lemma_no_header(line: Seq<char>, loose: bool)
    requires
        line.len() > 0,
        !text::is_white(line[0]),
        line[0] != '[',
    ensures
        !is_header(line, loose),
{
    reveal_strlit("[");
    lemma_trim_first(line);
    assert(text::trim(line).take(1)[0] == line[0]);
    text::lemma_until(line, '#');
    let front = uncommented(line);
    if front.len() > 0 {
        assert(front[0] == line[0]);
        lemma_trim_first(front);
        assert(text::trim(front).take(1)[0] == line[0]);
    } else {
        assert(text::trim(front).len() == 0);
    }
}

/// A line that starts a section is seen as one that starts some section.
pub proof fn lemma_starts_is_header(line: Seq<char>, table: Seq<char>, loose: bool)
    requires
        starts_table(line, table, loose),
    ensures
        is_header(line, loose),
{
    reveal_strlit("[");
    reveal_strlit("]");
    let head = header(table);
    assert(head.take(1) =~= "["@);
    assert(head.skip(head.len() - 1) =~= "]"@);
}

/// Lines without a carriage return at their end.
spec fn stripped(ls: Seq<Seq<char>>) -> Seq<Seq<char>> {
    ls.map_values(|l: Seq<char>| text::strip_cr(l))
}

proof fn lemma_stripped_last(ls: Seq<Seq<char>>, loose: bool)
    requires
        ls.len() > 0,
    ensures
        stripped(ls).drop_last() == stripped(ls.drop_last()),
        stripped(ls).last() == text::strip_cr(ls.last()),
        is_header(stripped(ls).last(), loose) == is_header(ls.last(), loose),
        forall|table: Seq<char>| #[trigger]
            starts_table(stripped(ls).last(), table, loose) == starts_table(ls.last(), table, loose),
{
    assert(stripped(ls).drop_last() =~= stripped(ls.drop_last()));
    lemma_trim_strip(ls.last());
    lemma_uncommented_strip(ls.last());
}

/// Carriage returns at the ends of lines do not matter to sections.
proof fn lemma_stripped_tables(ls: Seq<Seq<char>>, table: Seq<char>, loose: bool)
    ensures
        in_table(stripped(ls), table, loose) == in_table(ls, table, loose),
        is_left(stripped(ls), table, loose) == is_left(ls, table, loose),
    decreases ls.len(),
{
    if ls.len() > 0 {
        lemma_stripped_last(ls, loose);
        lemma_stripped_tables(ls.drop_last(), table, loose);
    }
}

proof fn lemma_stripped_entered(ls: Seq<Seq<char>>, table: Seq<char>, entry: Seq<char>, loose: bool)
    requires
        text::strip_cr(entry) == entry,
    ensures
        stripped(entered(ls, table, entry, loose)) == entered(stripped(ls), table, entry, loose),
    decreases ls.len(),
{
    if ls.len() > 0 {
        lemma_stripped_last(ls, loose);
        lemma_stripped_tables(ls.drop_last(), table, loose);
        lemma_stripped_entered(ls.drop_last(), table, entry, loose);
        let before = entered(ls.drop_last(), table, entry, loose);
        assert(stripped(before.push(entry).push(ls.last())) =~= stripped(before).push(entry).push(
            text::strip_cr(ls.last()),
        ));
        assert(stripped(before.push(ls.last())) =~= stripped(before).push(text::strip_cr(ls.last())));
    } else {
        assert(stripped(entered(ls, table, entry, loose)) =~= entered(stripped(ls), table, entry, loose));
    }
}

/// Every line of a text is without a line feed.
proof fn lemma_lines_flat(s: Seq<char>, i: int)
    requires
        0 <= i < text::lines(s).len(),
    ensures
        !text::lines(s)[i].contains('\n'),
    decreases s.len(),
{
    text::lemma_until(s, '\n');
    let n = text::until(s, '\n') as int;
    if n < s.len() {
        let first = text::strip_cr(s.take(n));
        if i == 0 {
            assert forall|j: int| 0 <= j < first.len() implies first[j] != '\n' by {
                assert(first[j] == s[j]);
            }
        } else {
            lemma_lines_flat(s.skip(n + 1), i - 1);
            assert(text::lines(s)[i] == text::lines(s.skip(n + 1))[i - 1]);
        }
    } else {
        assert forall|j: int| 0 <= j < s.len() implies s[j] != '\n' by {}
    }
}

/// Text that follows a line feed is split on its own.
pub proof fn lemma_lines_add(a: Seq<char>, b: Seq<char>)
    requires
        a.len() == 0 || a.last() == '\n',
    ensures
        text::lines(a + b) == text::lines(a) + text::lines(b),
    decreases a.len(),
{
    if a.len() == 0 {
        assert(a + b =~= b);
        assert(text::lines(a) + text::lines(b) =~= text::lines(b));
    } else {
        text::lemma_until(a, '\n');
        let n = text::until(a, '\n') as int;
        if n == a.len() {
            assert(a[a.len() - 1] != '\n');
        }
        let all = a + b;
        text::lemma_until_is(all, '\n', n as nat);
        assert(all.take(n) =~= a.take(n));
        assert(all.skip(n + 1) =~= a.skip(n + 1) + b);
        lemma_lines_add(a.skip(n + 1), b);
        assert(text::lines(all) =~= text::lines(a) + text::lines(b));
    }
}

/// Lines that were put together come apart as they were, without a carriage
/// return at their end.
proof fn lemma_lines_unlines(ls: Seq<Seq<char>>)
    requires
        forall|i: int| 0 <= i < ls.len() ==> !(#[trigger] ls[i]).contains('\n'),
    ensures
        text::lines(unlines(ls)) == stripped(ls),
        unlines(ls).len() == 0 || unlines(ls).last() == '\n',
    decreases ls.len(),
{
    reveal_strlit("\n");
    if ls.len() == 0 {
        assert(stripped(ls) =~= seq![]);
    } else {
        let init = ls.drop_last();
        let line = ls.last();
        assert forall|i: int| 0 <= i < init.len() implies !(#[trigger] init[i]).contains('\n') by {
            assert(init[i] == ls[i]);
        }
        lemma_lines_unlines(init);
        assert(!ls[ls.len() - 1].contains('\n'));
        assert forall|j: int| 0 <= j < line.len() implies line[j] != '\n' by {
            assert(line.contains(line[j]));
        }
        let tail = line + seq!['\n'] + Seq::<char>::empty();
        text::lemma_lines_cons(line, Seq::empty());
        lemma_lines_add(unlines(init), tail);
        assert(unlines(ls) =~= unlines(init) + tail);
        assert(text::lines(tail) =~= seq![text::strip_cr(line)]);
        assert(stripped(ls) =~= stripped(init) + seq![text::strip_cr(line)]);
    }
}

/// A section that starts somewhere is left later, or lasts to the end.
proof fn lemma_left_or_inside(ls: Seq<Seq<char>>, table: Seq<char>, loose: bool)
    requires
        has_table(ls, table, loose),
    ensures
        is_left(ls, table, loose) || in_table(ls, table, loose),
    decreases ls.len(),
{
    let i = choose|i: int| 0 <= i < ls.len() && starts_table(#[trigger] ls[i], table, loose);
    lemma_starts_is_header(ls[i], table, loose);
    if i < ls.len() - 1 {
        assert(ls.drop_last()[i] == ls[i]);
        assert(has_table(ls.drop_last(), table, loose));
        lemma_left_or_inside(ls.drop_last(), table, loose);
    } else {
        assert(ls.last() == ls[i]);
    }
}

/// What is true of the section's lines stays true when lines follow.
pub proof fn lemma_lines_in_push(ls: Seq<Seq<char>>, line: Seq<char>, table: Seq<char>, key: Seq<char>, loose: bool)
    ensures
        in_table(ls.push(line), table, loose) == (if is_header(line, loose) {
            starts_table(line, table, loose)
        } else {
            in_table(ls, table, loose)
        }),
        (exists|i: int| 0 <= i < lines_in(ls, table, loose).len() && gives(#[trigger] lines_in(ls, table, loose)[i], key, loose)) ==> (
        exists|i: int|
            0 <= i < lines_in(ls.push(line), table, loose).len() && gives(#[trigger] lines_in(ls.push(line), table, loose)[i], key, loose)),
        !is_header(line, loose) && in_table(ls, table, loose) && gives(line, key, loose) ==> (exists|i: int|
            0 <= i < lines_in(ls.push(line), table, loose).len() && gives(#[trigger] lines_in(ls.push(line), table, loose)[i], key, loose)),
{
    let more = ls.push(line);
    assert(more.drop_last() =~= ls);
    let old_lines = lines_in(ls, table, loose);
    let new_lines = lines_in(more, table, loose);
    if exists|i: int| 0 <= i < old_lines.len() && gives(#[trigger] old_lines[i], key, loose) {
        let i = choose|i: int| 0 <= i < old_lines.len() && gives(#[trigger] old_lines[i], key, loose);
        assert(new_lines[i] == old_lines[i]);
    }
    if !is_header(line, loose) && in_table(ls, table, loose) && gives(line, key, loose) {
        assert(new_lines[old_lines.len() as int] == line);
    }
}

/// An entry that was made is found.
proof fn lemma_entered_has_key(ls: Seq<Seq<char>>, table: Seq<char>, entry: Seq<char>, key: Seq<char>, loose: bool)
    requires
        !is_header(entry, loose),
        gives(entry, key, loose),
    ensures
        in_table(entered(ls, table, entry, loose), table, loose) == in_table(ls, table, loose),
        is_left(ls, table, loose) ==> exists|i: int|
            0 <= i < lines_in(entered(ls, table, entry, loose), table, loose).len() && gives(
                #[trigger] lines_in(entered(ls, table, entry, loose), table, loose)[i],
                key,
                loose,
            ),
    decreases ls.len(),
{
    if ls.len() > 0 {
        let init = ls.drop_last();
        let line = ls.last();
        let before = entered(init, table, entry, loose);
        lemma_entered_has_key(init, table, entry, key, loose);
        if is_header(line, loose) && in_table(init, table, loose) && !is_left(init, table, loose) {
            lemma_lines_in_push(before, entry, table, key, loose);
            lemma_lines_in_push(before.push(entry), line, table, key, loose);
        } else {
            lemma_lines_in_push(before, line, table, key, loose);
        }
    }
}

/// The entry for the color is a line that gives it.
pub proof fn lemma_wait_color_entry(loose: bool)
    ensures
        !is_header(PROCESS_WAIT_COLOR@, loose),
        gives(PROCESS_WAIT_COLOR@, "process_wait"@, loose),
        text::strip_cr(PROCESS_WAIT_COLOR@) == PROCESS_WAIT_COLOR@,
        !PROCESS_WAIT_COLOR@.contains('\n'),
{
    reveal_strlit("process_wait = \"blue\"");
    reveal_strlit("process_wait");
    reveal_strlit("=");
    reveal_strlit("[");
    let entry = PROCESS_WAIT_COLOR@;
    assert(text::trim_start(entry) == entry);
    lemma_no_header(entry, loose);
    assert(entry.take(12) =~= "process_wait"@);
    let rest = entry.skip(12);
    assert(rest[0] == ' ');
    assert(rest.drop_first()[0] == '=');
    assert(text::trim_start(rest) == text::trim_start(rest.drop_first()));
    assert(text::trim_start(rest.drop_first()) == rest.drop_first());
    assert(rest.drop_first().take(1) =~= "="@);
}

/// A section starts where it starts, also without carriage returns.
proof fn lemma_table_stays(ls: Seq<Seq<char>>, table: Seq<char>, loose: bool)
    requires
        has_table(ls, table, loose),
    ensures
        has_table(stripped(ls), table, loose),
{
    let i = choose|i: int| 0 <= i < ls.len() && starts_table(#[trigger] ls[i], table, loose);
    lemma_trim_strip(ls[i]);
    lemma_uncommented_strip(ls[i]);
    assert(stripped(ls)[i] == text::strip_cr(ls[i]));
}

/// The section that is added starts with its header.
proof fn lemma_wait_section(loose: bool)
    ensures
        has_table(text::lines(PROCESS_WAIT_SECTION@), "process_wait"@, loose),
{
    reveal_strlit(
        "
[process_wait]
# When enabled, sleep is delayed after delay_seconds until all matching
# command lines disappear, then exit_grace_seconds is counted before sleep.
enabled = false
command_substrings = []
exit_grace_seconds = 300
",
    );
    reveal_strlit("process_wait");
    reveal_strlit("[");
    reveal_strlit("]");
    let s = PROCESS_WAIT_SECTION@;
    let head = header("process_wait"@);
    assert(head.len() == 14);
    assert(head =~= s.subrange(1, 15));
    let rest = s.skip(16);
    assert(s =~= Seq::<char>::empty() + seq!['\n'] + (head + seq!['\n'] + rest));
    text::lemma_lines_cons(Seq::empty(), head + seq!['\n'] + rest);
    text::lemma_lines_cons(head, rest);
    assert(text::strip_cr(head) == head);
    assert(text::trim_start(head) == head);
    assert(text::trim_end(head) == head);
    assert(text::lines(s)[1] == head);
}

proof fn lemma_table_in_sum(a: Seq<Seq<char>>, b: Seq<Seq<char>>, table: Seq<char>, loose: bool)
    requires
        has_table(b, table, loose),
    ensures
        has_table(a + b, table, loose),
{
    let i = choose|i: int| 0 <= i < b.len() && starts_table(#[trigger] b[i], table, loose);
    assert((a + b)[a.len() + i] == b[i]);
}

/// A section that was added is seen.
pub proof fn added_section_is_seen(s: Seq<char>, loose: bool)
    ensures
        has_table(text::lines(with_section_at_end(s)), "process_wait"@, loose),
{
    reveal_strlit("\n");
    assert(ended(s).last() == '\n') by {
        if text::ends_with(s, "\n"@) {
            assert(s.skip(s.len() - 1)[0] == s.last());
        }
    }
    lemma_lines_add(ended(s), PROCESS_WAIT_SECTION@);
    lemma_wait_section(loose);
    lemma_table_in_sum(text::lines(ended(s)), text::lines(PROCESS_WAIT_SECTION@), "process_wait"@, loose);
}

/// Where there is a section, an entry that was made in it is seen.
proof fn lemma_entry_is_seen(ls: Seq<Seq<char>>, table: Seq<char>, entry: Seq<char>, key: Seq<char>, loose: bool)
    requires
        has_table(ls, table, loose),
        !is_header(entry, loose),
        gives(entry, key, loose),
    ensures
        has_key(with_entry(ls, table, entry, loose), table, key, loose),
{
    lemma_entered_has_key(ls, table, entry, key, loose);
    lemma_left_or_inside(ls, table, loose);
    if !is_left(ls, table, loose) {
        lemma_lines_in_push(entered(ls, table, entry, loose), entry, table, key, loose);
    }
}

/// An entry that is a line of its own stays one, also without carriage returns.
proof fn lemma_stripped_with_entry(ls: Seq<Seq<char>>, table: Seq<char>, entry: Seq<char>, loose: bool)
    requires
        text::strip_cr(entry) == entry,
    ensures
        stripped(with_entry(ls, table, entry, loose)) == with_entry(stripped(ls), table, entry, loose),
{
    lemma_stripped_entered(ls, table, entry, loose);
    lemma_stripped_tables(ls, table, loose);
    let made = entered(ls, table, entry, loose);
    assert(stripped(made.push(entry)) =~= stripped(made).push(entry));
}

/// The color that was added is seen.
pub proof fn added_color_is_seen(s: Seq<char>, loose: bool)
    ensures
        !lacks_color(with_wait_color(s, loose), loose),
{
    if lacks_color(s, loose) {
        let ls = text::lines(s);
        let entry = PROCESS_WAIT_COLOR@;
        lemma_wait_color_entry(loose);
        lemma_entered_flat(s, "colors"@, entry, loose);
        lemma_lines_unlines(with_entry(ls, "colors"@, entry, loose));
        lemma_stripped_with_entry(ls, "colors"@, entry, loose);
        lemma_table_stays(ls, "colors"@, loose);
        lemma_entry_is_seen(stripped(ls), "colors"@, entry, "process_wait"@, loose);
    }
}

/// No line has a line feed after an entry without one was made.
proof fn lemma_entered_flat(s: Seq<char>, table: Seq<char>, entry: Seq<char>, loose: bool)
    requires
        !entry.contains('\n'),
    ensures
        forall|i: int|
            0 <= i < with_entry(text::lines(s), table, entry, loose).len() ==> !(#[trigger] with_entry(
                text::lines(s),
                table,
                entry,
                loose,
            )[i]).contains('\n'),
{
    let ls = text::lines(s);
    assert forall|i: int| 0 <= i < ls.len() implies !(#[trigger] ls[i]).contains('\n') by {
        lemma_lines_flat(s, i);
    }
    lemma_entered_flat_lines(ls, table, entry, loose);
}

proof fn lemma_entered_flat_lines(ls: Seq<Seq<char>>, table: Seq<char>, entry: Seq<char>, loose: bool)
    requires
        !entry.contains('\n'),
        forall|i: int| 0 <= i < ls.len() ==> !(#[trigger] ls[i]).contains('\n'),
    ensures
        forall|i: int|
            0 <= i < entered(ls, table, entry, loose).len() ==> !(#[trigger] entered(ls, table, entry, loose)[i]).contains('\n'),
    decreases ls.len(),
{
    if ls.len() > 0 {
        assert forall|i: int| 0 <= i < ls.drop_last().len() implies !(#[trigger] ls.drop_last()[i]).contains('\n') by {
            assert(ls.drop_last()[i] == ls[i]);
        }
        lemma_entered_flat_lines(ls.drop_last(), table, entry, loose);
        assert(!ls[ls.len() - 1].contains('\n'));
        let before = entered(ls.drop_last(), table, entry, loose);
        let now = entered(ls, table, entry, loose);
        assert forall|i: int| 0 <= i < now.len() implies !(#[trigger] now[i]).contains('\n') by {
            if i < before.len() {
                assert(now[i] == before[i]);
            }
        }
    }
}

/// A line without the carriage returns at its end.
pub open spec fn without_returns(line: Seq<char>) -> Seq<char>
    decreases line.len(),
{
    if line.len() > 0 && line.last() == '\r' {
        without_returns(line.drop_last())
    } else {
        line
    }
}

/// Some lines occur among others in their order, up to the carriage returns at
/// their ends.
pub open spec fn occur_in(some: Seq<Seq<char>>, all: Seq<Seq<char>>) -> bool
    decreases all.len(),
{
    if some.len() == 0 {
        true
    } else if all.len() == 0 {
        false
    } else {
        (without_returns(some.last()) == without_returns(all.last()) && occur_in(some.drop_last(), all.drop_last()))
            || occur_in(some, all.drop_last())
    }
}

/// Lines still occur when another one follows.
proof fn lemma_occur_push(some: Seq<Seq<char>>, all: Seq<Seq<char>>, line: Seq<char>)
    requires
        occur_in(some, all),
    ensures
        occur_in(some, all.push(line)),
{
    assert(all.push(line).drop_last() =~= all);
}

proof fn lemma_occur_both(some: Seq<Seq<char>>, all: Seq<Seq<char>>, a: Seq<char>, b: Seq<char>)
    requires
        occur_in(some, all),
        without_returns(a) == without_returns(b),
    ensures
        occur_in(some.push(a), all.push(b)),
{
    assert(some.push(a).drop_last() =~= some);
    assert(all.push(b).drop_last() =~= all);
}

/// Lines that are the same one by one occur among each other.
pub proof fn lemma_occur_all(a: Seq<Seq<char>>, b: Seq<Seq<char>>)
    requires
        a.len() == b.len(),
        forall|i: int| 0 <= i < a.len() ==> without_returns(#[trigger] a[i]) == without_returns(b[i]),
    ensures
        occur_in(a, b),
    decreases a.len(),
{
    if a.len() > 0 {
        assert forall|i: int| 0 <= i < a.len() - 1 implies without_returns(#[trigger] a.drop_last()[i])
            == without_returns(b.drop_last()[i]) by {
            assert(a.drop_last()[i] == a[i]);
        }
        lemma_occur_all(a.drop_last(), b.drop_last());
        assert(a.last() == a[a.len() - 1]);
    }
}

proof fn lemma_occur_before(some: Seq<Seq<char>>, all: Seq<Seq<char>>, more: Seq<Seq<char>>)
    requires
        occur_in(some, all),
    ensures
        occur_in(some, all + more),
    decreases more.len(),
{
    if more.len() == 0 {
        assert(all + more =~= all);
    } else {
        lemma_occur_before(some, all, more.drop_last());
        lemma_occur_push(some, all + more.drop_last(), more.last());
        assert((all + more.drop_last()).push(more.last()) =~= all + more);
    }
}

/// Lines that occur among some that occur among others occur among those.
pub proof fn lemma_occur_chain(a: Seq<Seq<char>>, b: Seq<Seq<char>>, c: Seq<Seq<char>>)
    requires
        occur_in(a, b),
        occur_in(b, c),
    ensures
        occur_in(a, c),
    decreases c.len(),
{
    if a.len() > 0 {
        if occur_in(b, c.drop_last()) {
            lemma_occur_chain(a, b, c.drop_last());
        } else if occur_in(a, b.drop_last()) {
            lemma_occur_chain(a, b.drop_last(), c.drop_last());
        } else {
            lemma_occur_chain(a.drop_last(), b.drop_last(), c.drop_last());
        }
    }
}

/// An entry that was made leaves the other lines.
proof fn lemma_occur_entered(ls: Seq<Seq<char>>, table: Seq<char>, entry: Seq<char>, loose: bool)
    ensures
        occur_in(ls, stripped(entered(ls, table, entry, loose))),
    decreases ls.len(),
{
    if ls.len() > 0 {
        let init = ls.drop_last();
        let line = ls.last();
        let before = entered(init, table, entry, loose);
        lemma_occur_entered(init, table, entry, loose);
        assert(init.push(line) =~= ls);
        if is_header(line, loose) && in_table(init, table, loose) && !is_left(init, table, loose) {
            lemma_occur_push(init, stripped(before), text::strip_cr(entry));
            lemma_occur_both(init, stripped(before).push(text::strip_cr(entry)), line, text::strip_cr(line));
            assert(stripped(before.push(entry).push(line)) =~= stripped(before).push(text::strip_cr(entry)).push(
                text::strip_cr(line),
            ));
        } else {
            lemma_occur_both(init, stripped(before), line, text::strip_cr(line));
            assert(stripped(before.push(line)) =~= stripped(before).push(text::strip_cr(line)));
        }
    }
}

/// Ending the last line leaves the lines.
proof fn lemma_lines_ended(s: Seq<char>)
    requires
        s.len() > 0,
        s.last() != '\n',
    ensures
        text::lines(s.push('\n')).len() == text::lines(s).len(),
        forall|i: int|
            0 <= i < text::lines(s).len() ==> without_returns(#[trigger] text::lines(s)[i]) == without_returns(
                text::lines(s.push('\n'))[i],
            ),
    decreases s.len(),
{
    let t = s.push('\n');
    text::lemma_until(s, '\n');
    let n = text::until(s, '\n') as int;
    text::lemma_until_is(t, '\n', n as nat);
    assert(t.take(n) =~= s.take(n));
    if n < s.len() {
        let rest = s.skip(n + 1);
        assert(t.skip(n + 1) =~= rest.push('\n'));
        assert(rest.last() == s.last());
        lemma_lines_ended(rest);
        assert forall|i: int| 0 <= i < text::lines(s).len() implies without_returns(#[trigger] text::lines(s)[i])
            == without_returns(text::lines(t)[i]) by {
            if i > 0 {
                assert(text::lines(s)[i] == text::lines(rest)[i - 1]);
                assert(text::lines(t)[i] == text::lines(rest.push('\n'))[i - 1]);
            }
        }
    } else {
        let none = t.skip(n + 1);
        assert(text::lines(none) =~= seq![]);
        assert(s.take(n) =~= s);
        assert(text::lines(t) =~= seq![text::strip_cr(s)]);
    }
}

/// Adding the section keeps every line of the file, in its order, up to the
/// carriage returns at its end.
pub proof fn section_keeps_lines(s: Seq<char>)
    ensures
        occur_in(text::lines(s), text::lines(with_section_at_end(s))),
{
    reveal_strlit("\n");
    if text::ends_with(s, "\n"@) {
        assert(s.skip(s.len() - 1)[0] == s.last());
        lemma_occur_all(text::lines(s), text::lines(s));
    } else if s.len() > 0 {
        if s.last() == '\n' {
            assert(s.skip(s.len() - 1) =~= "\n"@);
        }
        lemma_lines_ended(s);
        assert(s + "\n"@ =~= s.push('\n'));
        lemma_occur_all(text::lines(s), text::lines(ended(s)));
    }
    assert(ended(s).last() == '\n');
    lemma_lines_add(ended(s), PROCESS_WAIT_SECTION@);
    lemma_occur_before(text::lines(s), text::lines(ended(s)), text::lines(PROCESS_WAIT_SECTION@));
}

/// Adding the color keeps every line of the file, in its order, up to the
/// carriage returns at its end.
pub proof fn color_keeps_lines(s: Seq<char>, loose: bool)
    ensures
        occur_in(text::lines(s), text::lines(with_wait_color(s, loose))),
{
    let ls = text::lines(s);
    if lacks_color(s, loose) {
        let entry = PROCESS_WAIT_COLOR@;
        let made = entered(ls, "colors"@, entry, loose);
        lemma_wait_color_entry(loose);
        lemma_entered_flat(s, "colors"@, entry, loose);
        lemma_lines_unlines(with_entry(ls, "colors"@, entry, loose));
        lemma_occur_entered(ls, "colors"@, entry, loose);
        lemma_occur_push(ls, stripped(made), text::strip_cr(entry));
        assert(stripped(made.push(entry)) =~= stripped(made).push(text::strip_cr(entry)));
    } else {
        lemma_occur_all(ls, ls);
    }
}

/// An entry that was made under a header is seen, and leaves the other lines.
proof fn lemma_headed(ls: Seq<Seq<char>>, table: Seq<char>, entry: Seq<char>, key: Seq<char>)
    requires
        !is_header(entry, true),
        gives(entry, key, true),
        text::strip_cr(entry) == entry,
        !entry.contains('\n'),
        forall|i: int| 0 <= i < ls.len() ==> !(#[trigger] ls[i]).contains('\n'),
    ensures
        forall|i: int|
            0 <= i < headed(ls, table, entry).len() ==> !(#[trigger] headed(ls, table, entry)[i]).contains('\n'),
        occur_in(ls, stripped(headed(ls, table, entry))),
        has_table(ls, table, true) ==> has_key(stripped(headed(ls, table, entry)), table, key, true),
    decreases ls.len(),
{
    if ls.len() > 0 {
        let init = ls.drop_last();
        let line = ls.last();
        assert forall|i: int| 0 <= i < init.len() implies !(#[trigger] init[i]).contains('\n') by {
            assert(init[i] == ls[i]);
        }
        assert(!ls[ls.len() - 1].contains('\n'));
        lemma_headed(init, table, entry, key);
        let made = headed(init, table, entry);
        let now = headed(ls, table, entry);
        let shown = text::strip_cr(line);
        assert forall|i: int| 0 <= i < now.len() implies !(#[trigger] now[i]).contains('\n') by {
            if i < made.len() {
                assert(now[i] == made[i]);
            }
        }
        assert(stripped(made.push(line)) =~= stripped(made).push(shown));
        assert(init.push(line) =~= ls);
        lemma_occur_both(init, stripped(made), line, shown);
        lemma_lines_in_push(stripped(made), shown, table, key, true);
        lemma_stripped_last(ls, true);
        if starts_table(line, table, true) && !has_table(init, table, true) {
            lemma_starts_is_header(line, table, true);
            assert(stripped(made.push(line).push(entry)) =~= stripped(made).push(shown).push(entry));
            lemma_occur_push(ls, stripped(made).push(shown), entry);
            lemma_lines_in_push(stripped(made).push(shown), entry, table, key, true);
        } else if has_table(ls, table, true) {
            let j = choose|j: int| 0 <= j < ls.len() && starts_table(#[trigger] ls[j], table, true);
            assert(j < init.len() ==> init[j] == ls[j]);
            assert(has_table(init, table, true));
        }
    }
}

/// The color that was added under the header is seen, and every line of the file
/// is kept, in its order, up to the carriage returns at its end.
pub proof fn first_color_is_seen(s: Seq<char>)
    ensures
        !lacks_color(with_first_color(s), true),
        occur_in(text::lines(s), text::lines(with_first_color(s))),
{
    let ls = text::lines(s);
    if lacks_color(s, true) {
        let entry = PROCESS_WAIT_COLOR@;
        lemma_wait_color_entry(true);
        assert forall|i: int| 0 <= i < ls.len() implies !(#[trigger] ls[i]).contains('\n') by {
            lemma_lines_flat(s, i);
        }
        lemma_headed(ls, "colors"@, entry, "process_wait"@);
        lemma_lines_unlines(headed(ls, "colors"@, entry));
    } else {
        lemma_occur_all(ls, ls);
    }
}

/// Carriage returns at the end of a line do not matter to what it starts.
proof fn lemma_returns_start_nothing(line: Seq<char>, table: Seq<char>, loose: bool)
    ensures
        starts_table(without_returns(line), table, loose) == starts_table(line, table, loose),
    decreases line.len(),
{
    if line.len() > 0 && line.last() == '\r' {
        lemma_returns_start_nothing(line.drop_last(), table, loose);
        lemma_trim_strip(line);
        lemma_uncommented_strip(line);
        assert(text::strip_cr(line) =~= line.drop_last());
    }
}

/// A section that lines start is started where the lines occur.
pub proof fn kept_lines_start_sections(some: Seq<Seq<char>>, all: Seq<Seq<char>>, table: Seq<char>, loose: bool)
    requires
        occur_in(some, all),
        has_table(some, table, loose),
    ensures
        has_table(all, table, loose),
    decreases all.len(),
{
    let i = choose|i: int| 0 <= i < some.len() && starts_table(#[trigger] some[i], table, loose);
    let rest = all.drop_last();
    if occur_in(some, rest) {
        kept_lines_start_sections(some, rest, table, loose);
    } else if i == some.len() - 1 {
        lemma_returns_start_nothing(some.last(), table, loose);
        lemma_returns_start_nothing(all.last(), table, loose);
        assert(starts_table(all[all.len() - 1], table, loose));
    } else {
        assert(some.drop_last()[i] == some[i]);
        kept_lines_start_sections(some.drop_last(), rest, table, loose);
    }
    if has_table(rest, table, loose) {
        let j = choose|j: int| 0 <= j < rest.len() && starts_table(#[trigger] rest[j], table, loose);
        assert(all[j] == rest[j]);
    }
}

/// A text has the character.
spec fn has_char(s: Seq<char>, c: char) -> bool {
    exists|i: int| 0 <= i < s.len() && s[i] == c
}

/// What is in no text is in none of its lines.
proof fn lemma_lines_without(s: Seq<char>, c: char, i: int)
    requires
        !has_char(s, c),
        0 <= i < text::lines(s).len(),
    ensures
        !has_char(text::lines(s)[i], c),
    decreases s.len(),
{
    text::lemma_until(s, '\n');
    let n = text::until(s, '\n') as int;
    if n < s.len() {
        let first = text::strip_cr(s.take(n));
        let rest = s.skip(n + 1);
        if i == 0 {
            assert forall|j: int| 0 <= j < first.len() implies first[j] != c by {
                assert(first[j] == s[j]);
            }
        } else {
            assert forall|j: int| 0 <= j < rest.len() implies rest[j] != c by {
                assert(rest[j] == s[n + 1 + j]);
            }
            lemma_lines_without(rest, c, i - 1);
            assert(text::lines(s)[i] == text::lines(rest)[i - 1]);
        }
    }
}

/// Where an entry stands that was made at the end of a section.
pub open spec fn stands_at(ls: Seq<Seq<char>>, table: Seq<char>, entry: Seq<char>, now: Seq<Seq<char>>, n: int, loose: bool) -> bool {
    &&& 0 <= n <= ls.len()
    &&& now == ls.take(n) + seq![entry] + ls.skip(n)
    &&& in_table(ls.take(n), table, loose) && !is_left(ls.take(n), table, loose)
    &&& n == ls.len() || is_header(ls[n], loose)
}

/// An entry is made once, before the section is left.
proof fn lemma_entered_once(ls: Seq<Seq<char>>, table: Seq<char>, entry: Seq<char>, loose: bool)
    ensures
        !is_left(ls, table, loose) ==> entered(ls, table, entry, loose) == ls,
        is_left(ls, table, loose) ==> exists|n: int| n < ls.len() && #[trigger]
            stands_at(ls, table, entry, entered(ls, table, entry, loose), n, loose),
    decreases ls.len(),
{
    if ls.len() > 0 {
        let init = ls.drop_last();
        let line = ls.last();
        let before = entered(init, table, entry, loose);
        let now = entered(ls, table, entry, loose);
        lemma_entered_once(init, table, entry, loose);
        assert(init.push(line) =~= ls);
        if is_left(init, table, loose) {
            let n = choose|n: int| n < init.len() && #[trigger] stands_at(init, table, entry, before, n, loose);
            assert(ls.take(n) =~= init.take(n));
            assert(now =~= ls.take(n) + seq![entry] + ls.skip(n));
            assert(stands_at(ls, table, entry, now, n, loose));
        } else if is_left(ls, table, loose) {
            let n = ls.len() - 1;
            assert(ls.take(n) =~= init);
            assert(now =~= ls.take(n) + seq![entry] + ls.skip(n));
            assert(stands_at(ls, table, entry, now, n, loose));
        }
    } else {
        assert(entered(ls, table, entry, loose) =~= ls);
    }
}

/// Lines of which none starts the section do not belong to it.
proof fn lemma_without_table(ls: Seq<Seq<char>>, table: Seq<char>, loose: bool)
    requires
        !has_table(ls, table, loose),
    ensures
        !in_table(ls, table, loose),
        !is_left(ls, table, loose),
    decreases ls.len(),
{
    if ls.len() > 0 {
        let init = ls.drop_last();
        if has_table(init, table, loose) {
            let i = choose|i: int| 0 <= i < init.len() && starts_table(#[trigger] init[i], table, loose);
            assert(starts_table(ls[i], table, loose));
        }
        lemma_without_table(init, table, loose);
        assert(ls.last() == ls[ls.len() - 1]);
    }
}

/// An entry is inserted exactly once, as the last line of the first section of
/// its name, where it is then seen; no other line changes. Without such a section
/// nothing is inserted. What is not empty ends with a line feed.
pub proof fn entry_is_inserted_once(s: Seq<char>, table: Seq<char>, entry: Seq<char>, key: Seq<char>, loose: bool)
    requires
        !s.contains('\r'),
        !entry.contains('\r'),
        !entry.contains('\n'),
        !is_header(entry, loose),
        gives(entry, key, loose),
    ensures
        ({
            let ls = text::lines(s);
            let made = unlines(with_entry(ls, table, entry, loose));
            let now = text::lines(made);
            &&& made.len() == 0 || made.last() == '\n'
            &&& if has_table(ls, table, loose) {
                &&& exists|n: int| #[trigger] stands_at(ls, table, entry, now, n, loose)
                &&& has_key(now, table, key, loose)
            } else {
                now == ls
            }
        }),
{
    let ls = text::lines(s);
    let with = with_entry(ls, table, entry, loose);
    assert(!has_char(s, '\r')) by {
        if has_char(s, '\r') {
            let i = choose|i: int| 0 <= i < s.len() && s[i] == '\r';
            assert(s.contains(s[i]));
        }
    }
    assert(text::strip_cr(entry) == entry) by {
        if entry.len() > 0 {
            assert(entry.contains(entry.last()));
        }
    }
    assert forall|i: int| 0 <= i < ls.len() implies #[trigger] stripped(ls)[i] == ls[i] by {
        lemma_lines_without(s, '\r', i);
        if ls[i].len() > 0 {
            assert(ls[i].last() == ls[i][ls[i].len() - 1]);
        }
    }
    assert(stripped(ls) =~= ls);
    lemma_entered_flat(s, table, entry, loose);
    lemma_lines_unlines(with);
    lemma_stripped_with_entry(ls, table, entry, loose);
    lemma_entered_once(ls, table, entry, loose);
    if has_table(ls, table, loose) {
        lemma_entry_is_seen(ls, table, entry, key, loose);
        lemma_left_or_inside(ls, table, loose);
        if !is_left(ls, table, loose) {
            let n = ls.len() as int;
            assert(ls.take(n) =~= ls);
            assert(with =~= ls.take(n) + seq![entry] + ls.skip(n));
            assert(stands_at(ls, table, entry, with, n, loose));
        }
    } else {
        lemma_without_table(ls, table, loose);
    }
}

/// A line starts a section where its name stands in brackets, with nothing but
/// white space around; any other text in brackets starts another section. Where
/// lines are read loosely, a comment after it is not looked at, nor are white space
/// and quotes around the name.
pub proof fn sections_start_in_brackets(line: Seq<char>, comment: Seq<char>, table: Seq<char>, quote: char)
    requires
        forall|i: int| 0 <= i < line.len() ==> #[trigger] line[i] != '#',
        table.len() > 0,
        table[0] != '"' && table[0] != '\'',
        quote == '"' || quote == '\'',
    ensures
        ({
            let t = text::trim(line);
            let whole = line + seq!['#'] + comment;
            &&& starts_table(line, table, false) <==> t == seq!['['] + table + seq![']']
            &&& is_header(line, false) <==> t.len() > 0 && t[0] == '[' && t.last() == ']'
            &&& is_header(line, true) <==> t.len() > 0 && t[0] == '[' && t.last() == ']'
            &&& t.len() > 0 && t[0] == '[' && t.last() == ']' ==> is_header(whole, true)
            &&& forall|inner: Seq<char>|
                t == #[trigger] (seq!['['] + inner + seq![']']) && (text::trim(inner) == table || text::trim(inner)
                    == seq![quote] + table + seq![quote]) ==> starts_table(line, table, true) && starts_table(
                    whole,
                    table,
                    true,
                )
        }),
{
    reveal_strlit("[");
    reveal_strlit("]");
    let t = text::trim(line);
    let whole = line + seq!['#'] + comment;
    text::lemma_until_is(line, '#', line.len());
    text::lemma_until_is(whole, '#', line.len());
    assert(uncommented(line) =~= line);
    assert(uncommented(whole) =~= line);
    assert(header(table) =~= seq!['['] + table + seq![']']);
    assert("["@ =~= seq!['[']);
    assert("]"@ =~= seq![']']);
    if t.len() > 0 {
        assert(t.take(1) =~= seq![t[0]]);
        assert(t.skip(t.len() - 1) =~= seq![t.last()]);
        assert(seq![t[0]][0] == t[0]);
        assert(seq![t.last()][0] == t.last());
        assert("["@[0] == '[');
        assert("]"@[0] == ']');
    }
    assert(in_brackets(t) <==> t.len() > 0 && t[0] == '[' && t.last() == ']');
    assert forall|inner: Seq<char>|
        t == #[trigger] (seq!['['] + inner + seq![']']) && (text::trim(inner) == table || text::trim(inner) == seq![quote]
            + table + seq![quote]) implies starts_table(line, table, true) && starts_table(whole, table, true) by {
        assert(t.subrange(1, t.len() - 1) =~= inner);
        let quoted = seq![quote] + table + seq![quote];
        assert(quoted[0] == quote && quoted.last() == quote);
        assert(quoted.subrange(1, quoted.len() - 1) =~= table);
        assert(names(t, table));
    }
}

/// A section lasts from the line that starts it to the next line that starts any.
/// What stands before the first belongs to none.
pub proof fn section_lasts_until_the_next(ls: Seq<Seq<char>>, line: Seq<char>, table: Seq<char>, loose: bool)
    ensures
        !in_table(Seq::<Seq<char>>::empty(), table, loose),
        lines_in(Seq::<Seq<char>>::empty(), table, loose).len() == 0,
        !is_left(Seq::<Seq<char>>::empty(), table, loose),
        is_header(line, loose) ==> in_table(ls.push(line), table, loose) == starts_table(line, table, loose),
        !is_header(line, loose) ==> in_table(ls.push(line), table, loose) == in_table(ls, table, loose),
        !is_header(line, loose) && in_table(ls, table, loose) ==> lines_in(ls.push(line), table, loose) == lines_in(
            ls,
            table,
            loose,
        ).push(line),
        is_header(line, loose) || !in_table(ls, table, loose) ==> lines_in(ls.push(line), table, loose) == lines_in(
            ls,
            table,
            loose,
        ),
        is_left(ls, table, loose) ==> is_left(ls.push(line), table, loose),
        is_header(line, loose) && in_table(ls, table, loose) ==> is_left(ls.push(line), table, loose),
        !is_header(line, loose) ==> is_left(ls.push(line), table, loose) == is_left(ls, table, loose),
        !in_table(ls, table, loose) ==> is_left(ls.push(line), table, loose) == is_left(ls, table, loose),
        unlines(ls.push(line)) == unlines(ls) + line + seq!['\n'],
        unlines(Seq::<Seq<char>>::empty()).len() == 0,
{
    reveal_strlit("\n");
    assert("\n"@ =~= seq!['\n']);
    assert(ls.push(line).drop_last() =~= ls);
}

/// A line gives a key a value where it starts with the key, and an equals sign is
/// the next that is to be seen; it gives none to a key that it does not start with.
/// Where lines are read loosely, the key may stand in quotes.
pub proof fn keys_stand_before_the_equals_sign(
    before: Seq<char>,
    key: Seq<char>,
    between: Seq<char>,
    rest: Seq<char>,
    loose: bool,
)
    requires
        forall|i: int| 0 <= i < before.len() ==> text::is_white(#[trigger] before[i]),
        forall|i: int| 0 <= i < between.len() ==> text::is_white(#[trigger] between[i]),
        key.len() > 0,
        !text::is_white(key[0]),
    ensures
        gives(before + key + between + seq!['='] + rest, key, loose),
        gives(before + seq!['"'] + key + seq!['"'] + between + seq!['='] + rest, key, true),
        gives(before + seq!['\''] + key + seq!['\''] + between + seq!['='] + rest, key, true),
        !text::starts_with(text::trim_start(rest), key) ==> !gives(rest, key, false),
        text::trim_start(rest) == key + between ==> !gives(rest, key, false),
{
    lemma_gives_as(before, key, between, rest);
    let double = seq!['"'] + key + seq!['"'];
    let single = seq!['\''] + key + seq!['\''];
    text::seen_characters_are_not_white('"');
    text::seen_characters_are_not_white('\'');
    lemma_gives_as(before, double, between, rest);
    lemma_gives_as(before, single, between, rest);
    assert(before + seq!['"'] + key + seq!['"'] + between + seq!['='] + rest =~= before + double + between + seq!['='] + rest);
    assert(before + seq!['\''] + key + seq!['\''] + between + seq!['='] + rest =~= before + single + between + seq!['=']
        + rest);
    if text::trim_start(rest) == key + between {
        reveal_strlit("=");
        assert((key + between).skip(key.len() as int) =~= between);
        text::lemma_leading_white(between, Seq::<char>::empty());
        assert(between + Seq::<char>::empty() =~= between);
        assert(text::trim_start(Seq::<char>::empty()).len() == 0);
    }
}

proof fn lemma_gives_as(before: Seq<char>, key: Seq<char>, between: Seq<char>, rest: Seq<char>)
    requires
        forall|i: int| 0 <= i < before.len() ==> text::is_white(#[trigger] before[i]),
        forall|i: int| 0 <= i < between.len() ==> text::is_white(#[trigger] between[i]),
        key.len() > 0,
        !text::is_white(key[0]),
    ensures
        gives_as(before + key + between + seq!['='] + rest, key),
{
    reveal_strlit("=");
    text::seen_characters_are_not_white('=');
    let value = seq!['='] + rest;
    let tail = key + between + value;
    assert(tail[0] == key[0]);
    assert(before + key + between + seq!['='] + rest =~= before + tail);
    text::lemma_leading_white(before, tail);
    assert(text::trim_start(tail) == tail);
    assert(tail.take(key.len() as int) =~= key);
    assert(tail.skip(key.len() as int) =~= between + value);
    text::lemma_leading_white(between, value);
    assert(value[0] == '=');
    assert(text::trim_start(value) == value);
    assert(value.take(1) =~= "="@);
}

} // verus!
