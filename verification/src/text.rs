//! Text as sequences of characters: white space, lines, words and searches.
//!
//! Executable functions work on slices of `char`; the specifications speak of
//! `Seq<char>`, which is also what the view of a `str` or a `String` is.
use vstd::prelude::*;
use vstd::slice::slice_subrange;

verus! {

/// `String::push` appends one character to the end of the string.
pub assume_specification[ String::push ](s: &mut String, c: char)
    ensures
        final(s)@ == old(s)@.push(c),
;

/// The characters with the Unicode `White_Space` property.
pub open spec fn is_white(c: char) -> bool {
    ||| '\u{9}' <= c <= '\u{d}'
    ||| c == '\u{20}'
    ||| c == '\u{85}'
    ||| c == '\u{a0}'
    ||| c == '\u{1680}'
    ||| '\u{2000}' <= c <= '\u{200a}'
    ||| c == '\u{2028}'
    ||| c == '\u{2029}'
    ||| c == '\u{202f}'
    ||| c == '\u{205f}'
    ||| c == '\u{3000}'
}

/// Whether a character is white space.
pub fn is_whitespace(c: char) -> (r: bool)
    ensures
        r == is_white(c),
{
    ('\u{9}' <= c && c <= '\u{d}') || c == '\u{20}' || c == '\u{85}' || c == '\u{a0}' || c
        == '\u{1680}' || ('\u{2000}' <= c && c <= '\u{200a}') || c == '\u{2028}' || c == '\u{2029}'
        || c == '\u{202f}' || c == '\u{205f}' || c == '\u{3000}'
}

/// The characters of a string.
pub fn chars_of(s: &str) -> (v: Vec<char>)
    ensures
        v@ == s@,
{
    let mut v: Vec<char> = Vec::new();
    for c in iter: s.chars()
        invariant
            v@.len() == iter.index(),
            iter.seq() == s@,
            forall|i: int| 0 <= i < v@.len() ==> v@[i] == iter.seq()[i],
    {
        v.push(c);
    }
    assert(v@ =~= s@);
    v
}

/// The string made of some characters.
pub fn string_of(v: &[char]) -> (s: String)
    ensures
        s@ == v@,
{
    let mut s = String::new();
    let mut i: usize = 0;
    while i < v.len()
        invariant
            i <= v@.len(),
            s@ =~= v@.take(i as int),
        decreases v@.len() - i,
    {
        s.push(v[i]);
        i = i + 1;
    }
    assert(v@.take(i as int) =~= v@);
    s
}

/// Whether some characters spell a string.
pub fn text_eq(v: &[char], s: &str) -> (r: bool)
    ensures
        r == (v@ == s@),
{
    let w = chars_of(s);
    chars_eq(v, w.as_slice())
}

/// Whether two runs of characters are the same.
pub fn chars_eq(v: &[char], w: &[char]) -> (r: bool)
    ensures
        r == (v@ == w@),
{
    if v.len() != w.len() {
        return false;
    }
    let mut i: usize = 0;
    while i < v.len()
        invariant
            i <= v@.len(),
            v@.len() == w@.len(),
            forall|j: int| 0 <= j < i ==> v@[j] == w@[j],
        decreases v@.len() - i,
    {
        if v[i] != w[i] {
            return false;
        }
        i = i + 1;
    }
    assert(v@ =~= w@);
    true
}

/// Whether two strings are the same.
pub fn str_eq(a: &str, b: &str) -> (r: bool)
    ensures
        r == (a@ == b@),
{
    let v = chars_of(a);
    text_eq(v.as_slice(), b)
}

/// `s` without its leading white space.
pub open spec fn trim_start(s: Seq<char>) -> Seq<char>
    decreases s.len(),
{
    if s.len() > 0 && is_white(s[0]) {
        trim_start(s.drop_first())
    } else {
        s
    }
}

/// `s` without its trailing white space.
pub open spec fn trim_end(s: Seq<char>) -> Seq<char>
    decreases s.len(),
{
    if s.len() > 0 && is_white(s.last()) {
        trim_end(s.drop_last())
    } else {
        s
    }
}

/// `s` without the white space at either end.
pub open spec fn trim(s: Seq<char>) -> Seq<char> {
    trim_end(trim_start(s))
}

/// Drops the leading white space.
pub fn trimmed_start<'a>(v: &'a [char]) -> (r: &'a [char])
    ensures
        r@ == trim_start(v@),
{
    let mut i: usize = 0;
    assert(v@.skip(0) =~= v@);
    while i < v.len() && is_whitespace(v[i])
        invariant
            i <= v@.len(),
            trim_start(v@) == trim_start(v@.skip(i as int)),
        decreases v@.len() - i,
    {
        assert(v@.skip(i as int).drop_first() =~= v@.skip(i + 1));
        i = i + 1;
    }
    assert(v@.subrange(i as int, v@.len() as int) =~= v@.skip(i as int));
    slice_subrange(v, i, v.len())
}

/// Drops the trailing white space.
pub fn trimmed_end<'a>(v: &'a [char]) -> (r: &'a [char])
    ensures
        r@ == trim_end(v@),
{
    let mut n: usize = v.len();
    assert(v@.take(n as int) =~= v@);
    while n > 0 && is_whitespace(v[n - 1])
        invariant
            n <= v@.len(),
            trim_end(v@) == trim_end(v@.take(n as int)),
        decreases n,
    {
        assert(v@.take(n as int).drop_last() =~= v@.take(n - 1));
        n = n - 1;
    }
    assert(v@.subrange(0, n as int) =~= v@.take(n as int));
    slice_subrange(v, 0, n)
}

/// Drops the white space at either end.
pub fn trimmed<'a>(v: &'a [char]) -> (r: &'a [char])
    ensures
        r@ == trim(v@),
{
    trimmed_end(trimmed_start(v))
}

/// How many characters stand before the first `c`; all of them where there is no `c`.
pub open spec fn until(s: Seq<char>, c: char) -> nat
    decreases s.len(),
{
    if s.len() == 0 || s[0] == c {
        0
    } else {
        1 + until(s.drop_first(), c)
    }
}

/// `until` points at the first `c`, or at the end.
pub proof fn lemma_until(s: Seq<char>, c: char)
    ensures
        until(s, c) <= s.len(),
        until(s, c) < s.len() ==> s[until(s, c) as int] == c,
        forall|i: int| 0 <= i < until(s, c) ==> s[i] != c,
    decreases s.len(),
{
    if s.len() > 0 && s[0] != c {
        lemma_until(s.drop_first(), c);
        assert forall|i: int| 0 <= i < until(s, c) implies s[i] != c by {
            if i > 0 {
                assert(s[i] == s.drop_first()[i - 1]);
            }
        }
    }
}

/// The first index that holds `c` is what `until` counts.
pub proof fn lemma_until_is(s: Seq<char>, c: char, n: nat)
    requires
        n <= s.len(),
        n < s.len() ==> s[n as int] == c,
        forall|i: int| 0 <= i < n ==> s[i] != c,
    ensures
        until(s, c) == n,
{
    lemma_until(s, c);
    if until(s, c) < n {
        assert(s[until(s, c) as int] != c);
    } else if n < until(s, c) {
        assert(s[n as int] != c);
    }
}

/// Counts the characters before the first `c`.
pub fn count_until(v: &[char], c: char) -> (n: usize)
    ensures
        n == until(v@, c),
        n <= v@.len(),
{
    let mut i: usize = 0;
    while i < v.len() && v[i] != c
        invariant
            i <= v@.len(),
            forall|j: int| 0 <= j < i ==> v@[j] != c,
        decreases v@.len() - i,
    {
        i = i + 1;
    }
    proof {
        lemma_until_is(v@, c, i as nat);
    }
    i
}

/// `s` without one trailing carriage return.
pub open spec fn strip_cr(s: Seq<char>) -> Seq<char> {
    if s.len() > 0 && s.last() == '\r' {
        s.drop_last()
    } else {
        s
    }
}

/// The lines of a text. A line ends with a line feed, which may follow a
/// carriage return; neither belongs to the line. The last line may lack its end.
pub open spec fn lines(s: Seq<char>) -> Seq<Seq<char>>
    decreases s.len(),
    via lines_decreases
{
    if s.len() == 0 {
        seq![]
    } else if until(s, '\n') < s.len() {
        seq![strip_cr(s.take(until(s, '\n') as int))] + lines(s.skip(until(s, '\n') as int + 1))
    } else {
        seq![s]
    }
}

#[via_fn]
proof fn lines_decreases(s: Seq<char>) {
    lemma_until(s, '\n');
}

/// What the elements of a vector of slices hold.
pub open spec fn views(v: Seq<&[char]>) -> Seq<Seq<char>> {
    v.map_values(|x: &[char]| x@)
}

/// Splits a text into its lines.
pub fn lines_of<'a>(v: &'a [char]) -> (r: Vec<&'a [char]>)
    ensures
        views(r@) == lines(v@),
{
    let mut r: Vec<&'a [char]> = Vec::new();
    let mut i: usize = 0;
    assert(v@.skip(0) =~= v@);
    assert(views(r@) + lines(v@) =~= lines(v@));
    while i < v.len()
        invariant
            i <= v@.len(),
            views(r@) + lines(v@.skip(i as int)) == lines(v@),
        decreases v@.len() - i,
    {
        let ghost before = views(r@);
        let rest = slice_subrange(v, i, v.len());
        assert(rest@ =~= v@.skip(i as int));
        let n: usize = count_until(rest, '\n');
        if n < rest.len() {
            let mut end: usize = n;
            if n > 0 && rest[n - 1] == '\r' {
                end = n - 1;
            }
            let line = slice_subrange(rest, 0, end);
            assert(line@ =~= strip_cr(rest@.take(n as int)));
            r.push(line);
            assert(views(r@) =~= before.push(line@));
            assert(rest@.skip(n + 1) =~= v@.skip(i + n + 1));
            assert(views(r@) + lines(v@.skip(i + n + 1)) =~= before + lines(rest@));
            i = i + n + 1;
        } else {
            r.push(rest);
            assert(views(r@) =~= before.push(rest@));
            assert(v@.skip(v@.len() as int) =~= Seq::<char>::empty());
            assert(views(r@) + lines(v@.skip(v@.len() as int)) =~= before + lines(rest@));
            i = v.len();
        }
    }
    assert(v@.skip(i as int) =~= Seq::<char>::empty());
    assert(views(r@) =~= lines(v@));
    r
}

/// The length of the run of non-white characters at the start.
pub open spec fn word_len(s: Seq<char>) -> nat
    decreases s.len(),
{
    if s.len() == 0 || is_white(s[0]) {
        0
    } else {
        1 + word_len(s.drop_first())
    }
}

pub proof fn lemma_word_len(s: Seq<char>)
    ensures
        word_len(s) <= s.len(),
        word_len(s) < s.len() ==> is_white(s[word_len(s) as int]),
        forall|i: int| 0 <= i < word_len(s) ==> !is_white(s[i]),
    decreases s.len(),
{
    if s.len() > 0 && !is_white(s[0]) {
        lemma_word_len(s.drop_first());
        assert forall|i: int| 0 <= i < word_len(s) implies !is_white(s[i]) by {
            if i > 0 {
                assert(s[i] == s.drop_first()[i - 1]);
            }
        }
    }
}

/// Counts the characters before the first white one.
pub fn count_word(v: &[char]) -> (n: usize)
    ensures
        n == word_len(v@),
        n <= v@.len(),
{
    let mut i: usize = 0;
    while i < v.len() && !is_whitespace(v[i])
        invariant
            i <= v@.len(),
            forall|j: int| 0 <= j < i ==> !is_white(v@[j]),
        decreases v@.len() - i,
    {
        i = i + 1;
    }
    proof {
        lemma_word_len(v@);
        if word_len(v@) < i {
            assert(!is_white(v@[word_len(v@) as int]));
        } else if i < word_len(v@) {
            assert(!is_white(v@[i as int]));
        }
    }
    i
}

pub proof fn lemma_trim_start(s: Seq<char>)
    ensures
        trim_start(s).len() <= s.len(),
        trim_start(s) == s.skip(s.len() - trim_start(s).len()),
        trim_start(s).len() > 0 ==> !is_white(trim_start(s)[0]),
    decreases s.len(),
{
    if s.len() > 0 && is_white(s[0]) {
        lemma_trim_start(s.drop_first());
        assert(s.drop_first().skip(s.drop_first().len() - trim_start(s).len()) =~= s.skip(
            s.len() - trim_start(s).len(),
        ));
    } else {
        assert(s.skip(0) =~= s);
    }
}

/// The words of a text: its maximal runs of non-white characters, in order.
pub open spec fn words(s: Seq<char>) -> Seq<Seq<char>>
    decreases s.len(),
    via words_decreases
{
    let t = trim_start(s);
    if t.len() == 0 {
        seq![]
    } else {
        seq![t.take(word_len(t) as int)] + words(t.skip(word_len(t) as int))
    }
}

#[via_fn]
proof fn words_decreases(s: Seq<char>) {
    lemma_trim_start(s);
    lemma_word_len(trim_start(s));
}

/// Splits a text into its words.
pub fn words_of<'a>(v: &'a [char]) -> (r: Vec<&'a [char]>)
    ensures
        views(r@) == words(v@),
{
    let mut r: Vec<&'a [char]> = Vec::new();
    let mut rest = trimmed_start(v);
    proof {
        lemma_trim_start(v@);
        lemma_trim_start(rest@);
        assert(trim_start(rest@) == rest@);
        assert(views(r@) + words(rest@) =~= words(v@));
    }
    while rest.len() > 0
        invariant
            trim_start(rest@) == rest@,
            rest@.len() > 0 ==> !is_white(rest@[0]),
            views(r@) + words(rest@) == words(v@),
        decreases rest@.len(),
    {
        let ghost before = views(r@);
        let ghost whole = rest@;
        let n: usize = count_word(rest);
        let word = slice_subrange(rest, 0, n);
        let tail = slice_subrange(rest, n, rest.len());
        r.push(word);
        rest = trimmed_start(tail);
        proof {
            assert(word@ =~= whole.take(n as int));
            assert(tail@ =~= whole.skip(n as int));
            lemma_trim_start(tail@);
            lemma_trim_start(rest@);
            assert(trim_start(rest@) == rest@);
            assert(words(tail@) == words(rest@));
            assert(views(r@) =~= before.push(word@));
            assert(views(r@) + words(rest@) =~= before + words(whole));
            assert(n > 0);
        }
    }
    assert(words(rest@) =~= Seq::<Seq<char>>::empty());
    assert(views(r@) =~= words(v@));
    r
}

/// `s` begins with `p`.
pub open spec fn starts_with(s: Seq<char>, p: Seq<char>) -> bool {
    p.len() <= s.len() && s.take(p.len() as int) == p
}

/// `s` ends with `p`.
pub open spec fn ends_with(s: Seq<char>, p: Seq<char>) -> bool {
    p.len() <= s.len() && s.skip(s.len() - p.len()) == p
}

/// `p` occurs in `s` at index `i`.
pub open spec fn occurs_at(s: Seq<char>, p: Seq<char>, i: int) -> bool {
    0 <= i && i + p.len() <= s.len() && s.subrange(i, i + p.len()) == p
}

/// `p` occurs in `s`.
pub open spec fn contains(s: Seq<char>, p: Seq<char>) -> bool {
    exists|i: int| occurs_at(s, p, i)
}

/// Whether `v` begins with `p`.
pub fn has_prefix(v: &[char], p: &[char]) -> (r: bool)
    ensures
        r == starts_with(v@, p@),
{
    if p.len() > v.len() {
        return false;
    }
    let head = slice_subrange(v, 0, p.len());
    assert(head@ =~= v@.take(p@.len() as int));
    chars_eq(head, p)
}

/// Whether `v` ends with `p`.
pub fn has_suffix(v: &[char], p: &[char]) -> (r: bool)
    ensures
        r == ends_with(v@, p@),
{
    if p.len() > v.len() {
        return false;
    }
    let tail = slice_subrange(v, v.len() - p.len(), v.len());
    assert(tail@ =~= v@.skip(v@.len() - p@.len()));
    chars_eq(tail, p)
}

/// Whether `p` occurs in `v`.
pub fn has_text(v: &[char], p: &[char]) -> (r: bool)
    ensures
        r == contains(v@, p@),
{
    if p.len() > v.len() {
        return false;
    }
    let total: usize = v.len();
    let last: usize = total - p.len();
    let mut i: usize = 0;
    while i <= last
        invariant
            total == v@.len(),
            p@.len() <= v@.len(),
            last == v@.len() - p@.len(),
            i <= last + 1,
            forall|j: int| 0 <= j < i ==> !occurs_at(v@, p@, j),
        decreases last + 1 - i,
    {
        let part = slice_subrange(v, i, i + p.len());
        if chars_eq(part, p) {
            assert(occurs_at(v@, p@, i as int));
            return true;
        }
        if i == last {
            assert forall|j: int| !occurs_at(v@, p@, j) by {}
            return false;
        }
        i = i + 1;
    }
    false
}

/// Whether a string occurs in `v`.
pub fn has_str(v: &[char], p: &str) -> (r: bool)
    ensures
        r == contains(v@, p@),
{
    let w = chars_of(p);
    has_text(v, w.as_slice())
}

/// Whether `v` begins with a string.
pub fn has_str_prefix(v: &[char], p: &str) -> (r: bool)
    ensures
        r == starts_with(v@, p@),
{
    let w = chars_of(p);
    has_prefix(v, w.as_slice())
}

/// Whether `v` ends with a string.
pub fn has_str_suffix(v: &[char], p: &str) -> (r: bool)
    ensures
        r == ends_with(v@, p@),
{
    let w = chars_of(p);
    has_suffix(v, w.as_slice())
}

/// A boolean as text.
pub open spec fn bool_text(b: bool) -> Seq<char> {
    if b {
        "true"@
    } else {
        "false"@
    }
}

pub fn bool_word(b: bool) -> (s: &'static str)
    ensures
        s@ == bool_text(b),
{
    if b {
        "true"
    } else {
        "false"
    }
}

/// Cutting a line off the front: a line feed ends the first line, and the rest
/// is split on its own.
pub proof fn lemma_lines_cons(line: Seq<char>, rest: Seq<char>)
    requires
        forall|i: int| 0 <= i < line.len() ==> line[i] != '\n',
    ensures
        lines(line + seq!['\n'] + rest) == seq![strip_cr(line)] + lines(rest),
{
    let s = line + seq!['\n'] + rest;
    lemma_until_is(s, '\n', line.len());
    assert(s.take(line.len() as int) =~= line);
    assert(s.skip(line.len() as int + 1) =~= rest);
}

/// Appends characters to a string.
pub fn push_chars(s: &mut String, v: &[char])
    ensures
        final(s)@ == old(s)@ + v@,
{
    let ghost start = s@;
    let mut i: usize = 0;
    while i < v.len()
        invariant
            i <= v@.len(),
            s@ =~= start + v@.take(i as int),
        decreases v@.len() - i,
    {
        s.push(v[i]);
        i = i + 1;
    }
    assert(v@.take(i as int) =~= v@);
}

/// Cutting the white space off a text leaves what stands between: something that
/// neither starts nor ends with white space.
pub proof fn white_ends_are_cut(before: Seq<char>, inner: Seq<char>, after: Seq<char>)
    requires
        forall|i: int| 0 <= i < before.len() ==> is_white(#[trigger] before[i]),
        forall|i: int| 0 <= i < after.len() ==> is_white(#[trigger] after[i]),
        inner.len() > 0,
        !is_white(inner[0]),
        !is_white(inner.last()),
    ensures
        trim(before + inner + after) == inner,
        trim_start(before + inner + after) == inner + after,
        trim_end(before + inner + after) == before + inner,
{
    lemma_leading_white(before, inner + after);
    assert(before + inner + after =~= before + (inner + after));
    lemma_white_end(inner, after);
    lemma_white_end(before + inner, after);
}

/// White space without anything else is cut off as a whole.
pub proof fn white_text_is_cut(s: Seq<char>)
    requires
        forall|i: int| 0 <= i < s.len() ==> is_white(#[trigger] s[i]),
    ensures
        trim(s).len() == 0,
        trim_start(s).len() == 0,
        words(s).len() == 0,
    decreases s.len(),
{
    if s.len() > 0 {
        assert forall|i: int| 0 <= i < s.drop_first().len() implies is_white(#[trigger] s.drop_first()[i]) by {
            assert(s.drop_first()[i] == s[i + 1]);
        }
        white_text_is_cut(s.drop_first());
    }
}

/// White space before something else is cut off.
pub proof fn lemma_leading_white(before: Seq<char>, rest: Seq<char>)
    requires
        forall|i: int| 0 <= i < before.len() ==> is_white(#[trigger] before[i]),
        rest.len() > 0 ==> !is_white(rest[0]),
    ensures
        trim_start(before + rest) == rest,
    decreases before.len(),
{
    if before.len() > 0 {
        let shorter = before.drop_first();
        assert forall|i: int| 0 <= i < shorter.len() implies is_white(#[trigger] shorter[i]) by {
            assert(shorter[i] == before[i + 1]);
        }
        lemma_leading_white(shorter, rest);
        assert((before + rest).drop_first() =~= shorter + rest);
        assert(is_white(before[0]));
    } else {
        assert(before + rest =~= rest);
    }
}

proof fn lemma_white_end(rest: Seq<char>, after: Seq<char>)
    requires
        forall|i: int| 0 <= i < after.len() ==> is_white(#[trigger] after[i]),
        rest.len() > 0 ==> !is_white(rest.last()),
    ensures
        trim_end(rest + after) == rest,
    decreases after.len(),
{
    if after.len() > 0 {
        let shorter = after.drop_last();
        assert forall|i: int| 0 <= i < shorter.len() implies is_white(#[trigger] shorter[i]) by {
            assert(shorter[i] == after[i]);
        }
        lemma_white_end(rest, shorter);
        assert((rest + after).drop_last() =~= rest + shorter);
        assert(is_white(after[after.len() - 1]));
    } else {
        assert(rest + after =~= rest);
    }
}

/// Blanks, tabs and line ends are white; what can be seen is not.
pub proof fn seen_characters_are_not_white(c: char)
    ensures
        is_white(' '),
        is_white('\t'),
        is_white('\n'),
        is_white('\r'),
        '!' <= c <= '~' ==> !is_white(c),
{
}

/// A text is contained in every text that has it in its midst, and in no other;
/// it is at the start, or the end, of every text that it starts, or ends.
pub proof fn parts_are_contained(before: Seq<char>, part: Seq<char>, after: Seq<char>, s: Seq<char>)
    ensures
        contains(before + part + after, part),
        starts_with(part + after, part),
        ends_with(before + part, part),
        contains(s, part) <==> exists|i: int| 0 <= i <= s.len() - part.len() && (#[trigger] s.skip(i)).take(
            part.len() as int,
        ) == part,
        starts_with(s, part) <==> part.len() <= s.len() && forall|i: int| 0 <= i < part.len() ==> s[i] == part[i],
        ends_with(s, part) <==> part.len() <= s.len() && forall|i: int|
            0 <= i < part.len() ==> s[s.len() - part.len() + i] == part[i],
{
    let whole = before + part + after;
    assert(whole.subrange(before.len() as int, (before.len() + part.len()) as int) =~= part);
    assert(occurs_at(whole, part, before.len() as int));
    assert((part + after).take(part.len() as int) =~= part);
    assert((before + part).skip(before.len() as int) =~= part);
    if contains(s, part) {
        let i = choose|i: int| occurs_at(s, part, i);
        assert(s.skip(i).take(part.len() as int) =~= s.subrange(i, i + part.len()));
    }
    if exists|i: int| 0 <= i <= s.len() - part.len() && (#[trigger] s.skip(i)).take(part.len() as int) == part {
        let i = choose|i: int|
            0 <= i <= s.len() - part.len() && (#[trigger] s.skip(i)).take(part.len() as int) == part;
        assert(s.subrange(i, i + part.len()) =~= s.skip(i).take(part.len() as int));
        assert(occurs_at(s, part, i));
    }
    if part.len() <= s.len() {
        if forall|i: int| 0 <= i < part.len() ==> s[i] == part[i] {
            assert(s.take(part.len() as int) =~= part);
        }
        if starts_with(s, part) {
            assert forall|i: int| 0 <= i < part.len() implies s[i] == part[i] by {
                assert(s.take(part.len() as int)[i] == s[i]);
            }
        }
        let n = s.len() - part.len();
        if forall|i: int| 0 <= i < part.len() ==> s[n + i] == part[i] {
            assert(s.skip(n) =~= part);
        }
        if ends_with(s, part) {
            assert forall|i: int| 0 <= i < part.len() implies s[n + i] == part[i] by {
                assert(s.skip(n)[i] == s[n + i]);
            }
        }
    }
}

/// A text is its lines: what stands before a line feed is a line, without the
/// carriage return before it, and what follows is split on its own. What stands
/// after the last line feed is a line as it is.
pub proof fn line_feeds_end_lines(line: Seq<char>, rest: Seq<char>)
    requires
        forall|i: int| 0 <= i < line.len() ==> line[i] != '\n',
    ensures
        lines(line + seq!['\n'] + rest).len() == 1 + lines(rest).len(),
        forall|i: int|
            0 <= i < lines(rest).len() ==> #[trigger] lines(line + seq!['\n'] + rest)[i + 1] == lines(rest)[i],
        line.len() > 0 && line.last() == '\r' ==> lines(line + seq!['\n'] + rest)[0] == line.take(line.len() - 1),
        !(line.len() > 0 && line.last() == '\r') ==> lines(line + seq!['\n'] + rest)[0] == line,
        line.len() > 0 ==> lines(line) == seq![line],
        lines(Seq::<char>::empty()).len() == 0,
{
    lemma_lines_cons(line, rest);
    lemma_until_is(line, '\n', line.len());
    if line.len() > 0 {
        assert(line.drop_last() =~= line.take(line.len() - 1));
    }
    let all = lines(line + seq!['\n'] + rest);
    assert forall|i: int| 0 <= i < lines(rest).len() implies #[trigger] all[i + 1] == lines(rest)[i] by {}
}

/// A word at the start of a text is its first word, and the words of what follows
/// the white space after it come next; white space before a word does not matter.
pub proof fn white_space_parts_words(before: Seq<char>, word: Seq<char>, rest: Seq<char>)
    requires
        forall|i: int| 0 <= i < before.len() ==> is_white(#[trigger] before[i]),
        word.len() > 0,
        forall|i: int| 0 <= i < word.len() ==> !is_white(#[trigger] word[i]),
        rest.len() > 0 ==> is_white(rest[0]),
    ensures
        words(before + word + rest) == seq![word] + words(rest),
        word_len(word + rest) == word.len(),
{
    let t = word + rest;
    assert(t[0] == word[0] && !is_white(word[0]));
    lemma_leading_white(before, t);
    assert(before + word + rest =~= before + t);
    lemma_word_len(t);
    let n = word_len(t) as int;
    if n < word.len() {
        assert(is_white(t[n]));
        assert(t[n] == word[n]);
    } else if n > word.len() {
        assert(!is_white(t[word.len() as int]));
        assert(t[word.len() as int] == rest[0]);
    }
    assert(t.take(n) =~= word);
    assert(t.skip(n) =~= rest);
}

/// A carriage return at the end of a line is cut off with the white space.
pub proof fn lemma_trim_return(line: Seq<char>)
    ensures
        line.len() > 0 && line.last() == '\r' ==> trim(line.take(line.len() - 1)) == trim(line),
    decreases line.len(),
{
    if line.len() > 0 && line.last() == '\r' {
        let shorter = line.take(line.len() - 1);
        if shorter.len() > 0 && is_white(shorter[0]) {
            lemma_trim_return(line.drop_first());
            assert(line.drop_first().take(line.drop_first().len() - 1) =~= shorter.drop_first());
            assert(line.drop_first().last() == line.last());
        } else if shorter.len() > 0 {
            assert(line[0] == shorter[0]);
            assert(line.drop_last() =~= shorter);
        } else {
            assert(line.drop_first() =~= shorter);
        }
    }
}

/// A word behind white space is the last word.
pub proof fn last_word_comes_last(s: Seq<char>, word: Seq<char>)
    requires
        s.len() > 0 ==> is_white(s.last()),
        word.len() > 0,
        forall|i: int| 0 <= i < word.len() ==> !is_white(#[trigger] word[i]),
    ensures
        words(s + word) == words(s).push(word),
    decreases s.len(),
{
    let t = trim_start(s);
    lemma_trim_start(s);
    let nothing = Seq::<char>::empty();
    white_text_is_cut(nothing);
    assert(word + nothing =~= word);
    if t.len() == 0 {
        lemma_all_white(s);
        white_space_parts_words(s, word, nothing);
        assert(s + word + nothing =~= s + word);
        white_text_is_cut(s);
        assert(words(s + word) =~= words(s).push(word));
    } else {
        let k = s.len() - t.len();
        let n = word_len(t) as int;
        lemma_word_len(t);
        assert(t.last() == s.last());
        if n == t.len() {
            assert(!is_white(t[t.len() - 1]));
        }
        lemma_white_before(s, k);
        lemma_leading_white(s.take(k), t + word);
        assert(s.take(k) + (t + word) =~= s + word);
        let first = t.take(n);
        let rest = t.skip(n);
        assert forall|i: int| 0 <= i < first.len() implies !is_white(#[trigger] first[i]) by {
            assert(first[i] == t[i]);
        }
        assert(rest[0] == t[n]);
        assert((rest + word)[0] == t[n]);
        white_space_parts_words(s.take(k), first, rest + word);
        assert(s.take(k) + first + (rest + word) =~= s + word);
        assert(rest.last() == t.last());
        last_word_comes_last(rest, word);
        assert(words(s) == seq![first] + words(rest));
        assert(words(s + word) =~= words(s).push(word));
    }
}

/// What is cut off as white space is white.
proof fn lemma_white_before(s: Seq<char>, k: int)
    requires
        0 <= k <= s.len() - trim_start(s).len(),
    ensures
        forall|i: int| 0 <= i < k ==> is_white(#[trigger] s.take(k)[i]),
    decreases s.len(),
{
    if k > 0 {
        assert(s.len() > 0 && is_white(s[0]));
        lemma_white_before(s.drop_first(), k - 1);
        assert forall|i: int| 0 <= i < k implies is_white(#[trigger] s.take(k)[i]) by {
            if i > 0 {
                assert(s.drop_first().take(k - 1)[i - 1] == s.take(k)[i]);
            }
        }
    }
}

proof fn lemma_all_white(s: Seq<char>)
    requires
        trim_start(s).len() == 0,
    ensures
        forall|i: int| 0 <= i < s.len() ==> is_white(#[trigger] s[i]),
{
    lemma_white_before(s, s.len() as int);
    assert(s.take(s.len() as int) =~= s);
    assert forall|i: int| 0 <= i < s.len() implies is_white(#[trigger] s[i]) by {
        assert(is_white(s.take(s.len() as int)[i]));
    }
}

/// What is true is written "true", and what is not is written "false".
pub proof fn truth_is_written(b: bool)
    ensures
        bool_text(b) == "true"@ <==> b,
        bool_text(b) == "false"@ <==> !b,
{
    reveal_strlit("true");
    reveal_strlit("false");
    assert("true"@.len() != "false"@.len());
}

} // verus!
