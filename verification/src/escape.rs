//! Text inside other languages: the shell's, the scripting host's and XML.
use vstd::prelude::*;
use vstd::string::StringExecFns;

use crate::text::chars_of;

verus! {

/// A character inside single quotes of the shell.
pub open spec fn in_quotes(c: char) -> Seq<char> {
    if c == '\'' {
        "'\\''"@
    } else {
        seq![c]
    }
}

/// Each character of a text inside single quotes.
pub open spec fn all_in_quotes(s: Seq<char>) -> Seq<char>
    decreases s.len(),
{
    if s.len() == 0 {
        seq![]
    } else {
        in_quotes(s[0]) + all_in_quotes(s.drop_first())
    }
}

/// A text as one word of the shell.
pub open spec fn shell_word(s: Seq<char>) -> Seq<char> {
    "'"@ + all_in_quotes(s) + "'"@
}

/// How the shell reads a word: single quotes keep everything between them, and
/// outside them a backslash keeps the character after it.
pub open spec fn shell_reads(s: Seq<char>, quoted: bool) -> Seq<char>
    decreases s.len(),
{
    if s.len() == 0 {
        seq![]
    } else if s[0] == '\'' {
        shell_reads(s.drop_first(), !quoted)
    } else if !quoted && s[0] == '\\' && s.len() > 1 {
        seq![s[1]] + shell_reads(s.skip(2), quoted)
    } else {
        seq![s[0]] + shell_reads(s.drop_first(), quoted)
    }
}

/// Writes a text as one word of the shell.
pub fn shell_quote(value: &str) -> (r: String)
    ensures
        r@ == shell_word(value@),
{
    let v = chars_of(value);
    let mut r = "'".to_owned();
    let mut i: usize = 0;
    assert(v@.skip(0) =~= v@);
    while i < v.len()
        invariant
            i <= v@.len(),
            r@ + all_in_quotes(v@.skip(i as int)) == "'"@ + all_in_quotes(v@),
        decreases v@.len() - i,
    {
        let ghost before = r@;
        assert(v@.skip(i as int).drop_first() =~= v@.skip(i + 1));
        if v[i] == '\'' {
            r.append("'\\''");
        } else {
            r.push(v[i]);
        }
        assert(r@ =~= before + in_quotes(v@[i as int]));
        assert(r@ + all_in_quotes(v@.skip(i + 1)) =~= before + all_in_quotes(v@.skip(i as int)));
        i = i + 1;
    }
    assert(v@.skip(i as int).len() == 0);
    assert(r@ =~= "'"@ + all_in_quotes(v@));
    r.append("'");
    r
}

proof fn lemma_shell_reads_quoted(s: Seq<char>, rest: Seq<char>)
    ensures
        shell_reads(all_in_quotes(s) + rest, true) == s + shell_reads(rest, true),
    decreases s.len(),
{
    if s.len() == 0 {
        assert(all_in_quotes(s) + rest =~= rest);
        assert(s + shell_reads(rest, true) =~= shell_reads(rest, true));
    } else {
        let tail = all_in_quotes(s.drop_first()) + rest;
        lemma_shell_reads_quoted(s.drop_first(), rest);
        let all = all_in_quotes(s) + rest;
        assert(all =~= in_quotes(s[0]) + tail);
        if s[0] == '\'' {
            reveal_strlit("'\\''");
            let one = all.drop_first();
            assert(one =~= seq!['\\', '\'', '\''] + tail);
            assert(shell_reads(all, true) == shell_reads(one, false));
            assert(one.skip(2) =~= seq!['\''] + tail);
            assert(shell_reads(one, false) == seq!['\''] + shell_reads(one.skip(2), false));
            assert(one.skip(2).drop_first() =~= tail);
            assert(shell_reads(one.skip(2), false) == shell_reads(tail, true));
        } else {
            assert(all.drop_first() =~= tail);
        }
        assert(seq![s[0]] + (s.drop_first() + shell_reads(rest, true)) =~= s + shell_reads(rest, true));
    }
}

/// The shell reads a quoted text as the text, whatever is in it.
pub proof fn shell_reads_back(s: Seq<char>)
    ensures
        shell_reads(shell_word(s), false) == s,
{
    reveal_strlit("'");
    let word = shell_word(s);
    let inside = all_in_quotes(s) + seq!['\''];
    assert(word.drop_first() =~= inside);
    lemma_shell_reads_quoted(s, seq!['\'']);
    assert(seq!['\''].drop_first() =~= Seq::<char>::empty());
    assert(shell_reads(Seq::<char>::empty(), false) =~= Seq::<char>::empty());
    assert(shell_reads(seq!['\''], true) =~= Seq::<char>::empty());
    assert(s + Seq::<char>::empty() =~= s);
}

/// A character inside a string of the scripting host.
pub open spec fn in_string(c: char) -> Seq<char> {
    if c == '\\' {
        "\\\\"@
    } else if c == '"' {
        "\\\""@
    } else {
        seq![c]
    }
}

/// Each character of a text inside a string of the scripting host.
pub open spec fn all_in_string(s: Seq<char>) -> Seq<char>
    decreases s.len(),
{
    if s.len() == 0 {
        seq![]
    } else {
        in_string(s[0]) + all_in_string(s.drop_first())
    }
}

/// A text as a string of the scripting host.
pub open spec fn script_string(s: Seq<char>) -> Seq<char> {
    "\""@ + all_in_string(s) + "\""@
}

/// How the scripting host reads a string after its first quote: to the next
/// quote, with a backslash keeping the character after it. Nothing comes of a
/// string without an end, or with something after it.
pub open spec fn script_reads(s: Seq<char>) -> Option<Seq<char>>
    decreases s.len(),
{
    if s.len() == 0 {
        None
    } else if s[0] == '"' {
        if s.len() == 1 {
            Some(seq![])
        } else {
            None
        }
    } else if s[0] == '\\' {
        if s.len() == 1 {
            None
        } else {
            match script_reads(s.skip(2)) {
                Some(rest) => Some(seq![s[1]] + rest),
                None => None,
            }
        }
    } else {
        match script_reads(s.drop_first()) {
            Some(rest) => Some(seq![s[0]] + rest),
            None => None,
        }
    }
}

/// Writes a text as a string of the scripting host.
pub fn applescript_string(value: &str) -> (r: String)
    ensures
        r@ == script_string(value@),
{
    let v = chars_of(value);
    let mut r = "\"".to_owned();
    let mut i: usize = 0;
    assert(v@.skip(0) =~= v@);
    while i < v.len()
        invariant
            i <= v@.len(),
            r@ + all_in_string(v@.skip(i as int)) == "\""@ + all_in_string(v@),
        decreases v@.len() - i,
    {
        let ghost before = r@;
        assert(v@.skip(i as int).drop_first() =~= v@.skip(i + 1));
        if v[i] == '\\' {
            r.append("\\\\");
        } else if v[i] == '"' {
            r.append("\\\"");
        } else {
            r.push(v[i]);
        }
        assert(r@ =~= before + in_string(v@[i as int]));
        assert(r@ + all_in_string(v@.skip(i + 1)) =~= before + all_in_string(v@.skip(i as int)));
        i = i + 1;
    }
    assert(v@.skip(i as int).len() == 0);
    assert(r@ =~= "\""@ + all_in_string(v@));
    r.append("\"");
    r
}

proof fn lemma_script_reads(s: Seq<char>)
    ensures
        script_reads(all_in_string(s) + seq!['"']) == Some(s),
    decreases s.len(),
{
    let all = all_in_string(s) + seq!['"'];
    if s.len() == 0 {
        assert(all =~= seq!['"']);
        assert(s =~= Seq::<char>::empty());
    } else {
        let tail = all_in_string(s.drop_first()) + seq!['"'];
        lemma_script_reads(s.drop_first());
        assert(all =~= in_string(s[0]) + tail);
        reveal_strlit("\\\\");
        reveal_strlit("\\\"");
        if s[0] == '\\' || s[0] == '"' {
            assert(all.skip(2) =~= tail);
            assert(all[0] == '\\' && all[1] == s[0]);
        } else {
            assert(all.drop_first() =~= tail);
        }
        assert(seq![s[0]] + s.drop_first() =~= s);
    }
}

/// The scripting host reads a written string as the text, whatever is in it.
pub proof fn script_reads_back(s: Seq<char>)
    ensures
        script_string(s).len() > 0 && script_string(s)[0] == '"',
        script_reads(script_string(s).drop_first()) == Some(s),
{
    reveal_strlit("\"");
    assert(script_string(s).drop_first() =~= all_in_string(s) + seq!['"']);
    lemma_script_reads(s);
}

/// A character in the text of an XML document.
pub open spec fn in_xml(c: char) -> Seq<char> {
    if c == '&' {
        "&amp;"@
    } else if c == '<' {
        "&lt;"@
    } else if c == '>' {
        "&gt;"@
    } else if c == '"' {
        "&quot;"@
    } else if c == '\'' {
        "&apos;"@
    } else {
        seq![c]
    }
}

/// A text in an XML document.
pub open spec fn xml_text(s: Seq<char>) -> Seq<char>
    decreases s.len(),
{
    if s.len() == 0 {
        seq![]
    } else {
        in_xml(s[0]) + xml_text(s.drop_first())
    }
}

/// Writes a text for an XML document.
pub fn xml_escape(value: &str) -> (r: String)
    ensures
        r@ == xml_text(value@),
{
    let v = chars_of(value);
    let mut r = String::new();
    let mut i: usize = 0;
    assert(v@.skip(0) =~= v@);
    assert(r@ + xml_text(v@) =~= xml_text(v@));
    while i < v.len()
        invariant
            i <= v@.len(),
            r@ + xml_text(v@.skip(i as int)) == xml_text(v@),
        decreases v@.len() - i,
    {
        let ghost before = r@;
        assert(v@.skip(i as int).drop_first() =~= v@.skip(i + 1));
        let c: char = v[i];
        if c == '&' {
            r.append("&amp;");
        } else if c == '<' {
            r.append("&lt;");
        } else if c == '>' {
            r.append("&gt;");
        } else if c == '"' {
            r.append("&quot;");
        } else if c == '\'' {
            r.append("&apos;");
        } else {
            r.push(c);
        }
        assert(r@ =~= before + in_xml(c));
        assert(r@ + xml_text(v@.skip(i + 1)) =~= before + xml_text(v@.skip(i as int)));
        i = i + 1;
    }
    assert(v@.skip(i as int).len() == 0);
    assert(r@ =~= xml_text(v@));
    r
}

/// The character that a reference at the start of a text stands for, and the
/// length of the reference.
pub open spec fn xml_reference(s: Seq<char>) -> Option<(char, int)> {
    if s.len() >= 5 && s.take(5) == "&amp;"@ {
        Some(('&', 5))
    } else if s.len() >= 4 && s.take(4) == "&lt;"@ {
        Some(('<', 4))
    } else if s.len() >= 4 && s.take(4) == "&gt;"@ {
        Some(('>', 4))
    } else if s.len() >= 6 && s.take(6) == "&quot;"@ {
        Some(('"', 6))
    } else if s.len() >= 6 && s.take(6) == "&apos;"@ {
        Some(('\'', 6))
    } else {
        None
    }
}

/// How an XML reader reads a text: references stand for characters.
pub open spec fn xml_reads(s: Seq<char>) -> Seq<char>
    decreases s.len(),
{
    if s.len() == 0 {
        seq![]
    } else {
        match xml_reference(s) {
            Some((c, n)) => seq![c] + xml_reads(s.skip(n)),
            None => seq![s[0]] + xml_reads(s.drop_first()),
        }
    }
}

/// An XML reader reads an escaped text as the text, and meets no character that
/// would end the text or start something else.
pub proof fn xml_reads_back(s: Seq<char>)
    ensures
        xml_reads(xml_text(s)) == s,
        forall|i: int|
            0 <= i < xml_text(s).len() ==> {
                let c = #[trigger] xml_text(s)[i];
                c != '<' && c != '>' && c != '"' && c != '\''
            },
    decreases s.len(),
{
    if s.len() == 0 {
        assert(xml_reads(xml_text(s)) =~= s);
    } else {
        let tail = xml_text(s.drop_first());
        let head = in_xml(s[0]);
        let all = xml_text(s);
        xml_reads_back(s.drop_first());
        reveal_strlit("&amp;");
        reveal_strlit("&lt;");
        reveal_strlit("&gt;");
        reveal_strlit("&quot;");
        reveal_strlit("&apos;");
        assert(all.take(head.len() as int) =~= head);
        assert(all.skip(head.len() as int) =~= tail);
        assert(seq![s[0]] + s.drop_first() =~= s);
        if s[0] == '&' || s[0] == '<' || s[0] == '>' || s[0] == '"' || s[0] == '\'' {
            if all.len() >= 5 {
                assert(all.take(5)[1] == all[1] && all.take(5)[2] == all[2]);
            }
            if all.len() >= 6 {
                assert(all.take(6)[1] == all[1] && all.take(6)[2] == all[2]);
            }
            assert(all.take(4)[1] == all[1]);
            assert(forall|i: int| 0 <= i < head.len() ==> all[i] == #[trigger] head[i]);
            assert(head[1] == all[1] && head[2] == all[2]);
            assert(xml_reference(all) == Some((s[0], head.len() as int)));
        } else {
            assert(all[0] == s[0]);
            if all.len() >= 4 {
                assert(all.take(4)[0] == s[0]);
            }
            if all.len() >= 5 {
                assert(all.take(5)[0] == s[0]);
            }
            if all.len() >= 6 {
                assert(all.take(6)[0] == s[0]);
            }
            assert(xml_reference(all) is None);
            assert(all.drop_first() =~= tail);
        }
        assert forall|i: int| 0 <= i < all.len() implies {
            let c = #[trigger] all[i];
            c != '<' && c != '>' && c != '"' && c != '\''
        } by {
            if i >= head.len() {
                assert(all[i] == tail[i - head.len()]);
            }
        }
    }
}

proof fn lemma_in_quotes(s: Seq<char>, rest: Seq<char>)
    requires
        forall|i: int| 0 <= i < s.len() ==> #[trigger] s[i] != '\'',
    ensures
        all_in_quotes(s + rest) == s + all_in_quotes(rest),
    decreases s.len(),
{
    if s.len() == 0 {
        assert(s + rest =~= rest);
        assert(s + all_in_quotes(rest) =~= all_in_quotes(rest));
    } else {
        let less = s.drop_first();
        assert forall|i: int| 0 <= i < less.len() implies #[trigger] less[i] != '\'' by {
            assert(less[i] == s[i + 1]);
        }
        lemma_in_quotes(less, rest);
        assert((s + rest)[0] == s[0]);
        assert((s + rest).drop_first() =~= less + rest);
        assert(seq![s[0]] + (less + all_in_quotes(rest)) =~= s + all_in_quotes(rest));
    }
}

/// A word of the shell stands in single quotes as a whole. What has no quote in it
/// stands there as it is; a quote ends the quotes, stands for itself, and starts
/// them again.
pub proof fn words_stand_in_quotes(s: Seq<char>, rest: Seq<char>)
    requires
        forall|i: int| 0 <= i < s.len() ==> #[trigger] s[i] != '\'',
    ensures
        shell_word(s) == seq!['\''] + s + seq!['\''],
        shell_word(s + seq!['\''] + rest) == seq!['\''] + s + seq!['\'', '\\', '\'', '\''] + shell_word(rest).skip(1),
{
    reveal_strlit("'");
    reveal_strlit("'\\''");
    let nothing = Seq::<char>::empty();
    lemma_in_quotes(s, nothing);
    assert(s + nothing =~= s);
    assert(all_in_quotes(nothing) =~= nothing);
    assert(shell_word(s) =~= seq!['\''] + s + seq!['\'']);
    let behind = seq!['\''] + rest;
    lemma_in_quotes(s, behind);
    assert(s + seq!['\''] + rest =~= s + behind);
    assert(behind.drop_first() =~= rest);
    assert(all_in_quotes(behind) =~= seq!['\'', '\\', '\'', '\''] + all_in_quotes(rest));
    assert(shell_word(rest).skip(1) =~= all_in_quotes(rest) + seq!['\'']);
    assert(shell_word(s + seq!['\''] + rest) =~= seq!['\''] + s + seq!['\'', '\\', '\'', '\''] + shell_word(rest).skip(1));
}

proof fn lemma_in_string(s: Seq<char>, rest: Seq<char>)
    requires
        forall|i: int| 0 <= i < s.len() ==> #[trigger] s[i] != '"' && s[i] != '\\',
    ensures
        all_in_string(s + rest) == s + all_in_string(rest),
    decreases s.len(),
{
    if s.len() == 0 {
        assert(s + rest =~= rest);
        assert(s + all_in_string(rest) =~= all_in_string(rest));
    } else {
        let less = s.drop_first();
        assert forall|i: int| 0 <= i < less.len() implies #[trigger] less[i] != '"' && less[i] != '\\' by {
            assert(less[i] == s[i + 1]);
        }
        lemma_in_string(less, rest);
        assert(s[0] != '"' && s[0] != '\\');
        assert((s + rest)[0] == s[0]);
        assert((s + rest).drop_first() =~= less + rest);
        assert(seq![s[0]] + (less + all_in_string(rest)) =~= s + all_in_string(rest));
    }
}

/// A string of the scripting host stands in double quotes as a whole. A quote, or
/// a backslash, in it has a backslash before it; everything else stands as it is.
pub proof fn strings_stand_in_quotes(s: Seq<char>, c: char, rest: Seq<char>)
    requires
        forall|i: int| 0 <= i < s.len() ==> #[trigger] s[i] != '"' && s[i] != '\\',
        c == '"' || c == '\\',
    ensures
        script_string(s) == seq!['"'] + s + seq!['"'],
        script_string(s + seq![c] + rest) == seq!['"'] + s + seq!['\\', c] + script_string(rest).skip(1),
{
    reveal_strlit("\"");
    reveal_strlit("\\\\");
    reveal_strlit("\\\"");
    let nothing = Seq::<char>::empty();
    lemma_in_string(s, nothing);
    assert(s + nothing =~= s);
    assert(all_in_string(nothing) =~= nothing);
    assert(script_string(s) =~= seq!['"'] + s + seq!['"']);
    let behind = seq![c] + rest;
    lemma_in_string(s, behind);
    assert(s + seq![c] + rest =~= s + behind);
    assert(behind.drop_first() =~= rest);
    assert(all_in_string(behind) =~= seq!['\\', c] + all_in_string(rest));
    assert(script_string(rest).skip(1) =~= all_in_string(rest) + seq!['"']);
    assert(script_string(s + seq![c] + rest) =~= seq!['"'] + s + seq!['\\', c] + script_string(rest).skip(1));
}

/// In an XML document the five characters with a meaning of their own are written
/// as references; every other stands for itself. Characters are written one by one.
pub proof fn marks_are_referred_to(c: char, rest: Seq<char>)
    ensures
        xml_text(Seq::<char>::empty()).len() == 0,
        c == '&' ==> xml_text(seq![c] + rest) == seq!['&', 'a', 'm', 'p', ';'] + xml_text(rest),
        c == '<' ==> xml_text(seq![c] + rest) == seq!['&', 'l', 't', ';'] + xml_text(rest),
        c == '>' ==> xml_text(seq![c] + rest) == seq!['&', 'g', 't', ';'] + xml_text(rest),
        c == '"' ==> xml_text(seq![c] + rest) == seq!['&', 'q', 'u', 'o', 't', ';'] + xml_text(rest),
        c == '\'' ==> xml_text(seq![c] + rest) == seq!['&', 'a', 'p', 'o', 's', ';'] + xml_text(rest),
        c != '&' && c != '<' && c != '>' && c != '"' && c != '\'' ==> xml_text(seq![c] + rest) == seq![c] + xml_text(rest),
{
    reveal_strlit("&amp;");
    reveal_strlit("&lt;");
    reveal_strlit("&gt;");
    reveal_strlit("&quot;");
    reveal_strlit("&apos;");
    assert((seq![c] + rest).drop_first() =~= rest);
    assert((seq![c] + rest)[0] == c);
    assert("&amp;"@ =~= seq!['&', 'a', 'm', 'p', ';']);
    assert("&lt;"@ =~= seq!['&', 'l', 't', ';']);
    assert("&gt;"@ =~= seq!['&', 'g', 't', ';']);
    assert("&quot;"@ =~= seq!['&', 'q', 'u', 'o', 't', ';']);
    assert("&apos;"@ =~= seq!['&', 'a', 'p', 'o', 's', ';']);
}

} // verus!
