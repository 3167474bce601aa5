//! Paths as text: names with slashes between them.
use vstd::prelude::*;
use vstd::slice::slice_subrange;
use vstd::string::StringExecFns;

use crate::text;
use crate::text::{chars_eq, chars_of, count_until, string_of};

verus! {

/// A name that leads nowhere: none at all, or the dot for the same place.
pub open spec fn is_idle(name: Seq<char>) -> bool {
    name.len() == 0 || (name.len() == 1 && name[0] == '.')
}

/// The names on a path, without those that lead nowhere.
pub open spec fn names(s: Seq<char>) -> Seq<Seq<char>>
    decreases s.len(),
    via names_decreases
{
    if s.len() == 0 {
        seq![]
    } else {
        let n = text::until(s, '/') as int;
        let name = s.take(n);
        let rest = if n < s.len() {
            names(s.skip(n + 1))
        } else {
            seq![]
        };
        if is_idle(name) {
            rest
        } else {
            seq![name] + rest
        }
    }
}

#[via_fn]
proof fn names_decreases(s: Seq<char>) {
    text::lemma_until(s, '/');
}

/// A path that starts at the root.
pub open spec fn has_root(s: Seq<char>) -> bool {
    s.len() > 0 && s[0] == '/'
}

/// A path that starts with the dot for the current place.
pub open spec fn starts_here(s: Seq<char>) -> bool {
    s.len() > 0 && s[0] == '.' && (s.len() == 1 || s[1] == '/')
}

/// Two paths lead the same way.
pub open spec fn same_way(a: Seq<char>, b: Seq<char>) -> bool {
    has_root(a) == has_root(b) && starts_here(a) == starts_here(b) && names(a) == names(b)
}

/// A path with a further part. A part that starts at the root stands alone.
pub open spec fn joined(base: Seq<char>, part: Seq<char>) -> Seq<char> {
    if has_root(part) {
        part
    } else if base.len() == 0 || base.last() == '/' {
        base + part
    } else {
        base + "/"@ + part
    }
}

/// A path has something above it: it is neither empty nor the root.
pub open spec fn has_parent(s: Seq<char>) -> bool {
    names(s).len() > 0 || starts_here(s)
}

/// `p` leads one name less far than `s`.
pub open spec fn leads_above(p: Seq<char>, s: Seq<char>) -> bool {
    if names(s).len() > 0 {
        &&& has_root(p) == has_root(s)
        &&& starts_here(p) == starts_here(s)
        &&& names(p) == names(s).drop_last()
    } else {
        p.len() == 0
    }
}

/// The path above `s`: the shortest beginning of it that leads one name less far.
pub open spec fn is_parent(p: Seq<char>, s: Seq<char>) -> bool {
    &&& p.len() <= s.len()
    &&& p == s.take(p.len() as int)
    &&& leads_above(p, s)
    &&& forall|k: int| 0 <= k < p.len() ==> !leads_above(#[trigger] s.take(k), s)
}

/// The path above `s`, where there is one.
pub open spec fn parent_of(s: Seq<char>) -> Seq<char> {
    choose|p: Seq<char>| is_parent(p, s)
}

/// There is one path above another.
pub proof fn lemma_one_parent(p: Seq<char>, q: Seq<char>, s: Seq<char>)
    requires
        is_parent(p, s),
        is_parent(q, s),
    ensures
        p == q,
{
    if p.len() < q.len() {
        assert(!leads_above(s.take(p.len() as int), s));
    } else if q.len() < p.len() {
        assert(!leads_above(s.take(q.len() as int), s));
    }
}

/// Appends a part to a path.
pub fn join_path(base: &str, part: &str) -> (r: String)
    ensures
        r@ == joined(base@, part@),
{
    let p = chars_of(part);
    if p.len() > 0 && p[0] == '/' {
        return part.to_owned();
    }
    let b = chars_of(base);
    let mut r = base.to_owned();
    if b.len() > 0 && b[b.len() - 1] != '/' {
        r.append("/");
    }
    r.append(part);
    r
}

/// Splits a path into its names.
fn names_of<'a>(v: &'a [char]) -> (r: Vec<&'a [char]>)
    ensures
        text::views(r@) == names(v@),
{
    let mut r: Vec<&'a [char]> = Vec::new();
    let mut i: usize = 0;
    assert(v@.skip(0) =~= v@);
    assert(text::views(r@) + names(v@) =~= names(v@));
    while i < v.len()
        invariant
            i <= v@.len(),
            text::views(r@) + names(v@.skip(i as int)) == names(v@),
        decreases v@.len() - i,
    {
        let ghost before = text::views(r@);
        let rest = slice_subrange(v, i, v.len());
        assert(rest@ =~= v@.skip(i as int));
        let n: usize = count_until(rest, '/');
        let name = slice_subrange(rest, 0, n);
        assert(name@ =~= rest@.take(n as int));
        let idle = name.len() == 0 || (name.len() == 1 && name[0] == '.');
        if !idle {
            r.push(name);
            assert(text::views(r@) =~= before.push(name@));
        }
        if n < rest.len() {
            assert(rest@.skip(n + 1) =~= v@.skip(i + n + 1));
            assert(text::views(r@) + names(v@.skip(i + n + 1)) =~= before + names(rest@));
            i = i + n + 1;
        } else {
            assert(v@.skip(v@.len() as int).len() == 0);
            assert(text::views(r@) + names(v@.skip(v@.len() as int)) =~= before + names(rest@));
            i = v.len();
        }
    }
    assert(v@.skip(i as int).len() == 0);
    assert(text::views(r@) =~= names(v@));
    r
}

fn root_of(v: &[char]) -> (r: bool)
    ensures
        r == has_root(v@),
{
    v.len() > 0 && v[0] == '/'
}

fn here_of(v: &[char]) -> (r: bool)
    ensures
        r == starts_here(v@),
{
    v.len() > 0 && v[0] == '.' && (v.len() == 1 || v[1] == '/')
}

/// Whether the first `n` of some names are all of some others.
fn first_names_are(all: &Vec<&[char]>, n: usize, some: &Vec<&[char]>) -> (r: bool)
    requires
        n <= all@.len(),
    ensures
        r == (text::views(all@).take(n as int) == text::views(some@)),
{
    let ghost left = text::views(all@).take(n as int);
    let ghost right = text::views(some@);
    if some.len() != n {
        assert(left.len() != right.len());
        return false;
    }
    let mut i: usize = 0;
    while i < n
        invariant
            i <= n <= all@.len(),
            n == some@.len(),
            left == text::views(all@).take(n as int),
            right == text::views(some@),
            forall|j: int| 0 <= j < i ==> left[j] == right[j],
        decreases n - i,
    {
        assert(left[i as int] == all@[i as int]@);
        assert(right[i as int] == some@[i as int]@);
        if !chars_eq(all[i], some[i]) {
            return false;
        }
        i = i + 1;
    }
    assert(left =~= right);
    true
}

/// Whether two paths lead the same way.
pub fn same_path(a: &str, b: &str) -> (r: bool)
    ensures
        r == same_way(a@, b@),
{
    let v = chars_of(a);
    let w = chars_of(b);
    let left = names_of(v.as_slice());
    let right = names_of(w.as_slice());
    assert(text::views(left@).take(left@.len() as int) =~= names(a@));
    root_of(v.as_slice()) == root_of(w.as_slice()) && here_of(v.as_slice()) == here_of(w.as_slice())
        && first_names_are(&left, left.len(), &right)
}

/// Some beginning of a path with a name leads one name less far; it ends where
/// the last name starts.
proof fn lemma_above_exists(s: Seq<char>) -> (k: int)
    requires
        names(s).len() > 0,
    ensures
        0 <= k <= s.len(),
        names(s.take(k)) == names(s).drop_last(),
        k > 0 ==> s[k - 1] == '/',
        text::until(s, '/') < s.len() && is_idle(s.take(text::until(s, '/') as int)) ==> k > text::until(s, '/'),
    decreases s.len(),
{
    text::lemma_until(s, '/');
    let n = text::until(s, '/') as int;
    let name = s.take(n);
    let rest = if n < s.len() {
        s.skip(n + 1)
    } else {
        seq![]
    };
    assert(names(Seq::<char>::empty()) == Seq::<Seq<char>>::empty());
    if n < s.len() && names(rest).len() > 0 {
        let more = lemma_above_exists(rest);
        let k = n + 1 + more;
        let part = s.take(k);
        text::lemma_until_is(part, '/', n as nat);
        assert(part.take(n) =~= name);
        assert(part.skip(n + 1) =~= rest.take(more));
        if is_idle(name) {
            assert(names(part) == names(rest.take(more)));
        } else {
            assert(names(part) == seq![name] + names(rest.take(more)));
            assert(names(part) =~= names(s).drop_last());
        }
        if more > 0 {
            assert(s[k - 1] == rest[more - 1]);
        }
        k
    } else {
        assert(names(rest) =~= Seq::<Seq<char>>::empty());
        assert(names(s) =~= seq![name]);
        assert(s.take(0) =~= Seq::<char>::empty());
        assert(names(s.take(0)) =~= names(s).drop_last());
        0
    }
}

proof fn lemma_has_above(s: Seq<char>) -> (k: int)
    requires
        has_parent(s),
    ensures
        0 <= k <= s.len(),
        leads_above(s.take(k), s),
{
    if names(s).len() == 0 {
        0
    } else {
        let k = lemma_above_exists(s);
        text::lemma_until(s, '/');
        let part = s.take(k);
        if has_root(s) {
            text::lemma_until_is(s, '/', 0);
            assert(is_idle(s.take(0)));
        }
        if starts_here(s) {
            if s.len() == 1 {
                text::lemma_until_is(s, '/', 1);
                assert(s.take(1) =~= s);
                assert(is_idle(s.take(1)));
                assert(names(s).len() == 0);
            } else {
                text::lemma_until_is(s, '/', 1);
                assert(is_idle(s.take(1)));
            }
        }
        k
    }
}

/// The path above another, if there is one.
pub fn parent_path(s: &str) -> (r: Option<String>)
    ensures
        r is Some <==> has_parent(s@),
        r matches Some(p) ==> is_parent(p@, s@) && p@ == parent_of(s@),
{
    let r = find_parent(s);
    proof {
        if r is Some {
            lemma_one_parent(r->0@, parent_of(s@), s@);
        }
    }
    r
}

fn find_parent(s: &str) -> (r: Option<String>)
    ensures
        r is Some <==> has_parent(s@),
        r matches Some(p) ==> is_parent(p@, s@),
{
    let v = chars_of(s);
    let all = v.as_slice();
    let parts = names_of(all);
    let ghost target = names(s@);
    assert(target.len() == parts@.len());
    if parts.len() == 0 {
        if !here_of(all) {
            return None;
        }
        let r = String::new();
        assert(r@ =~= s@.take(0));
        return Some(r);
    }
    let root = root_of(all);
    let here = here_of(all);
    let count: usize = parts.len() - 1;
    let mut k: usize = 0;
    loop
        invariant
            k <= v@.len(),
            v@ == s@,
            all@ == s@,
            target == names(s@),
            text::views(parts@) == target,
            target.len() > 0,
            count == target.len() - 1,
            root == has_root(s@),
            here == starts_here(s@),
            forall|j: int| 0 <= j < k ==> !leads_above(#[trigger] s@.take(j), s@),
        decreases v@.len() - k,
    {
        let part = slice_subrange(all, 0, k);
        assert(part@ =~= s@.take(k as int));
        let some = names_of(part);
        assert(target.take(count as int) =~= target.drop_last());
        if root_of(part) == root && here_of(part) == here && first_names_are(&parts, count, &some) {
            let r = string_of(part);
            assert(r@.len() == k);
            return Some(r);
        }
        if k == v.len() {
            proof {
                let j = lemma_has_above(s@);
                assert(!leads_above(s@.take(j), s@));
            }
            return None;
        }
        k = k + 1;
    }
}

/// A part is set behind a path with one slash between them; a part that starts at
/// the root stands alone.
pub proof fn parts_are_joined_with_a_slash(base: Seq<char>, part: Seq<char>)
    ensures
        part.len() > 0 && part[0] == '/' ==> joined(base, part) == part,
        !(part.len() > 0 && part[0] == '/') && base.len() > 0 && base.last() != '/' ==> joined(base, part) == base
            + seq!['/'] + part,
        !(part.len() > 0 && part[0] == '/') && base.len() > 0 && base.last() == '/' ==> joined(base, part) == base
            + part,
        joined(Seq::<char>::empty(), part) == part,
{
    reveal_strlit("/");
    assert("/"@ =~= seq!['/']);
    assert(Seq::<char>::empty() + part =~= part);
}

/// The names of a path stand between its slashes; further slashes, and dots for
/// the same place, name nothing.
pub proof fn names_stand_between_slashes(name: Seq<char>, rest: Seq<char>)
    requires
        forall|i: int| 0 <= i < name.len() ==> #[trigger] name[i] != '/',
    ensures
        name.len() > 0 && name != seq!['.'] ==> names(name) == seq![name] && names(name + seq!['/'] + rest) == seq![
            name,
        ] + names(rest),
        name.len() == 0 || name == seq!['.'] ==> names(name + seq!['/'] + rest) == names(rest) && names(name).len()
            == 0,
{
    let all = name + seq!['/'] + rest;
    text::lemma_until_is(all, '/', name.len());
    text::lemma_until_is(name, '/', name.len());
    assert(all.take(name.len() as int) =~= name);
    assert(all.skip(name.len() as int + 1) =~= rest);
    assert(name.take(name.len() as int) =~= name);
    if name.len() == 1 && name[0] == '.' {
        assert(name =~= seq!['.']);
    }
}

proof fn lemma_trailing_slash(s: Seq<char>)
    ensures
        names(s + seq!['/']) == names(s),
    decreases s.len(),
{
    let all = s + seq!['/'];
    text::lemma_until(s, '/');
    let n = text::until(s, '/') as int;
    let nothing = Seq::<char>::empty();
    assert(names(nothing) =~= seq![]);
    if n < s.len() {
        text::lemma_until_is(all, '/', n as nat);
        assert(all.take(n) =~= s.take(n));
        assert(all.skip(n + 1) =~= s.skip(n + 1) + seq!['/']);
        lemma_trailing_slash(s.skip(n + 1));
    } else {
        text::lemma_until_is(all, '/', s.len());
        assert(all.take(s.len() as int) =~= s);
        assert(all.skip(s.len() as int + 1) =~= nothing);
        assert(s.take(s.len() as int) =~= s);
        assert(seq![s] + names(nothing) =~= seq![s]);
    }
}

/// A slash at the end of a path changes nothing of where it leads. Paths of which
/// one starts at the root and the other does not lead different ways, and so do
/// paths with different names.
pub proof fn paths_lead_by_their_names(a: Seq<char>, b: Seq<char>)
    requires
        a.len() > 0,
    ensures
        same_way(a, a),
        same_way(a + seq!['/'], a),
        same_way(a, b) == same_way(b, a),
        b.len() > 0 && a[0] == '/' && b[0] != '/' ==> !same_way(a, b),
        names(a) != names(b) ==> !same_way(a, b),
        b.len() > 0 && a[0] == '/' && b[0] == '/' && names(a) == names(b) ==> same_way(a, b),
{
    lemma_trailing_slash(a);
    let longer = a + seq!['/'];
    assert(longer[0] == a[0]);
    if a.len() == 1 {
        assert(longer[1] == '/');
    } else {
        assert(longer[1] == a[1]);
    }
}

/// The path above another is a beginning of it, and has its names but for the last.
pub proof fn path_above_lacks_the_last_name(p: Seq<char>, s: Seq<char>)
    requires
        is_parent(p, s),
        names(s).len() > 0,
    ensures
        p.len() <= s.len(),
        forall|i: int| 0 <= i < p.len() ==> p[i] == s[i],
        names(p).push(names(s).last()) == names(s),
        p.len() > 0 && p[0] == '/' <==> s.len() > 0 && s[0] == '/',
{
    assert(names(s).drop_last().push(names(s).last()) =~= names(s));
    assert forall|i: int| 0 <= i < p.len() implies p[i] == s[i] by {
        assert(s.take(p.len() as int)[i] == s[i]);
    }
}

} // verus!
