//! Decimal and hexadecimal numerals.
use vstd::prelude::*;

verus! {

/// The decimal digit for a number below ten.
pub open spec fn digit_char(d: nat) -> char {
    ('0' as nat + d) as char
}

/// `n` in decimal, without leading zeros.
pub open spec fn decimal(n: nat) -> Seq<char>
    decreases n,
{
    if n < 10 {
        seq![digit_char(n)]
    } else {
        decimal(n / 10).push(digit_char(n % 10))
    }
}

/// `i` in decimal, with a minus sign where it is negative.
pub open spec fn signed_decimal(i: int) -> Seq<char> {
    if i < 0 {
        seq!['-'] + decimal((-i) as nat)
    } else {
        decimal(i as nat)
    }
}

pub open spec fn is_digit(c: char) -> bool {
    '0' <= c <= '9'
}

pub open spec fn all_digits(s: Seq<char>) -> bool {
    forall|i: int| 0 <= i < s.len() ==> is_digit(#[trigger] s[i])
}

/// The number that a run of decimal digits stands for.
pub open spec fn digits_value(s: Seq<char>) -> nat
    decreases s.len(),
{
    if s.len() == 0 {
        0
    } else {
        digits_value(s.drop_last()) * 10 + (s.last() as nat - '0' as nat) as nat
    }
}

/// `s` without one leading plus sign.
pub open spec fn strip_plus(s: Seq<char>) -> Seq<char> {
    if s.len() > 0 && s[0] == '+' {
        s.drop_first()
    } else {
        s
    }
}

/// The number that a numeral stands for: an optional plus sign, then at least
/// one decimal digit and nothing else, for a number no greater than `max`.
pub open spec fn parse_decimal(s: Seq<char>, max: nat) -> Option<nat> {
    let d = strip_plus(s);
    if d.len() > 0 && all_digits(d) && digits_value(d) <= max {
        Some(digits_value(d))
    } else {
        None
    }
}

/// Appends `n` in decimal.
pub fn push_decimal(s: &mut String, n: u128)
    ensures
        final(s)@ == old(s)@ + decimal(n as nat),
    decreases n,
{
    let ghost start = s@;
    if n >= 10 {
        push_decimal(s, n / 10);
    }
    let d: u8 = (n % 10) as u8;
    s.push((48 + d) as char);
    assert(s@ =~= start + decimal(n as nat));
}

/// `n` in decimal.
pub fn decimal_of(n: u128) -> (s: String)
    ensures
        s@ == decimal(n as nat),
{
    let mut s = String::new();
    push_decimal(&mut s, n);
    assert(s@ =~= decimal(n as nat));
    s
}

/// Appends `i` in decimal, with its sign where it is negative.
pub fn push_signed_decimal(s: &mut String, i: i32)
    ensures
        final(s)@ == old(s)@ + signed_decimal(i as int),
{
    let ghost start = s@;
    let wide: i64 = i as i64;
    if wide < 0 {
        s.push('-');
        push_decimal(s, (-wide) as u128);
    } else {
        push_decimal(s, wide as u128);
    }
    assert(s@ =~= start + signed_decimal(i as int));
}

proof fn lemma_value_grows(s: Seq<char>, i: int)
    requires
        0 <= i <= s.len(),
    ensures
        digits_value(s.take(i)) <= digits_value(s),
    decreases s.len(),
{
    if i < s.len() {
        lemma_value_grows(s.drop_last(), i);
        assert(s.drop_last().take(i) =~= s.take(i));
    } else {
        assert(s.take(i) =~= s);
    }
}

/// Reads a decimal numeral no greater than `max`.
pub fn read_decimal(v: &[char], max: u64) -> (r: Option<u64>)
    ensures
        r matches Some(n) ==> parse_decimal(v@, max as nat) == Some(n as nat),
        r is None ==> parse_decimal(v@, max as nat) is None,
{
    let start: usize = if v.len() > 0 && v[0] == '+' {
        1
    } else {
        0
    };
    let ghost d = strip_plus(v@);
    assert(d =~= v@.skip(start as int));
    if start == v.len() {
        return None;
    }
    let mut total: u128 = 0;
    let mut i: usize = start;
    while i < v.len()
        invariant
            start <= i <= v@.len(),
            start <= 1,
            d == v@.skip(start as int),
            d == strip_plus(v@),
            total <= max,
            total == digits_value(d.take(i - start)),
            all_digits(d.take(i - start)),
        decreases v@.len() - i,
    {
        let c = v[i];
        assert(d[i - start] == c);
        if c < '0' || c > '9' {
            assert(!is_digit(d[i - start]));
            return None;
        }
        let ghost longer = d.take(i - start + 1);
        assert(longer.drop_last() =~= d.take(i - start));
        total = total * 10 + (c as u128 - '0' as u128);
        assert(total == digits_value(longer));
        if total > max as u128 {
            proof {
                lemma_value_grows(d, i - start + 1);
            }
            return None;
        }
        assert forall|j: int| 0 <= j < longer.len() implies is_digit(#[trigger] longer[j]) by {
            if j < i - start {
                assert(longer[j] == d.take(i - start)[j]);
            }
        }
        i = i + 1;
    }
    assert(d.take(i - start) =~= d);
    Some(total as u64)
}

/// A decimal numeral consists of digits and stands for its number.
pub proof fn lemma_decimal(n: nat)
    ensures
        decimal(n).len() > 0,
        all_digits(decimal(n)),
        digits_value(decimal(n)) == n,
    decreases n,
{
    if n < 10 {
        assert(decimal(n).drop_last() =~= Seq::<char>::empty());
        assert(digits_value(Seq::<char>::empty()) == 0);
    } else {
        lemma_decimal(n / 10);
        assert(decimal(n).drop_last() =~= decimal(n / 10));
        assert forall|i: int| 0 <= i < decimal(n).len() implies is_digit(#[trigger] decimal(n)[i]) by {
            if i < decimal(n / 10).len() {
                assert(decimal(n)[i] == decimal(n / 10)[i]);
            }
        }
    }
}

/// Reading a number back from its decimal numeral gives the number.
pub proof fn decimal_reads_back(n: nat, max: nat)
    requires
        n <= max,
    ensures
        parse_decimal(decimal(n), max) == Some(n),
{
    lemma_decimal(n);
    assert(is_digit(decimal(n)[0]));
}

/// The value of a hexadecimal digit of either case.
pub open spec fn hex_digit(c: char) -> Option<nat> {
    if '0' <= c <= '9' {
        Some((c as nat - '0' as nat) as nat)
    } else if 'a' <= c <= 'f' {
        Some((c as nat - 'a' as nat + 10) as nat)
    } else if 'A' <= c <= 'F' {
        Some((c as nat - 'A' as nat + 10) as nat)
    } else {
        None
    }
}

/// The number that two characters stand for in hexadecimal. A plus sign may
/// take the place of the first digit.
pub open spec fn parse_hex_pair(a: char, b: char) -> Option<nat> {
    match (hex_digit(a), hex_digit(b)) {
        (Some(high), Some(low)) => Some(high * 16 + low),
        (None, Some(low)) => if a == '+' {
            Some(low)
        } else {
            None
        },
        _ => None,
    }
}

/// Reads a hexadecimal digit of either case.
pub fn read_hex_digit(c: char) -> (r: Option<u8>)
    ensures
        r matches Some(d) ==> hex_digit(c) == Some(d as nat) && d < 16,
        r is None ==> hex_digit(c) is None,
{
    let n: u32 = c as u32;
    if '0' <= c && c <= '9' {
        Some((n - '0' as u32) as u8)
    } else if 'a' <= c && c <= 'f' {
        Some((n - 'a' as u32 + 10) as u8)
    } else if 'A' <= c && c <= 'F' {
        Some((n - 'A' as u32 + 10) as u8)
    } else {
        None
    }
}

/// Reads two characters as a hexadecimal number.
pub fn read_hex_pair(a: char, b: char) -> (r: Option<u8>)
    ensures
        r matches Some(n) ==> parse_hex_pair(a, b) == Some(n as nat),
        r is None ==> parse_hex_pair(a, b) is None,
{
    match (read_hex_digit(a), read_hex_digit(b)) {
        (Some(high), Some(low)) => Some(high * 16 + low),
        (None, Some(low)) => if a == '+' {
            Some(low)
        } else {
            None
        },
        _ => None,
    }
}

/// A further digit counts for itself, and makes what stands before it count ten
/// times as much. A number is written the same way, without zeros in front.
pub proof fn digits_count_by_tens(s: Seq<char>, n: nat, d: nat)
    requires
        d < 10,
    ensures
        digits_value(Seq::<char>::empty()) == 0,
        digits_value(s.push(('0' as nat + d) as char)) == 10 * digits_value(s) + d,
        decimal(d) == seq![('0' as nat + d) as char],
        n > 0 ==> decimal(10 * n + d) == decimal(n).push(('0' as nat + d) as char),
{
    let c = ('0' as nat + d) as char;
    assert(s.push(c).drop_last() =~= s);
    assert((10 * n + d) / 10 == n);
    assert((10 * n + d) % 10 == d);
}

/// A numeral is read where it has digits only, at least one of them, for a number
/// that is not too great. A plus sign may stand before it.
pub proof fn numerals_are_digits(s: Seq<char>, max: nat)
    requires
        s.len() == 0 || s[0] != '+',
    ensures
        (s.len() > 0 && (forall|i: int| 0 <= i < s.len() ==> '0' <= #[trigger] s[i] <= '9') && digits_value(s) <= max)
            ==> parse_decimal(s, max) == Some(digits_value(s)),
        (exists|i: int| 0 <= i < s.len() && !('0' <= #[trigger] s[i] <= '9')) ==> parse_decimal(s, max) is None,
        s.len() == 0 ==> parse_decimal(s, max) is None,
        digits_value(s) > max ==> parse_decimal(s, max) is None,
        parse_decimal(seq!['+'] + s, max) == parse_decimal(s, max),
        parse_decimal(seq!['+', '+'] + s, max) is None,
{
    assert((seq!['+'] + s).drop_first() =~= s);
    let two = seq!['+', '+'] + s;
    assert(two.drop_first()[0] == '+');
    assert(!is_digit(two.drop_first()[0]));
    if exists|i: int| 0 <= i < s.len() && !('0' <= #[trigger] s[i] <= '9') {
        let i = choose|i: int| 0 <= i < s.len() && !('0' <= #[trigger] s[i] <= '9');
        assert(!is_digit(s[i]));
    }
}

/// A pair of hexadecimal digits counts sixteen times the first and the second.
/// Letters count from ten on, whatever their case.
pub proof fn hexadecimal_digits_count_by_sixteens(a: char, b: char, d: nat)
    ensures
        d < 10 ==> hex_digit(('0' as nat + d) as char) == Some(d),
        d < 6 ==> hex_digit(('a' as nat + d) as char) == Some(10 + d),
        d < 6 ==> hex_digit(('A' as nat + d) as char) == Some(10 + d),
        hex_digit(a) is Some && hex_digit(b) is Some ==> parse_hex_pair(a, b) == Some(
            16 * hex_digit(a)->0 + hex_digit(b)->0,
        ),
        hex_digit(b) is None ==> parse_hex_pair(a, b) is None,
        hex_digit(a) is None && a != '+' ==> parse_hex_pair(a, b) is None,
{
}

/// A number below zero is written with a minus sign before what is left without it;
/// any other is written as such.
pub proof fn minus_sign_stands_first(n: nat)
    ensures
        signed_decimal(n as int) == decimal(n),
        n > 0 ==> signed_decimal(-n) == seq!['-'] + decimal(n),
{
}

} // verus!
