//! Decimal rendering of integers and small string helpers.

use vstd::prelude::*;

verus! {

/// The character of a decimal digit.
pub open spec fn digit_char(d: nat) -> char
    recommends
        d < 10,
{
    ((48 + d) as u8) as char
}

/// The decimal digits of `n`, most significant first, without leading zeros.
pub open spec fn dec_digits(n: nat) -> Seq<char>
    decreases n,
{
    if n < 10 {
        seq![digit_char(n)]
    } else {
        dec_digits(n / 10).push(digit_char(n % 10))
    }
}

/// The decimal text of a signed integer, with a leading `-` for negative values.
pub open spec fn int_text(n: int) -> Seq<char> {
    if n < 0 {
        seq!['-'] + dec_digits((-n) as nat)
    } else {
        dec_digits(n as nat)
    }
}

/// Appends one character to a string (`String::push`).
#[verifier::external_body]
pub(crate) fn push_char(s: &mut String, c: char)
    ensures
        final(s)@ == old(s)@.push(c),
{
    s.push(c);
}

fn digit(d: u128) -> (c: char)
    requires
        d < 10,
    ensures
        c == digit_char(d as nat),
{
    let b: u8 = 48u8 + (d as u8);
    b as char
}

/// Appends the decimal digits of `n` to `out`.
pub fn write_unsigned(n: u128, out: &mut String)
    ensures
        final(out)@ == old(out)@ + dec_digits(n as nat),
    decreases n,
{
    if n >= 10 {
        write_unsigned(n / 10, out);
    }
    push_char(out, digit(n % 10));
    proof {
        assert(dec_digits(n as nat) =~= if n < 10 { seq![digit_char(n as nat)] } else {
            dec_digits((n / 10) as nat).push(digit_char((n % 10) as nat))
        });
    }
}

/// Appends the decimal text of the signed integer `n` to `out`.
pub fn write_signed(n: i64, out: &mut String)
    ensures
        final(out)@ == old(out)@ + int_text(n as int),
{
    if n < 0 {
        push_char(out, '-');
        let magnitude: u128 = (0i128 - (n as i128)) as u128;
        write_unsigned(magnitude, out);
    } else {
        write_unsigned(n as u128, out);
    }
}

} // verus!

verus! {

broadcast use vstd::string::group_string_axioms;

/// The characters of a string, in order.
pub fn to_chars(s: &str) -> (v: Vec<char>)
    ensures
        v@ == s@,
{
    let mut v: Vec<char> = Vec::new();
    for c in it: s.chars()
        invariant
            it.seq() == s@,
            v@ == s@.take(it.index() as int),
    {
        proof {
            assert(s@.take(it.index() + 1) =~= s@.take(it.index() as int).push(c));
        }
        v.push(c);
    }
    proof {
        assert(s@.take(s@.len() as int) =~= s@);
    }
    v
}

/// The string made of the given characters.
pub fn from_chars(v: &Vec<char>) -> (s: String)
    ensures
        s@ == v@,
{
    let mut s = String::new();
    let mut i: usize = 0;
    while i < v.len()
        invariant
            i <= v.len(),
            s@ == v@.take(i as int),
        decreases v.len() - i,
    {
        proof {
            assert(v@.take(i + 1) =~= v@.take(i as int).push(v@[i as int]));
        }
        push_char(&mut s, v[i]);
        i = i + 1;
    }
    proof {
        assert(v@.take(v@.len() as int) =~= v@);
    }
    s
}

/// Whether `s` begins with the character `c`.
pub fn starts_with_char(s: &str, c: char) -> (b: bool)
    ensures
        b == (s@.len() > 0 && s@[0] == c),
{
    let v = to_chars(s);
    v.len() > 0 && v[0] == c
}

/// Whether `s` ends with the character `c`.
pub fn ends_with_char(s: &str, c: char) -> (b: bool)
    ensures
        b == (s@.len() > 0 && s@.last() == c),
{
    let v = to_chars(s);
    v.len() > 0 && v[v.len() - 1] == c
}

/// Unix path joining as `Path::join` documents it: an absolute `rel`
/// replaces `base`; otherwise `rel` follows `base`, separated by one `/`
/// unless `base` is empty or already ends with one.
pub open spec fn path_join(base: Seq<char>, rel: Seq<char>) -> Seq<char> {
    if rel.len() > 0 && rel[0] == '/' {
        rel
    } else if base.len() == 0 || base.last() == '/' {
        base + rel
    } else {
        base + seq!['/'] + rel
    }
}

/// Joins two Unix paths (see [`path_join`]).
pub fn join_path(base: &str, rel: &str) -> (joined: String)
    ensures
        joined@ == path_join(base@, rel@),
{
    if starts_with_char(rel, '/') {
        return rel.to_owned();
    }
    let mut joined = base.to_owned();
    if !is_empty_str(base) && !ends_with_char(base, '/') {
        push_char(&mut joined, '/');
    }
    joined.append(rel);
    joined
}

fn is_empty_str(s: &str) -> (b: bool)
    ensures
        b == (s@.len() == 0),
{
    s.is_empty()
}

} // verus!

verus! {

/// Whether two strings are equal.
pub fn str_eq(a: &str, b: &str) -> (r: bool)
    ensures
        r == (a@ == b@),
{
    let x = to_chars(a);
    let y = to_chars(b);
    if x.len() != y.len() {
        return false;
    }
    let mut i: usize = 0;
    while i < x.len()
        invariant
            x@ == a@,
            y@ == b@,
            x@.len() == y@.len(),
            i <= x@.len(),
            forall|j: int| 0 <= j < i ==> x@[j] == y@[j],
        decreases x@.len() - i,
    {
        if x[i] != y[i] {
            return false;
        }
        i = i + 1;
    }
    assert(x@ =~= y@);
    true
}

/// Whether `s` holds two consecutive characters `c`.
pub open spec fn has_pair(s: Seq<char>, c: char) -> bool {
    exists|i: int| 0 <= i && i + 1 < s.len() && s[i] == c && #[trigger] s[i + 1] == c
}

/// Whether `s` holds two consecutive characters `c`.
pub fn contains_pair(s: &str, c: char) -> (r: bool)
    ensures
        r == has_pair(s@, c),
{
    let v = to_chars(s);
    let mut i: usize = 0;
    while i < v.len() && i + 1 < v.len()
        invariant
            v@ == s@,
            i <= v@.len(),
            forall|j: int| 0 <= j < i && j + 1 < v@.len() ==> !(v@[j] == c && #[trigger] v@[j + 1] == c),
        decreases v@.len() - i,
    {
        if v[i] == c && v[i + 1] == c {
            return true;
        }
        i = i + 1;
    }
    false
}

} // verus!
