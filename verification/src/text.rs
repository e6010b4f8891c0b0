//! Text helpers shared by the rest of the library: decimal rendering of
//! integers and joining of lists.

use vstd::prelude::*;

verus! {

/// The decimal digit character for `d` (`0 <= d < 10`).
pub open spec fn digit_char(d: nat) -> char {
    if d == 0 { '0' }
    else if d == 1 { '1' }
    else if d == 2 { '2' }
    else if d == 3 { '3' }
    else if d == 4 { '4' }
    else if d == 5 { '5' }
    else if d == 6 { '6' }
    else if d == 7 { '7' }
    else if d == 8 { '8' }
    else { '9' }
}

/// The usual base-ten rendering of `n`, without sign or leading zeros.
pub open spec fn decimal(n: nat) -> Seq<char>
    decreases n,
{
    if n < 10 {
        seq![digit_char(n)]
    } else {
        decimal(n / 10).push(digit_char(n % 10))
    }
}

fn digit_str(d: usize) -> (s: &'static str)
    requires
        d < 10,
    ensures
        s@ == seq![digit_char(d as nat)],
{
    if d == 0 {
        proof { reveal_strlit("0"); }
        "0"
    } else if d == 1 {
        proof { reveal_strlit("1"); }
        "1"
    } else if d == 2 {
        proof { reveal_strlit("2"); }
        "2"
    } else if d == 3 {
        proof { reveal_strlit("3"); }
        "3"
    } else if d == 4 {
        proof { reveal_strlit("4"); }
        "4"
    } else if d == 5 {
        proof { reveal_strlit("5"); }
        "5"
    } else if d == 6 {
        proof { reveal_strlit("6"); }
        "6"
    } else if d == 7 {
        proof { reveal_strlit("7"); }
        "7"
    } else if d == 8 {
        proof { reveal_strlit("8"); }
        "8"
    } else {
        proof { reveal_strlit("9"); }
        "9"
    }
}

/// Renders `n` in base ten, as `usize`'s `Display` does.
pub fn usize_to_decimal(n: usize) -> (s: String)
    ensures
        s@ == decimal(n as nat),
    decreases n,
{
    if n < 10 {
        String::from_str(digit_str(n))
    } else {
        let mut s = usize_to_decimal(n / 10);
        s.append(digit_str(n % 10));
        s
    }
}

/// `ids` in base ten, separated by commas.
pub open spec fn join_decimals(ids: Seq<usize>) -> Seq<char>
    decreases ids.len(),
{
    if ids.len() == 0 {
        Seq::empty()
    } else if ids.len() == 1 {
        decimal(ids[0] as nat)
    } else {
        join_decimals(ids.drop_last()) + seq![','] + decimal(ids.last() as nat)
    }
}

/// Renders `ids` in base ten, separated by commas.
pub fn join_usizes(ids: &[usize]) -> (s: String)
    ensures
        s@ == join_decimals(ids@),
{
    let mut s = String::new();
    let mut i: usize = 0;
    while i < ids.len()
        invariant
            i <= ids@.len(),
            s@ == join_decimals(ids@.take(i as int)),
        decreases ids@.len() - i,
    {
        assert(ids@.take(i + 1).drop_last() =~= ids@.take(i as int));
        if i > 0 {
            proof { reveal_strlit(","); }
            s.append(",");
        }
        let d = usize_to_decimal(ids[i]);
        s.append(d.as_str());
        i = i + 1;
    }
    assert(ids@.take(ids@.len() as int) =~= ids@);
    s
}

/// The characters of `s`, in order.
pub fn chars_of(s: &str) -> (v: Vec<char>)
    ensures
        v@ == s@,
{
    broadcast use vstd::string::group_string_axioms;
    let mut v: Vec<char> = Vec::new();
    for c in it: s.chars()
        invariant
            v@ == it.seq().take(it.index() as int),
    {
        v.push(c);
    }
    assert(v@ =~= s@);
    v
}

/// Unicode white space, as `char::is_whitespace` decides it.
pub open spec fn is_whitespace(c: char) -> bool {
    ||| c == '\t' || c == '\n' || c == '\u{0B}' || c == '\u{0C}' || c == '\r' || c == ' '
    ||| c == '\u{85}' || c == '\u{A0}' || c == '\u{1680}'
    ||| ('\u{2000}' <= c && c <= '\u{200A}')
    ||| c == '\u{2028}' || c == '\u{2029}' || c == '\u{202F}' || c == '\u{205F}' || c == '\u{3000}'
}

/// The first position at or after `p` that is not white space, or the end.
pub open spec fn skip_whitespace(t: Seq<char>, p: int) -> int
    decreases t.len() - p,
{
    if p < 0 || p >= t.len() {
        p
    } else if is_whitespace(t[p]) {
        skip_whitespace(t, p + 1)
    } else {
        p
    }
}

/// The end of `t[a..q]` without its trailing white space.
pub open spec fn drop_trailing_whitespace(t: Seq<char>, a: int, q: int) -> int
    decreases q - a,
{
    if q <= a {
        q
    } else if is_whitespace(t[q - 1]) {
        drop_trailing_whitespace(t, a, q - 1)
    } else {
        q
    }
}

/// `t` without its leading and trailing white space, as `str::trim` gives
/// it.
pub open spec fn trimmed(t: Seq<char>) -> Seq<char> {
    let a = skip_whitespace(t, 0);
    t.subrange(a, drop_trailing_whitespace(t, a, t.len() as int))
}

/// The bounds of `u` without its leading and trailing white space.
pub fn trim_exec(u: &Vec<char>) -> (r: (usize, usize))
    ensures
        r.0 == skip_whitespace(u@, 0),
        r.1 == drop_trailing_whitespace(u@, r.0 as int, u@.len() as int),
        r.0 <= r.1 <= u@.len(),
{
    let mut a: usize = 0;
    while a < u.len() && is_whitespace_exec(u[a])
        invariant
            a <= u@.len(),
            skip_whitespace(u@, 0) == skip_whitespace(u@, a as int),
        decreases u@.len() - a,
    {
        a = a + 1;
    }
    let mut b: usize = u.len();
    while b > a && is_whitespace_exec(u[b - 1])
        invariant
            a <= b <= u@.len(),
            drop_trailing_whitespace(u@, a as int, u@.len() as int) == drop_trailing_whitespace(
                u@,
                a as int,
                b as int,
            ),
        decreases b,
    {
        b = b - 1;
    }
    (a, b)
}

fn is_whitespace_exec(c: char) -> (b: bool)
    ensures
        b == is_whitespace(c),
{
    c == '\t' || c == '\n' || c == '\u{0B}' || c == '\u{0C}' || c == '\r' || c == ' ' || c == '\u{85}'
        || c == '\u{A0}' || c == '\u{1680}' || ('\u{2000}' <= c && c <= '\u{200A}') || c == '\u{2028}'
        || c == '\u{2029}' || c == '\u{202F}' || c == '\u{205F}' || c == '\u{3000}'
}

/// `s` without its leading and trailing white space (`str::trim`).
pub fn trim(s: &str) -> (r: &str)
    ensures
        r@ == trimmed(s@),
{
    let u = chars_of(s);
    let (a, b) = trim_exec(&u);
    s.substring_char(a, b)
}

/// Whether `a` and `b` hold the same characters.
pub fn str_eq(a: &str, b: &str) -> (r: bool)
    ensures
        r == (a@ == b@),
{
    let u = chars_of(a);
    let v = chars_of(b);
    if u.len() != v.len() {
        return false;
    }
    let mut k: usize = 0;
    while k < u.len()
        invariant
            u@ == a@,
            v@ == b@,
            u@.len() == v@.len(),
            k <= u@.len(),
            forall|j: int| 0 <= j < k ==> u@[j] == v@[j],
        decreases u@.len() - k,
    {
        if u[k] != v[k] {
            return false;
        }
        k = k + 1;
    }
    assert(u@ =~= v@);
    true
}

} // verus!
