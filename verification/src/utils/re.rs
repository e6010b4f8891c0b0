//! The two fixed patterns of the library, written as grammars on
//! characters: host names (`extract_domain`) and anime ids in Shikimori and
//! MyAnimeList paths (`extract_anime_id`). A search returns what the
//! `regex` crate's leftmost-first search returns for the same pattern.

use vstd::prelude::*;

use crate::text::chars_of;
use crate::utils::error::UtilsError;
use crate::utils::pattern::{regex_syntax_error, syntax_error};

verus! {

broadcast use vstd::seq_lib::group_seq_properties;

/// `[a-z0-9]`
pub open spec fn is_lower_alnum(c: char) -> bool {
    ('a' <= c && c <= 'z') || ('0' <= c && c <= '9')
}

/// `[a-z0-9-]`
pub open spec fn is_label_char(c: char) -> bool {
    is_lower_alnum(c) || c == '-'
}

/// A label followed by a dot in a host name:
/// `[a-z0-9](?:[a-z0-9-]{0,61}[a-z0-9])?`, that is 1 to 63 characters of
/// `[a-z0-9-]` that start and end with `[a-z0-9]`.
pub open spec fn is_label(t: Seq<char>) -> bool {
    &&& 1 <= t.len() <= 63
    &&& forall|k: int| 0 <= k < t.len() ==> is_label_char(#[trigger] t[k])
    &&& is_lower_alnum(t[0])
    &&& is_lower_alnum(t[t.len() - 1])
}

/// The last label of a host name: `[a-z0-9][a-z0-9-]{0,61}[a-z0-9]`.
pub open spec fn is_last_label(t: Seq<char>) -> bool {
    is_label(t) && t.len() >= 2
}

/// A host name: `(?:label\.)+last_label`.
pub open spec fn is_domain(t: Seq<char>) -> bool
    decreases t.len(),
{
    exists|i: int|
        #![trigger t.take(i)]
        0 <= i < t.len() && t[i] == '.' && is_label(t.take(i)) && (is_last_label(t.skip(i + 1))
            || is_domain(t.skip(i + 1)))
}

/// `u[s..e]` is a host name.
pub open spec fn domain_at(u: Seq<char>, s: int, e: int) -> bool {
    0 <= s < e <= u.len() && is_domain(u.subrange(s, e))
}

/// `u[s..e]` is the first host name in `u`: no host name starts before `s`,
/// and none that starts at `s` is longer. This is the match that the
/// leftmost-first search of the pattern finds, since the pattern's labels
/// end at dots and its repetitions are greedy.
pub open spec fn first_domain(u: Seq<char>, s: int, e: int) -> bool {
    &&& domain_at(u, s, e)
    &&& forall|s2: int, e2: int| s2 < s ==> !domain_at(u, s2, e2)
    &&& forall|e2: int| e2 > e ==> !domain_at(u, s, e2)
}

fn is_lower_alnum_exec(c: char) -> (b: bool)
    ensures
        b == is_lower_alnum(c),
{
    ('a' <= c && c <= 'z') || ('0' <= c && c <= '9')
}

fn is_label_char_exec(c: char) -> (b: bool)
    ensures
        b == is_label_char(c),
{
    is_lower_alnum_exec(c) || c == '-'
}

/// The end of the run of `[a-z0-9-]` that starts at `p`.
fn label_run_end(u: &Vec<char>, p: usize) -> (r: usize)
    requires
        p <= u@.len(),
    ensures
        p <= r <= u@.len(),
        forall|k: int| p <= k < r ==> is_label_char(#[trigger] u@[k]),
        r < u@.len() ==> !is_label_char(u@[r as int]),
{
    let mut r = p;
    while r < u.len() && is_label_char_exec(u[r])
        invariant
            p <= r <= u@.len(),
            forall|k: int| p <= k < r ==> is_label_char(#[trigger] u@[k]),
        decreases u@.len() - r,
    {
        r = r + 1;
    }
    r
}

/// A host name at `s` has its first dot at the end of the label run.
proof fn lemma_domain_split(u: Seq<char>, s: int, e: int, r: int)
    requires
        domain_at(u, s, e),
        s <= r <= u.len(),
        forall|k: int| s <= k < r ==> is_label_char(#[trigger] u[k]),
        r < u.len() ==> !is_label_char(u[r]),
    ensures
        r < e,
        u[r] == '.',
        is_label(u.subrange(s, r)),
        is_last_label(u.subrange(r + 1, e)) || is_domain(u.subrange(r + 1, e)),
{
    let t = u.subrange(s, e);
    let i = choose|i: int|
        #![trigger t.take(i)]
        0 <= i < t.len() && t[i] == '.' && is_label(t.take(i)) && (is_last_label(t.skip(i + 1))
            || is_domain(t.skip(i + 1)));
    if s + i < r {
        assert(is_label_char(u[s + i]));
        assert(u[s + i] == t[i]);
    }
    if s + i > r {
        assert(t.take(i)[r - s] == u[r]);
        assert(is_label_char(t.take(i)[r - s]));
    }
    assert(s + i == r);
    assert(t.take(i) =~= u.subrange(s, r));
    assert(t.skip(i + 1) =~= u.subrange(r + 1, e));
}

/// A dot after a label at `s`, then a host name or a last label, make a
/// host name at `s`.
proof fn lemma_domain_join(u: Seq<char>, s: int, d: int, e: int)
    requires
        0 <= s < d < e <= u.len(),
        u[d] == '.',
        is_label(u.subrange(s, d)),
        is_last_label(u.subrange(d + 1, e)) || is_domain(u.subrange(d + 1, e)),
    ensures
        domain_at(u, s, e),
{
    let t = u.subrange(s, e);
    let i = d - s;
    assert(t.take(i) =~= u.subrange(s, d));
    assert(t.skip(i + 1) =~= u.subrange(d + 1, e));
    assert(t[i] == '.');
}

/// A last label that starts where a host name starts ends before it.
proof fn lemma_last_label_shorter(u: Seq<char>, p: int, e1: int, e2: int)
    requires
        domain_at(u, p, e1),
        0 <= p < e2 <= u.len(),
        is_last_label(u.subrange(p, e2)),
    ensures
        e2 < e1,
{
    let t = u.subrange(p, e1);
    let i = choose|i: int|
        #![trigger t.take(i)]
        0 <= i < t.len() && t[i] == '.' && is_label(t.take(i)) && (is_last_label(t.skip(i + 1))
            || is_domain(t.skip(i + 1)));
    if e2 > p + i {
        assert(u.subrange(p, e2)[i] == u[p + i]);
        assert(is_label_char(u.subrange(p, e2)[i]));
        assert(u[p + i] == t[i]);
    }
}

/// The end of the longest last label at `p`.
fn longest_last_label_at(u: &Vec<char>, p: usize) -> (r: Option<usize>)
    requires
        p <= u@.len(),
    ensures
        match r {
            Some(e) => p < e <= u@.len() && is_last_label(u@.subrange(p as int, e as int))
                && forall|e2: int| e < e2 <= u@.len() ==> !is_last_label(#[trigger] u@.subrange(p as int, e2)),
            None => forall|e2: int| p < e2 <= u@.len() ==> !is_last_label(#[trigger] u@.subrange(p as int, e2)),
        },
{
    let run = label_run_end(u, p);
    if p >= u.len() || !is_lower_alnum_exec(u[p]) {
        assert forall|e2: int| p < e2 <= u@.len() implies !is_last_label(#[trigger] u@.subrange(p as int, e2)) by {
            assert(u@.subrange(p as int, e2)[0] == u@[p as int]);
        }
        return None;
    }
    let cap = if run - p > 63 { p + 63 } else { run };
    assert forall|e2: int| cap < e2 <= u@.len() implies !is_last_label(#[trigger] u@.subrange(p as int, e2)) by {
        if e2 > run {
            assert(u@.subrange(p as int, e2)[run - p] == u@[run as int]);
        }
    }
    let mut e = cap;
    while e - p >= 2
        invariant
            p + 1 <= cap <= run,
            cap <= p + 63,
            p < u@.len(),
            is_lower_alnum(u@[p as int]),
            p + 1 <= e <= cap,
            forall|k: int| p <= k < run ==> is_label_char(#[trigger] u@[k]),
            run <= u@.len(),
            forall|e2: int| e < e2 <= u@.len() ==> !is_last_label(#[trigger] u@.subrange(p as int, e2)),
        decreases e,
    {
        if is_lower_alnum_exec(u[e - 1]) {
            let ghost t = u@.subrange(p as int, e as int);
            assert(t[0] == u@[p as int]);
            assert(t[t.len() - 1] == u@[e - 1]);
            assert forall|k: int| 0 <= k < t.len() implies is_label_char(#[trigger] t[k]) by {
                assert(t[k] == u@[p + k]);
            }
            return Some(e);
        }
        assert(u@.subrange(p as int, e as int)[e - 1 - p] == u@[e - 1]);
        e = e - 1;
    }
    assert forall|e2: int| p < e2 <= u@.len() implies !is_last_label(#[trigger] u@.subrange(p as int, e2)) by {
        if e2 <= e {
            assert(e2 < p + 2);
        }
    }
    None
}

/// The end of the longest host name at `s`.
fn longest_domain_at(u: &Vec<char>, s: usize) -> (r: Option<usize>)
    requires
        s <= u@.len(),
    ensures
        match r {
            Some(e) => domain_at(u@, s as int, e as int) && forall|e2: int|
                e2 > e ==> !domain_at(u@, s as int, e2),
            None => forall|e2: int| !domain_at(u@, s as int, e2),
        },
    decreases u@.len() - s,
{
    let run = label_run_end(u, s);
    let ok = run < u.len() && u[run] == '.' && run - s >= 1 && run - s <= 63 && is_lower_alnum_exec(u[s])
        && is_lower_alnum_exec(u[run - 1]);
    if !ok {
        assert forall|e2: int| !domain_at(u@, s as int, e2) by {
            if domain_at(u@, s as int, e2) {
                lemma_domain_split(u@, s as int, e2, run as int);
                let l = u@.subrange(s as int, run as int);
                assert(l[0] == u@[s as int]);
                assert(l[l.len() - 1] == u@[run - 1]);
            }
        }
        return None;
    }
    let ghost l = u@.subrange(s as int, run as int);
    assert(is_label(l)) by {
        assert(l[0] == u@[s as int]);
        assert(l[l.len() - 1] == u@[run - 1]);
        assert forall|k: int| 0 <= k < l.len() implies is_label_char(#[trigger] l[k]) by {
            assert(l[k] == u@[s + k]);
        }
    }
    let rest = run + 1;
    match longest_domain_at(u, rest) {
        Some(e) => {
            proof {
                lemma_domain_join(u@, s as int, run as int, e as int);
                assert forall|e2: int| e2 > e implies !domain_at(u@, s as int, e2) by {
                    if domain_at(u@, s as int, e2) {
                        lemma_domain_split(u@, s as int, e2, run as int);
                        if is_last_label(u@.subrange(rest as int, e2)) {
                            lemma_last_label_shorter(u@, rest as int, e as int, e2);
                        } else {
                            assert(domain_at(u@, rest as int, e2));
                        }
                    }
                }
            }
            Some(e)
        },
        None => {
            match longest_last_label_at(u, rest) {
                Some(e) => {
                    proof {
                        lemma_domain_join(u@, s as int, run as int, e as int);
                        assert forall|e2: int| e2 > e implies !domain_at(u@, s as int, e2) by {
                            if domain_at(u@, s as int, e2) {
                                lemma_domain_split(u@, s as int, e2, run as int);
                                assert(!domain_at(u@, rest as int, e2));
                            }
                        }
                    }
                    Some(e)
                },
                None => {
                    assert forall|e2: int| !domain_at(u@, s as int, e2) by {
                        if domain_at(u@, s as int, e2) {
                            lemma_domain_split(u@, s as int, e2, run as int);
                            assert(!domain_at(u@, rest as int, e2));
                        }
                    }
                    None
                },
            }
        },
    }
}

/// The first host name in `u`, as start and end positions.
fn find_domain(u: &Vec<char>) -> (r: Option<(usize, usize)>)
    ensures
        match r {
            Some((s, e)) => first_domain(u@, s as int, e as int),
            None => forall|s: int, e: int| !domain_at(u@, s, e),
        },
{
    let mut s: usize = 0;
    while s < u.len()
        invariant
            s <= u@.len(),
            forall|s2: int, e2: int| s2 < s ==> !domain_at(u@, s2, e2),
        decreases u@.len() - s,
    {
        match longest_domain_at(u, s) {
            Some(e) => {
                return Some((s, e));
            },
            None => {},
        }
        s = s + 1;
    }
    None
}

/// Extracts the first host name of `url`: the first match of
/// `(?:[a-z0-9](?:[a-z0-9-]{0,61}[a-z0-9])?\.)+[a-z0-9][a-z0-9-]{0,61}[a-z0-9]`.
///
/// A URL without a host name gives `UtilsError::Regex`, whose error prints
/// "no valid domain found in '<url>'".
pub fn extract_domain(url: &str) -> (r: Result<&str, UtilsError>)
    ensures
        match r {
            Ok(d) => exists|s: int, e: int| first_domain(url@, s, e) && d@ == url@.subrange(s, e),
            Err(err) => (forall|s: int, e: int| !domain_at(url@, s, e)) && err == UtilsError::Regex(
                regex_syntax_error("no valid domain found in '"@ + url@ + "'"@),
            ),
        },
{
    let u = chars_of(url);
    match find_domain(&u) {
        Some((s, e)) => Ok(url.substring_char(s, e)),
        None => {
            let mut msg = String::from_str("no valid domain found in '");
            msg.append(url);
            msg.append("'");
            Err(UtilsError::Regex(syntax_error(msg)))
        },
    }
}

/// An ASCII digit.
pub open spec fn is_digit(c: char) -> bool {
    '0' <= c && c <= '9'
}

/// An ASCII lower-case letter.
pub open spec fn is_lower(c: char) -> bool {
    'a' <= c && c <= 'z'
}

/// `u[s..p]` is `/anime/` or `/animes/`.
pub open spec fn anime_prefix(u: Seq<char>, s: int, p: int) -> bool {
    ||| 0 <= s && p == s + 7 && p <= u.len() && u.subrange(s, p) == "/anime/"@
    ||| 0 <= s && p == s + 8 && p <= u.len() && u.subrange(s, p) == "/animes/"@
}

/// The pattern `/animes?/(?:[a-z])?([0-9]+)(?:-|$|/)` matches at `s`, with
/// the digits `u[d..e]` as its group.
pub open spec fn anime_id_at(u: Seq<char>, s: int, d: int, e: int) -> bool {
    &&& anime_prefix(u, s, d) || (anime_prefix(u, s, d - 1) && is_lower(u[d - 1]))
    &&& d < e <= u.len()
    &&& forall|k: int| d <= k < e ==> is_digit(#[trigger] u[k])
    &&& e == u.len() || u[e] == '-' || u[e] == '/'
}

/// The first match of the id pattern in `u` starts at `s`, and its group is
/// `u[d..e]`.
pub open spec fn first_anime_id(u: Seq<char>, s: int, d: int, e: int) -> bool {
    &&& anime_id_at(u, s, d, e)
    &&& forall|s2: int, d2: int, e2: int| s2 < s ==> !anime_id_at(u, s2, d2, e2)
}

/// Whether `u[s..s + lit.len()]` is `lit`.
fn has_at(u: &Vec<char>, s: usize, lit: &Vec<char>) -> (b: bool)
    ensures
        b == (s + lit@.len() <= u@.len() && u@.subrange(s as int, s + lit@.len()) == lit@),
{
    if s > u.len() || lit.len() > u.len() - s {
        return false;
    }
    let mut k: usize = 0;
    while k < lit.len()
        invariant
            s + lit@.len() <= u.len(),
            u.len() == u@.len(),
            k <= lit@.len(),
            forall|j: int| 0 <= j < k ==> u@[s + j] == lit@[j],
        decreases lit@.len() - k,
    {
        if u[s + k] != lit[k] {
            assert(u@.subrange(s as int, s + lit@.len())[k as int] != lit@[k as int]);
            return false;
        }
        k = k + 1;
    }
    assert(u@.subrange(s as int, s + lit@.len()) =~= lit@);
    true
}

/// The id pattern's group when it matches at `s`.
fn anime_id_match_at(u: &Vec<char>, s: usize, short: &Vec<char>, long: &Vec<char>) -> (r: Option<(usize, usize)>)
    requires
        short@ == "/anime/"@,
        long@ == "/animes/"@,
    ensures
        match r {
            Some((d, e)) => anime_id_at(u@, s as int, d as int, e as int),
            None => forall|d: int, e: int| !anime_id_at(u@, s as int, d, e),
        },
{
    proof {
        reveal_strlit("/anime/");
        reveal_strlit("/animes/");
    }
    assert(u@.len() == u.len());
    let p: usize;
    let is_short = has_at(u, s, short);
    if is_short {
        p = s + 7;
    } else if has_at(u, s, long) {
        p = s + 8;
    } else {
        return None;
    }
    // `/anime/` and `/animes/` cannot both be at `s`.
    assert(forall|q: int| anime_prefix(u@, s as int, q) ==> q == p) by {
        if is_short {
            assert(u@.subrange(s as int, s + 7)[6] == u@[s + 6]);
            assert(u@[s + 6] == '/');
            if s + 8 <= u@.len() {
                assert(u@.subrange(s as int, s + 8)[6] == u@[s + 6]);
                assert("/animes/"@[6] == 's');
            }
        }
    }
    let d: usize = if p < u.len() && 'a' <= u[p] && u[p] <= 'z' { p + 1 } else { p };
    let mut e = d;
    while e < u.len() && '0' <= u[e] && u[e] <= '9'
        invariant
            d <= e <= u@.len(),
            forall|k: int| d <= k < e ==> is_digit(#[trigger] u@[k]),
        decreases u@.len() - e,
    {
        e = e + 1;
    }
    let ok = e > d && (e == u.len() || u[e] == '-' || u[e] == '/');
    assert forall|d2: int, e2: int| anime_id_at(u@, s as int, d2, e2) implies d2 == d && e2 == e by {
        if d2 == p + 1 && d == p {
            assert(is_digit(u@[d2 - 1]));
        }
        if d2 == p && d == p + 1 {
            assert(is_digit(u@[p as int]));
        }
        assert(d2 == d);
        if e2 < e {
            assert(is_digit(u@[e2]));
        }
        if e2 > e {
            assert(is_digit(u@[e as int]));
        }
    }
    if ok {
        Some((d, e))
    } else {
        None
    }
}

/// Extracts the anime id of a Shikimori or MyAnimeList URL: the group of
/// the first match of `/animes?/(?:[a-z])?([0-9]+)(?:-|$|/)`.
pub fn extract_anime_id(url: &str) -> (r: Result<&str, UtilsError>)
    ensures
        match r {
            Ok(id) => exists|s: int, d: int, e: int|
                first_anime_id(url@, s, d, e) && id@ == url@.subrange(d, e),
            Err(err) => (forall|s: int, d: int, e: int| !anime_id_at(url@, s, d, e)) && err
                == UtilsError::RegexMatch(err->RegexMatch_0) && err->RegexMatch_0@ == "id not found in '"@
                + url@ + "'"@,
        },
{
    let u = chars_of(url);
    let short = chars_of("/anime/");
    let long = chars_of("/animes/");
    let mut s: usize = 0;
    while s < u.len()
        invariant
            short@ == "/anime/"@,
            long@ == "/animes/"@,
            s <= u@.len(),
            u@ == url@,
            forall|s2: int, d2: int, e2: int| s2 < s ==> !anime_id_at(u@, s2, d2, e2),
        decreases u@.len() - s,
    {
        match anime_id_match_at(&u, s, &short, &long) {
            Some((d, e)) => {
                assert(first_anime_id(url@, s as int, d as int, e as int));
                return Ok(url.substring_char(d, e));
            },
            None => {},
        }
        s = s + 1;
    }
    assert forall|s2: int, d2: int, e2: int| !anime_id_at(u@, s2, d2, e2) by {
        if s2 >= s && anime_id_at(u@, s2, d2, e2) {
            assert(anime_prefix(u@, s2, d2) || anime_prefix(u@, s2, d2 - 1));
        }
    }
    let mut msg = String::from_str("id not found in '");
    msg.append(url);
    msg.append("'");
    Err(UtilsError::RegexMatch(msg))
}

} // verus!
