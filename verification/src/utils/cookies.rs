//! Lines of a Netscape cookie file (`cookies.txt`): which lines hold a
//! cookie, and the cookie string and URL that each such line gives.

use vstd::prelude::*;

use crate::text::{chars_of, trim_exec, trimmed};
use crate::utils::error::UtilsError;

verus! {

/// `url::Url`, a parsed URL.
#[verifier::external_type_specification]
#[verifier::external_body]
pub struct ExUrl(url::Url);

/// What `url::Url::parse` gives for `input`: the parsed URL, or the
/// message (`Display`) of its error.
pub uninterp spec fn url_parse(input: Seq<char>) -> Result<url::Url, Seq<char>>;

/// Whether `url::Url::parse` accepts `input`.
pub open spec fn url_parses(input: Seq<char>) -> bool {
    url_parse(input) is Ok
}

/// The message of the error of `url::Url::parse` on `input`.
pub open spec fn url_parse_error_text(input: Seq<char>) -> Seq<char> {
    url_parse(input)->Err_0
}

/// A URL parsed with `url::Url::parse`, together with the text it was
/// parsed from.
#[derive(Debug)]
pub struct ParsedUrl {
    url: url::Url,
    source: String,
}

impl ParsedUrl {
    /// The text the URL was parsed from.
    pub closed spec fn source(&self) -> Seq<char> {
        self.source@
    }

    /// Calls `url::Url::parse(&input)` and renders its error with
    /// `Display`. Trusted: the outcome is `url_parse` of the input, and a
    /// parsed URL keeps `input` as its source.
    #[verifier::external_body]
    pub fn parse(input: String) -> (r: Result<ParsedUrl, String>)
        ensures
            r is Ok <==> url_parse(input@) is Ok,
            r matches Ok(u) ==> u.parsed() == url_parse(input@)->Ok_0 && u.source() == input@,
            r matches Err(m) ==> m@ == url_parse(input@)->Err_0,
    {
        match url::Url::parse(&input) {
            Ok(url) => Ok(ParsedUrl { url, source: input }),
            Err(e) => Err(e.to_string()),
        }
    }

    /// The parsed URL.
    pub closed spec fn parsed(&self) -> url::Url {
        self.url
    }

    /// The parsed URL.
    pub fn as_url(&self) -> (u: &url::Url)
        ensures
            *u == self.parsed(),
    {
        &self.url
    }
}

/// The first tab at or after `p`, or the end.
pub open spec fn next_tab(t: Seq<char>, p: int) -> int
    decreases t.len() - p,
{
    if p >= t.len() {
        t.len() as int
    } else if p < 0 {
        next_tab(t, 0)
    } else if t[p] == '\t' {
        p
    } else {
        next_tab(t, p + 1)
    }
}

/// Where field `i` of `t` starts when `t` is split at tabs; past the end
/// when `t` has fewer than `i` tabs.
pub open spec fn field_start(t: Seq<char>, i: nat) -> int
    decreases i,
{
    if i == 0 {
        0
    } else {
        next_tab(t, field_start(t, (i - 1) as nat)) + 1
    }
}

/// Field `i` of `t` (of the first six), split at tabs.
pub open spec fn field(t: Seq<char>, i: nat) -> Seq<char> {
    t.subrange(field_start(t, i), next_tab(t, field_start(t, i)))
}

/// `t` without its leading dots.
pub open spec fn strip_dots(t: Seq<char>) -> Seq<char>
    decreases t.len(),
{
    if t.len() > 0 && t[0] == '.' {
        strip_dots(t.drop_first())
    } else {
        t
    }
}

/// The cookie string of a cookie line's fields: `name=value; Domain=domain`.
pub open spec fn cookie_string(t: Seq<char>) -> Seq<char> {
    field(t, 5) + "="@ + t.subrange(field_start(t, 6), t.len() as int) + "; Domain="@ + field(t, 0)
}

/// The URL of a cookie line's domain: `https://` and the domain without its
/// leading dots.
pub open spec fn cookie_url_text(t: Seq<char>) -> Seq<char> {
    "https://"@ + strip_dots(field(t, 0))
}

/// A cookie read from one line of a cookie file.
#[derive(Debug)]
pub struct NetscapeCookie {
    /// The cookie as a `Set-Cookie` string.
    pub cookie: String,
    /// The URL the cookie belongs to, parsed from its text.
    pub url: ParsedUrl,
}

proof fn lemma_next_tab(t: Seq<char>, p: int)
    requires
        0 <= p,
    ensures
        p <= next_tab(t, p) || (p > t.len() && next_tab(t, p) == t.len()),
        next_tab(t, p) <= t.len(),
        next_tab(t, p) < t.len() ==> t[next_tab(t, p)] == '\t',
        forall|k: int| p <= k < next_tab(t, p) ==> t[k] != '\t',
    decreases t.len() - p,
{
    if p < t.len() && t[p] != '\t' {
        lemma_next_tab(t, p + 1);
    }
}

/// The first tab at or after `p`, or the end.
fn next_tab_exec(u: &Vec<char>, p: usize) -> (r: usize)
    requires
        p <= u@.len(),
    ensures
        r == next_tab(u@, p as int),
{
    let mut k = p;
    while k < u.len() && u[k] != '\t'
        invariant
            p <= k <= u@.len(),
            next_tab(u@, p as int) == next_tab(u@, k as int),
        decreases u@.len() - k,
    {
        k = k + 1;
    }
    k
}

proof fn lemma_field_start_past_end(t: Seq<char>, i: nat, j: nat)
    requires
        i <= j,
        field_start(t, i) > t.len(),
    ensures
        field_start(t, j) > t.len(),
    decreases j - i,
{
    if i < j {
        lemma_field_start_past_end(t, i, (j - 1) as nat);
    }
}

proof fn lemma_strip_dots(t: Seq<char>, d: int)
    requires
        0 <= d <= t.len(),
        forall|k: int| 0 <= k < d ==> t[k] == '.',
        d < t.len() ==> t[d] != '.',
    ensures
        strip_dots(t) == t.skip(d),
    decreases d,
{
    if d > 0 {
        lemma_strip_dots(t.drop_first(), d - 1);
        assert(t.drop_first().skip(d - 1) =~= t.skip(d));
    } else {
        assert(t.skip(0) =~= t);
    }
}

/// Reads one line of a Netscape cookie file. The line is trimmed; an empty
/// line or a comment (`#`) gives no cookie. Otherwise the line is split at
/// tabs into at most seven fields: the first is the domain, the sixth the
/// name and the rest of the line the value. The cookie is
/// `name=value; Domain=domain` and belongs to `https://` and the domain
/// without its leading dots.
pub fn parse_netscape_line(line: &str) -> (r: Result<Option<NetscapeCookie>, UtilsError>)
    ensures
        ({
            let t = trimmed(line@);
            if t.len() == 0 || t[0] == '#' {
                r matches Ok(None)
            } else if field_start(t, 5) > t.len() {
                r matches Err(UtilsError::NotFound(m)) && m@ == "malformed cookie: missing name"@
            } else if field_start(t, 6) > t.len() {
                r matches Err(UtilsError::NotFound(m)) && m@ == "malformed cookie: missing value"@
            } else if !url_parses(cookie_url_text(t)) {
                r matches Err(UtilsError::NotFound(m)) && m@ == "invalid cookie domain '"@
                    + strip_dots(field(t, 0)) + "': "@ + url_parse_error_text(cookie_url_text(t))
            } else {
                r matches Ok(Some(c)) && c.cookie@ == cookie_string(t) && c.url.source()
                    == cookie_url_text(t) && c.url.parsed() == url_parse(cookie_url_text(t))->Ok_0
            }
        }),
{
    let u = chars_of(line);
    let (a, b) = trim_exec(&u);
    let tl = line.substring_char(a, b);
    let t = chars_of(tl);
    assert(t@ == trimmed(line@));
    if t.len() == 0 || t[0] == '#' {
        return Ok(None);
    }
    let mut f: usize = 0;
    let mut i: usize = 0;
    let mut domain_end: usize = 0;
    let mut name_start: usize = 0;
    let mut name_end: usize = 0;
    while i < 6
        invariant
            t@ == trimmed(line@),
            tl@ == t@,
            t@.len() > 0 && t@[0] != '#',
            i <= 6,
            f as int == field_start(t@, i as nat),
            f <= t@.len(),
            i > 0 ==> domain_end as int == next_tab(t@, 0),
            i > 5 ==> name_start as int == field_start(t@, 5) && name_end as int == next_tab(
                t@,
                name_start as int,
            ),
        decreases 6 - i,
    {
        let nt = next_tab_exec(&t, f);
        if i == 0 {
            domain_end = nt;
        }
        if i == 5 {
            name_start = f;
            name_end = nt;
        }
        if nt >= t.len() {
            proof {
                lemma_next_tab(t@, f as int);
                assert(field_start(t@, (i + 1) as nat) == next_tab(t@, field_start(t@, i as nat)) + 1);
                assert(field_start(t@, (i + 1) as nat) > t@.len());
                lemma_field_start_past_end(t@, (i + 1) as nat, 6);
                if i + 1 <= 5 {
                    lemma_field_start_past_end(t@, (i + 1) as nat, 5);
                }
            }
            assert(!(t@.len() == 0 || t@[0] == '#'));
            if i + 1 <= 5 {
                assert(field_start(t@, 5) > t@.len());
                return Err(UtilsError::NotFound(String::from_str("malformed cookie: missing name")));
            } else {
                return Err(UtilsError::NotFound(String::from_str("malformed cookie: missing value")));
            }
        }
        f = nt + 1;
        i = i + 1;
    }
    proof {
        lemma_next_tab(t@, 0);
        lemma_next_tab(t@, name_start as int);
    }
    let domain = tl.substring_char(0, domain_end);
    let key = tl.substring_char(name_start, name_end);
    let value = tl.substring_char(f, t.len());
    let mut d: usize = 0;
    while d < domain_end && t[d] == '.'
        invariant
            d <= domain_end <= t@.len(),
            forall|k: int| 0 <= k < d ==> t@[k] == '.',
        decreases domain_end - d,
    {
        d = d + 1;
    }
    proof {
        lemma_strip_dots(domain@, d as int);
        assert(domain@.skip(d as int) =~= t@.subrange(d as int, domain_end as int));
    }
    let bare_domain = tl.substring_char(d, domain_end);
    let mut url_text = String::from_str("https://");
    url_text.append(bare_domain);
    match ParsedUrl::parse(url_text) {
        Err(e) => {
            let mut msg = String::from_str("invalid cookie domain '");
            msg.append(bare_domain);
            msg.append("': ");
            msg.append(e.as_str());
            Err(UtilsError::NotFound(msg))
        },
        Ok(url) => {
            let mut cookie = String::from_str(key);
            cookie.append("=");
            cookie.append(value);
            cookie.append("; Domain=");
            cookie.append(domain);
            Ok(Some(NetscapeCookie { cookie, url }))
        },
    }
}

} // verus!
