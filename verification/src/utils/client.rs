//! What the HTTP client sends and how it retries: the browser-like headers,
//! the user agent, and the back-off on "429 Too Many Requests".

use vstd::prelude::*;

use crate::utils::agents::builtin_user_agents;
use crate::utils::error::UtilsError;

verus! {

/// How many times a request is sent before the last, unconditional send.
pub const MAX_ATTEMPTS: u8 = 5;

/// The status that asks the client to slow down.
pub const TOO_MANY_REQUESTS: u16 = 429;

/// The longest wait between two sends, in seconds.
pub const MAX_WAIT_SECS: u64 = 60;

/// `2^n`.
pub open spec fn pow2(n: nat) -> nat
    decreases n,
{
    if n == 0 { 1 } else { 2 * pow2((n - 1) as nat) }
}

/// The wait after send number `attempt` was refused: `2^attempt` seconds,
/// at most a minute.
pub open spec fn backoff(attempt: nat) -> nat {
    if pow2(attempt) < MAX_WAIT_SECS { pow2(attempt) } else { MAX_WAIT_SECS as nat }
}

/// What the client does after a response.
#[derive(Debug, Clone, Copy, PartialEq, Eq, Structural)]
pub enum RetryStep {
    /// Hand the response to the caller.
    Return,
    /// Wait this many seconds, then send the request again.
    Retry { wait_secs: u64 },
}

/// The wait after send number `attempt` was refused.
pub fn backoff_secs(attempt: u8) -> (secs: u64)
    ensures
        secs == backoff(attempt as nat),
{
    let mut p: u64 = 1;
    let mut i: u8 = 0;
    while i < attempt && p < MAX_WAIT_SECS
        invariant
            i <= attempt,
            p == pow2(i as nat),
            p <= 2 * MAX_WAIT_SECS,
        decreases attempt - i,
    {
        p = p * 2;
        i = i + 1;
    }
    if i < attempt {
        proof {
            lemma_pow2_monotone(i as nat, attempt as nat);
        }
    }
    if p < MAX_WAIT_SECS { p } else { MAX_WAIT_SECS }
}

/// What follows send number `attempt` (counted from 1) that got `status`.
pub open spec fn retry_step(attempt: nat, status: u16) -> RetryStep {
    if status == TOO_MANY_REQUESTS && attempt <= MAX_ATTEMPTS {
        RetryStep::Retry { wait_secs: backoff(attempt) as u64 }
    } else {
        RetryStep::Return
    }
}

/// Decides what follows send number `attempt` (counted from 1) that got
/// `status`: a refused send among the first `MAX_ATTEMPTS` is retried after
/// the back-off; any other response, and the response to the last send,
/// goes to the caller.
pub fn after_response(attempt: u8, status: u16) -> (step: RetryStep)
    ensures
        step == retry_step(attempt as nat, status),
        status != 429 ==> step == RetryStep::Return,
        attempt > 5 ==> step == RetryStep::Return,
        status == 429 && attempt <= 5 ==> (step matches RetryStep::Retry { wait_secs } && 1
            <= wait_secs <= 60),
{
    proof {
        lemma_only_429_is_retried(attempt as nat, status);
        lemma_backoff_monotone_and_capped(attempt as nat, attempt as nat);
    }
    if status == TOO_MANY_REQUESTS && attempt <= MAX_ATTEMPTS {
        RetryStep::Retry { wait_secs: backoff_secs(attempt) }
    } else {
        RetryStep::Return
    }
}

/// Only "429 Too Many Requests" is ever answered by waiting and sending
/// again, and only after one of the first five sends: any other status, at
/// any send, and any status after the fifth send, hands the response to the
/// caller.
pub proof fn lemma_only_429_is_retried(attempt: nat, status: u16)
    ensures
        status != 429 ==> retry_step(attempt, status) == RetryStep::Return,
        attempt > 5 ==> retry_step(attempt, status) == RetryStep::Return,
        status == 429 && attempt <= 5 ==> retry_step(attempt, status) is Retry,
{
}

/// How many sends a request takes from send number `attempt` on, when the
/// responses have the statuses `statuses` in turn.
pub open spec fn sends_from(attempt: nat, statuses: Seq<u16>) -> nat
    decreases statuses.len(),
{
    if statuses.len() == 0 {
        0
    } else {
        match retry_step(attempt, statuses[0]) {
            RetryStep::Return => 1,
            RetryStep::Retry { .. } => 1 + sends_from(attempt + 1, statuses.drop_first()),
        }
    }
}

/// Whatever the server answers, a request is sent at most
/// `MAX_ATTEMPTS + 1` times.
pub proof fn lemma_sends_are_bounded(statuses: Seq<u16>)
    ensures
        sends_from(1, statuses) <= MAX_ATTEMPTS + 1,
{
    lemma_sends_from(1, statuses);
}

proof fn lemma_sends_from(attempt: nat, statuses: Seq<u16>)
    requires
        1 <= attempt <= MAX_ATTEMPTS + 1,
    ensures
        sends_from(attempt, statuses) <= MAX_ATTEMPTS + 2 - attempt,
    decreases statuses.len(),
{
    if statuses.len() > 0 && attempt <= MAX_ATTEMPTS {
        lemma_sends_from(attempt + 1, statuses.drop_first());
    }
}

/// The wait never shrinks from one refused send to the next, and is
/// between one second and a minute.
pub proof fn lemma_backoff_monotone_and_capped(a: nat, b: nat)
    requires
        a <= b,
    ensures
        1 <= backoff(a) <= backoff(b) <= MAX_WAIT_SECS,
{
    lemma_pow2_monotone(a, b);
    lemma_pow2_positive(a);
}

proof fn lemma_pow2_positive(n: nat)
    ensures
        pow2(n) >= 1,
    decreases n,
{
    if n > 0 {
        lemma_pow2_positive((n - 1) as nat);
    }
}

proof fn lemma_pow2_monotone(a: nat, b: nat)
    requires
        a <= b,
    ensures
        pow2(a) <= pow2(b),
    decreases b,
{
    if a < b {
        lemma_pow2_monotone(a, (b - 1) as nat);
        lemma_pow2_positive((b - 1) as nat);
    }
}

/// A browser user agent that can stand as a header value: it starts with
/// `Mozilla/5.0 (` and holds only printable ASCII (space to `~`).
pub open spec fn is_browser_user_agent(ua: Seq<char>) -> bool {
    &&& ua.len() >= 13
    &&& ua.subrange(0, 13) == "Mozilla/5.0 ("@
    &&& forall|k: int| 0 <= k < ua.len() ==> ' ' <= #[trigger] ua[k] && ua[k] <= '~'
}

/// `ua_generator::ua::all_static_agents`: the built-in list of real user
/// agents. Trusted: the list holds exactly `builtin_user_agents()`, in that
/// order (the chained constant lists of `ua_generator`'s source; the crate
/// is built without its `fetch` feature, so its build script never rewrites
/// them), and each entry is a browser
/// user agent in the sense of `is_browser_user_agent`.
#[verifier::external_body]
fn static_agents() -> (agents: &'static Vec<&'static str>)
    ensures
        agents@.len() == builtin_user_agents().len(),
        forall|i: int| 0 <= i < agents@.len() ==> #[trigger] agents@[i]@ == builtin_user_agents()[i],
        forall|i: int| 0 <= i < agents@.len() ==> is_browser_user_agent(#[trigger] agents@[i]@),
{
    ua_generator::ua::all_static_agents()
}

/// `fastrand::usize(..bound)`, through `ua_generator`'s re-export. Trusted:
/// a number below `bound`; which one is left to chance.
#[verifier::external_body]
fn random_below(bound: usize) -> (i: usize)
    requires
        bound > 0,
    ensures
        i < bound,
{
    ua_generator::fastrand::usize(..bound)
}

/// The user agent at position `index` of `agents`.
pub fn pick_user_agent(agents: &Vec<&'static str>, index: usize) -> (ua: &'static str)
    requires
        index < agents@.len(),
    ensures
        ua == agents@[index as int],
{
    agents[index]
}

/// A user agent drawn at random from `ua_generator`'s built-in list: one of
/// `builtin_user_agents()`, a browser user agent that can stand as a header
/// value.
pub fn random_user_agent() -> (ua: &'static str)
    ensures
        exists|i: int| 0 <= i < builtin_user_agents().len() && ua@ == #[trigger] builtin_user_agents()[i],
        is_browser_user_agent(ua@),
{
    let agents = static_agents();
    proof {
        lemma_builtin_user_agents_not_empty();
    }
    let i = random_below(agents.len());
    let ua = pick_user_agent(agents, i);
    assert(ua@ == builtin_user_agents()[i as int]);
    ua
}

proof fn lemma_builtin_user_agents_not_empty()
    ensures
        builtin_user_agents().len() > 0,
{
}

/// `headers` are the browser-like headers with `user_agent`, as (name,
/// value) pairs in the order they are set.
pub open spec fn is_browser_header_list(headers: Seq<(&str, &str)>, user_agent: Seq<char>) -> bool {
    &&& headers.len() == 7
    &&& headers[0].0@ == "user-agent"@ && headers[0].1@ == user_agent
    &&& headers[1].0@ == "accept-language"@ && headers[1].1@ == "en-US,en;q=0.9"@
    &&& headers[2].0@ == "dnt"@ && headers[2].1@ == "1"@
    &&& headers[3].0@ == "sec-gpc"@ && headers[3].1@ == "1"@
    &&& headers[4].0@ == "upgrade-insecure-requests"@ && headers[4].1@ == "1"@
    &&& headers[5].0@ == "sec-fetch-dest"@ && headers[5].1@ == "document"@
    &&& headers[6].0@ == "sec-fetch-mode"@ && headers[6].1@ == "navigate"@
}

/// The headers of a browser-like request, as (name, value) pairs in the
/// order they are set.
pub fn browser_headers(user_agent: &'static str) -> (headers: Vec<(&'static str, &'static str)>)
    ensures
        is_browser_header_list(headers@, user_agent@),
        headers@[0].1 == user_agent,
{
    let mut headers: Vec<(&'static str, &'static str)> = Vec::new();
    headers.push(("user-agent", user_agent));
    headers.push(("accept-language", "en-US,en;q=0.9"));
    headers.push(("dnt", "1"));
    headers.push(("sec-gpc", "1"));
    headers.push(("upgrade-insecure-requests", "1"));
    headers.push(("sec-fetch-dest", "document"));
    headers.push(("sec-fetch-mode", "navigate"));
    headers
}

/// A text that `http`'s `HeaderValue::from_str` accepts: each byte of its
/// UTF-8 form is a tab, or a space or above other than DEL. So each
/// character is a tab, or a space or above other than DEL (the bytes of a
/// character past ASCII are all above DEL).
pub open spec fn is_header_value(s: Seq<char>) -> bool {
    forall|k: int| 0 <= k < s.len() ==> #[trigger] s[k] == '\t' || (' ' <= s[k] && s[k] != '\x7f')
}

/// Calls `reqwest::header::HeaderValue::from_str` (the `http` crate's) and
/// keeps its error. Trusted: the call fails exactly when `value` is not
/// `is_header_value`.
#[verifier::external_body]
fn check_header_value(value: &str) -> (r: Result<(), reqwest::header::InvalidHeaderValue>)
    ensures
        r is Ok <==> is_header_value(value@),
{
    match reqwest::header::HeaderValue::from_str(value) {
        Ok(_) => Ok(()),
        Err(e) => Err(e),
    }
}

/// The headers of a request: the browser-like headers, the `Host` header,
/// and the `Cookie` header, which is sent as sensitive.
#[derive(Debug)]
pub struct RequestHeaders<'a> {
    pub common: Vec<(&'static str, &'static str)>,
    pub host: &'a str,
    pub cookie: Option<&'a str>,
}

/// Builds the headers of a request: the browser-like headers with a user
/// agent drawn from the built-in list, `host` for the `Host` header and,
/// where given, `with_cookie` for the `Cookie` header, marked sensitive.
/// Fails with `InvalidHeaderValue` where `host`, or the cookie, cannot
/// stand as a header value.
pub fn build_headers<'a>(host: &'a str, with_cookie: Option<&'a str>) -> (r: Result<
    RequestHeaders<'a>,
    UtilsError,
>)
    ensures
        r is Ok <==> is_header_value(host@) && (with_cookie matches Some(c) ==> is_header_value(c@)),
        r matches Ok(h) ==> {
            &&& h.host == host
            &&& h.cookie == with_cookie
            &&& exists|i: int|
                0 <= i < builtin_user_agents().len() && is_browser_header_list(
                    h.common@,
                    #[trigger] builtin_user_agents()[i],
                )
        },
        r matches Err(e) ==> e is InvalidHeaderValue,
{
    match check_header_value(host) {
        Ok(()) => {},
        Err(e) => {
            return Err(UtilsError::InvalidHeaderValue(e));
        },
    }
    match with_cookie {
        Some(c) => match check_header_value(c) {
            Ok(()) => {},
            Err(e) => {
                return Err(UtilsError::InvalidHeaderValue(e));
            },
        },
        None => {},
    }
    let common = browser_headers(random_user_agent());
    Ok(RequestHeaders { common, host, cookie: with_cookie })
}

} // verus!
