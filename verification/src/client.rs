//! Session and transport policy.
//!
//! The platform's RPC surface is a browser-oriented endpoint with no
//! stability contract, so every call runs under one uniform policy: a fixed
//! browser-like identification header, the session cookie (or an anonymous
//! token), a fixed per-request timeout, and a bounded retry schedule. The
//! functions here are the decision core of that policy; the HTTP calls
//! themselves live with the embedding program.
use vstd::prelude::*;
use vstd::string::*;

use crate::error::WikidotRespondError;
use crate::text;

verus! {

/// Retry and pacing configuration of one session.
#[derive(Clone, Copy, PartialEq, Eq, Structural, Debug)]
pub struct AjaxConfig {
    /// How many retries may follow the first attempt of one call.
    pub attempt_limit: i8,
    /// Seconds between consecutive attempts.
    pub retry_interval: i8,
    /// Bound on concurrently running calls of one phase.
    pub semaphore_limit: i8,
    /// Seconds before one request is abandoned as timed out.
    pub request_timeout: i8,
}

impl Default for AjaxConfig {
    /// The policy used when nothing is configured: five retries, five
    /// seconds apart, five concurrent calls, a one-minute timeout.
    fn default() -> (r: Self)
        ensures
            r == (AjaxConfig { attempt_limit: 5, retry_interval: 5, semaphore_limit: 5, request_timeout: 60 }),
    {
        AjaxConfig { attempt_limit: 5, retry_interval: 5, semaphore_limit: 5, request_timeout: 60 }
    }
}

/// One session against the platform: its retry configuration and, once the
/// login flow has run, its cookie header value.
#[derive(Clone, Debug)]
pub struct AjaxClient {
    pub config: AjaxConfig,
    pub cookies: Option<String>,
}

/// The JSON envelope of one RPC answer: a status tag and a markup body that
/// downstream parsing consumes.
#[derive(Clone, Debug)]
pub struct AjaxResponse {
    pub status: String,
    pub body: String,
}

impl AjaxClient {
    /// A field-true copy of this session.
    pub fn duplicate(&self) -> (r: Self)
        ensures
            r == *self,
    {
        AjaxClient {
            config: self.config,
            cookies: match &self.cookies {
                Some(c) => Some(c.clone()),
                None => None,
            },
        }
    }

    /// An anonymous session under the default policy.
    pub fn new() -> (r: Self)
        ensures
            r.config == (AjaxConfig { attempt_limit: 5, retry_interval: 5, semaphore_limit: 5, request_timeout: 60 }),
            r.cookies is None,
    {
        AjaxClient { config: AjaxConfig::default(), cookies: None }
    }

    /// An authenticated session: the cookie header assembled from the
    /// cookies the login answer carried.
    pub fn from_login_cookies(pairs: &Vec<(String, String)>) -> (r: Self)
        ensures
            r.config == (AjaxConfig { attempt_limit: 5, retry_interval: 5, semaphore_limit: 5, request_timeout: 60 }),
            r.cookies matches Some(c) && c@ == spec_cookie_string(pairs@),
    {
        AjaxClient { config: AjaxConfig::default(), cookies: Some(cookie_header(pairs)) }
    }
}

/// One cookie rendered for the cookie header, with the security-token
/// override applied: the platform never checks the real anti-CSRF token as
/// long as the client sends a fixed sentinel both as this cookie and as a
/// form field, so the sentinel replaces whatever the login answer carried.
pub open spec fn spec_cookie_piece(name: Seq<char>, value: Seq<char>) -> Seq<char> {
    name + "="@ + (if name == "wikidot_token7"@ {
        "123456"@
    } else {
        value
    }) + "; "@
}

/// The cookie header value for a list of cookies, in answer order.
pub open spec fn spec_cookie_string(pairs: Seq<(String, String)>) -> Seq<char>
    decreases pairs.len(),
{
    if pairs.len() == 0 {
        Seq::empty()
    } else {
        spec_cookie_string(pairs.drop_last()) + spec_cookie_piece(
            pairs.last().0@,
            pairs.last().1@,
        )
    }
}

/// Renders the cookie header for a login answer's cookies, overriding the
/// security-token cookie with the fixed sentinel value.
pub fn cookie_header(pairs: &Vec<(String, String)>) -> (r: String)
    ensures
        r@ == spec_cookie_string(pairs@),
{
    let mut out = String::new();
    let mut i: usize = 0;
    while i < pairs.len()
        invariant
            0 <= i <= pairs@.len(),
            out@ == spec_cookie_string(pairs@.subrange(0, i as int)),
        decreases pairs@.len() - i,
    {
        let ghost prefix = pairs@.subrange(0, i as int);
        out.append(pairs[i].0.as_str());
        out.append("=");
        if text::str_eq(pairs[i].0.as_str(), "wikidot_token7") {
            out.append("123456");
        } else {
            out.append(pairs[i].1.as_str());
        }
        out.append("; ");
        proof {
            assert(pairs@.subrange(0, i + 1).drop_last() =~= prefix);
            assert(pairs@.subrange(0, i + 1).last() == pairs@[i as int]);
            assert(out@ =~= spec_cookie_string(pairs@.subrange(0, i + 1)));
        }
        i += 1;
    }
    proof {
        assert(pairs@.subrange(0, pairs@.len() as int) =~= pairs@);
    }
    out
}

/// The anonymous cookie header: only the sentinel security token.
pub fn default_cookie() -> (r: String)
    ensures
        r@ == "wikidot_token7=123456"@,
{
    let mut s = String::new();
    s.append("wikidot_token7=123456");
    proof {
        assert(s@ =~= "wikidot_token7=123456"@);
    }
    s
}

/// The form fields of the login flow.
pub fn login_params(username: &str, password: &str) -> (r: Vec<(String, String)>)
    ensures
        r@.len() == 4,
        r@[0].0@ == "login"@ && r@[0].1@ == username@,
        r@[1].0@ == "password"@ && r@[1].1@ == password@,
        r@[2].0@ == "action"@ && r@[2].1@ == "Login2Action"@,
        r@[3].0@ == "event"@ && r@[3].1@ == "login"@,
{
    let mut v: Vec<(String, String)> = Vec::new();
    v.push((String::from_str("login"), username.to_owned()));
    v.push((String::from_str("password"), password.to_owned()));
    v.push((String::from_str("action"), String::from_str("Login2Action")));
    v.push((String::from_str("event"), String::from_str("login")));
    v
}

/// Prepends the two fields every RPC call must carry: the callback index
/// and the sentinel security token that stands in for the anti-CSRF cookie.
pub fn rpc_params(param: &Vec<(String, String)>) -> (r: Vec<(String, String)>)
    ensures
        r@.len() == param@.len() + 2,
        r@[0].0@ == "callbackIndex"@ && r@[0].1@ == "0"@,
        r@[1].0@ == "wikidot_token7"@ && r@[1].1@ == "123456"@,
        forall|i: int|
            0 <= i < param@.len() ==> r@[i + 2].0@ == param@[i].0@ && r@[i + 2].1@
                == param@[i].1@,
{
    let mut v: Vec<(String, String)> = Vec::new();
    v.push((String::from_str("callbackIndex"), String::from_str("0")));
    v.push((String::from_str("wikidot_token7"), String::from_str("123456")));
    let mut i: usize = 0;
    while i < param.len()
        invariant
            0 <= i <= param@.len(),
            v@.len() == i + 2,
            v@[0].0@ == "callbackIndex"@ && v@[0].1@ == "0"@,
            v@[1].0@ == "wikidot_token7"@ && v@[1].1@ == "123456"@,
            forall|j: int|
                0 <= j < i ==> v@[j + 2].0@ == param@[j].0@ && v@[j + 2].1@ == param@[j].1@,
        decreases param@.len() - i,
    {
        v.push((param[i].0.clone(), param[i].1.clone()));
        i += 1;
    }
    v
}

/// Classifies an HTTP answer's status code: the two codes the platform uses
/// to signal transient overload are failures worth retrying, anything else
/// is handed on.
pub fn classify_status(code: u16) -> (r: Result<(), WikidotRespondError>)
    ensures
        r == (if code == 408 || code == 502 {
            Result::<(), WikidotRespondError>::Err(WikidotRespondError::Status(code))
        } else {
            Result::<(), WikidotRespondError>::Ok(())
        }),
{
    if code == 408 || code == 502 {
        Err(WikidotRespondError::Status(code))
    } else {
        Ok(())
    }
}

/// How an RPC envelope is classified: a "try again" status tag and an empty
/// body are both retryable failures, everything else is accepted.
pub open spec fn spec_classify_payload(status: Seq<char>, body: Seq<char>) -> Result<
    (),
    WikidotRespondError,
> {
    if status == "try_again"@ {
        Err(WikidotRespondError::TryAgain)
    } else if body.len() == 0 {
        Err(WikidotRespondError::Empty)
    } else {
        Ok(())
    }
}

/// Classifies an RPC envelope by its status tag and body.
pub fn classify_payload(status: &str, body: &str) -> (r: Result<(), WikidotRespondError>)
    ensures
        r == spec_classify_payload(status@, body@),
{
    if text::str_eq(status, "try_again") {
        Err(WikidotRespondError::TryAgain)
    } else if body.is_empty() {
        Err(WikidotRespondError::Empty)
    } else {
        Ok(())
    }
}

/// The retry decision after one attempt: retry exactly when the attempt
/// failed and fewer than `attempt_limit` retries have run so far.
pub fn retry_decision(retries_done: i8, attempt_limit: i8, ok: bool) -> (retry: bool)
    ensures
        retry == (!ok && retries_done < attempt_limit),
{
    !ok && retries_done < attempt_limit
}

/// Walks a schedule of attempt outcomes under the retry policy and returns
/// `(surfaced, calls)`: the index of the attempt whose outcome is surfaced
/// to the caller, and how many calls were made. The surfaced attempt is the
/// first success, or attempt `attempt_limit` (the last allowed attempt)
/// when every attempt up to the limit failed.
pub fn retry_surfaced_index(ok_flags: &Vec<bool>, attempt_limit: usize) -> (r: (usize, usize))
    requires
        attempt_limit + 1 <= ok_flags@.len(),
    ensures
        r.1 == r.0 + 1,
        r.0 <= attempt_limit,
        forall|j: int| 0 <= j < r.0 ==> !ok_flags@[j],
        ok_flags@[r.0 as int] || r.0 == attempt_limit,
{
    let n = ok_flags.len();
    let mut i: usize = 0;
    while i < attempt_limit
        invariant
            0 <= i <= attempt_limit,
            attempt_limit < n == ok_flags@.len(),
            forall|j: int| 0 <= j < i ==> !ok_flags@[j],
        decreases attempt_limit - i,
    {
        if ok_flags[i] {
            return (i, i + 1);
        }
        i += 1;
    }
    (attempt_limit, attempt_limit + 1)
}

/// Retry exhaustion: when every attempt up to the limit fails, the policy
/// surfaces the outcome of the last allowed attempt, after exactly
/// `attempt_limit` retries (`attempt_limit + 1` calls in all).
pub proof fn lemma_retry_exhaustion(flags: Seq<bool>, attempt_limit: int, surfaced: int)
    requires
        0 <= surfaced <= attempt_limit,
        flags[surfaced] || surfaced == attempt_limit,
        forall|j: int| 0 <= j <= attempt_limit ==> !flags[j],
    ensures
        surfaced == attempt_limit,
        !flags[surfaced],
{
}

} // verus!
