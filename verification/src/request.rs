//! The request executor: what is sent, and what follows from each attempt.
//!
//! A request is sent up to six times. A transport failure and the statuses
//! 429, 502 and 503 are retried after a delay that starts at 100 ms and
//! doubles with every retry; any other outcome ends the request at once.

use crate::error::Error;
use crate::json::Json;
use crate::time::Span;
use crate::url::{request_url, url_of, DEFAULT_BASE_URL};
use vstd::prelude::*;

verus! {

/// How often a failed request is sent again.
pub const MAX_RETRIES: u32 = 5;

/// The delay before the first retry, in milliseconds.
pub const INITIAL_BACKOFF_MILLIS: u64 = 100;

/// A request to send: its method, its address and its headers in order.
#[derive(Clone, Debug, PartialEq, Eq)]
pub struct HttpRequest {
    pub method: String,
    pub url: String,
    pub headers: Vec<(String, String)>,
}

/// An `HttpRequest` as texts.
pub struct HttpRequestView {
    pub method: Seq<char>,
    pub url: Seq<char>,
    pub headers: Seq<(Seq<char>, Seq<char>)>,
}

impl View for HttpRequest {
    type V = HttpRequestView;

    open spec fn view(&self) -> HttpRequestView {
        HttpRequestView {
            method: self.method@,
            url: self.url@,
            headers: self.headers@.map_values(|header: (String, String)| (header.0@, header.1@)),
        }
    }
}

/// The headers of a request: the credential under `x-api-key` where one is
/// configured, then `Accept: application/json`.
pub open spec fn headers_of(api_key: Option<Seq<char>>) -> Seq<(Seq<char>, Seq<char>)> {
    match api_key {
        Some(key) => seq![("x-api-key"@, key), ("Accept"@, "application/json"@)],
        None => seq![("Accept"@, "application/json"@)],
    }
}

/// What one attempt to send the request came to.
#[derive(Debug, PartialEq, Eq)]
pub enum Attempt {
    /// No response came: the transport failed.
    Transport { message: String },
    /// A response with a success status, whose body is this document.
    Success { document: Json },
    /// A response with a success status, whose body is no document.
    Malformed { message: String },
    /// A response with any other status, and the text of its body.
    Failure { status: u16, body: String },
}

/// What to do after an attempt.
#[derive(Debug, PartialEq, Eq)]
pub enum Step {
    /// Sleep for `delay`, send the request again, and report to `state`.
    Retry { state: Retry, delay: Span },
    /// The request is over, with this result.
    Done { result: Result<Json, Error> },
}

/// Whether a status counts as success: 200 to 299.
pub open spec fn success_status(status: u16) -> bool {
    200 <= status <= 299
}

/// Whether a status is worth another attempt: 429, 502 and 503.
pub open spec fn retryable_status(status: u16) -> bool {
    status == 429 || status == 502 || status == 503
}

/// Whether an attempt is worth another one: a transport failure, and a
/// response with a retryable status.
pub open spec fn retryable(attempt: Attempt) -> bool {
    match attempt {
        Attempt::Transport { .. } => true,
        Attempt::Failure { status, .. } => retryable_status(status),
        _ => false,
    }
}

/// The delay before the retry that follows `failures` earlier retries, in
/// milliseconds: 100, doubled once for each of them.
pub open spec fn backoff_millis(failures: nat) -> nat
    decreases failures,
{
    if failures == 0 {
        100
    } else {
        2 * backoff_millis((failures - 1) as nat)
    }
}

/// The result that ends the request when `attempt` is not retried.
pub open spec fn final_result(attempt: Attempt) -> Result<Json, Error> {
    match attempt {
        Attempt::Success { document } => Ok(document),
        Attempt::Malformed { message } => Err(Error::ResponseParse { message }),
        Attempt::Transport { message } => Err(Error::Network { message }),
        Attempt::Failure { status, body } => if status == 404 {
            Err(Error::UpstreamNotFound { body })
        } else if status == 429 {
            Err(Error::UpstreamRateLimited { body })
        } else if status == 502 || status == 503 {
            Err(Error::UpstreamServerError { status, body })
        } else {
            Err(Error::UpstreamOther { status, body })
        },
    }
}

/// Whether `attempt` is retried after `failures` earlier retries: it is
/// retryable, and fewer than five retries were made.
pub open spec fn retried(failures: nat, attempt: Attempt) -> bool {
    retryable(attempt) && failures < MAX_RETRIES
}

/// Whether a status counts as success: 200 to 299.
pub fn is_success(status: u16) -> (success: bool)
    ensures
        success == success_status(status),
{
    200 <= status && status <= 299
}

/// Whether a status is worth another attempt: 429, 502 and 503.
pub fn is_retryable(status: u16) -> (again: bool)
    ensures
        again == retryable_status(status),
{
    status == 429 || status == 502 || status == 503
}

/// The progress of one request through its attempts.
#[derive(Debug, PartialEq, Eq)]
pub struct Retry {
    failures: u32,
    delay_millis: u64,
}

impl Retry {
    #[verifier::type_invariant]
    spec fn well_formed(self) -> bool {
        &&& self.failures <= MAX_RETRIES
        &&& self.delay_millis == backoff_millis(self.failures as nat)
    }

    /// The retries made so far.
    pub closed spec fn failures(self) -> nat {
        self.failures as nat
    }

    /// The state before the first attempt.
    pub fn new() -> (state: Retry)
        ensures
            state.failures() == 0,
    {
        Retry { failures: 0, delay_millis: INITIAL_BACKOFF_MILLIS }
    }

    /// The retries made so far.
    pub fn retries(&self) -> (count: u32)
        ensures
            count == self.failures(),
            count <= MAX_RETRIES,
    {
        proof {
            use_type_invariant(self);
        }
        self.failures
    }

    /// Decides what follows an attempt. A retryable attempt is retried while
    /// fewer than five retries were made, after the delay that is due; any
    /// other attempt, and a retryable one after the fifth retry, ends the
    /// request: with the document on success, else with the error that names
    /// what happened.
    pub fn on_attempt(self, attempt: Attempt) -> (step: Step)
        ensures
            retried(self.failures(), attempt) ==> (step matches Step::Retry { state, delay }
                && state.failures() == self.failures() + 1 && delay.as_nanos() == backoff_millis(
                self.failures(),
            ) * 1_000_000),
            !retried(self.failures(), attempt) ==> step == (Step::Done {
                result: final_result(attempt),
            }),
    {
        proof {
            use_type_invariant(&self);
            lemma_backoff_bound(self.failures as nat);
        }
        match attempt {
            Attempt::Success { document } => Step::Done { result: Ok(document) },
            Attempt::Malformed { message } => Step::Done {
                result: Err(Error::ResponseParse { message }),
            },
            Attempt::Transport { message } => {
                if self.failures < MAX_RETRIES {
                    let delay = Span::from_millis(self.delay_millis);
                    Step::Retry {
                        state: Retry {
                            failures: self.failures + 1,
                            delay_millis: 2 * self.delay_millis,
                        },
                        delay,
                    }
                } else {
                    Step::Done { result: Err(Error::Network { message }) }
                }
            },
            Attempt::Failure { status, body } => {
                if is_retryable(status) {
                    if self.failures < MAX_RETRIES {
                        let delay = Span::from_millis(self.delay_millis);
                        Step::Retry {
                            state: Retry {
                                failures: self.failures + 1,
                                delay_millis: 2 * self.delay_millis,
                            },
                            delay,
                        }
                    } else if status == 429 {
                        Step::Done { result: Err(Error::UpstreamRateLimited { body }) }
                    } else {
                        Step::Done { result: Err(Error::UpstreamServerError { status, body }) }
                    }
                } else if status == 404 {
                    Step::Done { result: Err(Error::UpstreamNotFound { body }) }
                } else {
                    Step::Done { result: Err(Error::UpstreamOther { status, body }) }
                }
            },
        }
    }
}

/// The delays that can fall due are at most 3200 ms.
proof fn lemma_backoff_bound(failures: nat)
    requires
        failures <= MAX_RETRIES,
    ensures
        backoff_millis(failures) <= 3200,
{
    reveal_with_fuel(backoff_millis, 6);
}

/// How a request ends over a series of attempts, the first of which follows
/// `failures` retries: with the result of the first attempt that is not
/// retried. `None` where the series runs out before that.
pub open spec fn outcome(failures: nat, attempts: Seq<Attempt>) -> Option<Result<Json, Error>>
    decreases attempts.len(),
{
    if attempts.len() == 0 {
        None
    } else if retried(failures, attempts[0]) {
        outcome(failures + 1, attempts.drop_first())
    } else {
        Some(final_result(attempts[0]))
    }
}

/// The time slept over a series of attempts, the first of which follows
/// `failures` retries, in milliseconds: the delays of the retries made.
pub open spec fn slept_millis(failures: nat, attempts: Seq<Attempt>) -> nat
    decreases attempts.len(),
{
    if attempts.len() == 0 {
        0
    } else if retried(failures, attempts[0]) {
        backoff_millis(failures) + slept_millis(failures + 1, attempts.drop_first())
    } else {
        0
    }
}

/// How many attempts of a series are made, the first of which follows
/// `failures` retries: those up to the first that is not retried.
pub open spec fn attempts_made(failures: nat, attempts: Seq<Attempt>) -> nat
    decreases attempts.len(),
{
    if attempts.len() == 0 {
        0
    } else if retried(failures, attempts[0]) {
        1 + attempts_made(failures + 1, attempts.drop_first())
    } else {
        1
    }
}

/// A request ends with its sixth attempt at the latest, whatever the
/// attempts come to, and has by then slept for 3100 ms at most.
pub proof fn lemma_request_is_bounded(attempts: Seq<Attempt>)
    requires
        attempts.len() >= MAX_RETRIES + 1,
    ensures
        outcome(0, attempts) is Some,
        attempts_made(0, attempts) <= MAX_RETRIES + 1,
        slept_millis(0, attempts) <= 3100,
{
    lemma_bounded_from(0, attempts);
    reveal_with_fuel(backoff_millis, 7);
}

/// After `failures` retries a request ends within the attempts that are
/// left, and sleeps no longer than the delays that are left add up to.
proof fn lemma_bounded_from(failures: nat, attempts: Seq<Attempt>)
    requires
        failures <= MAX_RETRIES,
        attempts.len() >= MAX_RETRIES + 1 - failures,
    ensures
        outcome(failures, attempts) is Some,
        attempts_made(failures, attempts) <= MAX_RETRIES + 1 - failures,
        slept_millis(failures, attempts) + backoff_millis(failures) <= backoff_millis(
            MAX_RETRIES as nat,
        ),
    decreases attempts.len(),
{
    reveal_with_fuel(backoff_millis, 7);
    if retried(failures, attempts[0]) {
        lemma_bounded_from(failures + 1, attempts.drop_first());
    }
}

/// A request whose first attempt is answered with 404 ends there, with the
/// error that names it: no retry is made and no time is slept.
pub proof fn lemma_not_found_is_final(attempts: Seq<Attempt>, body: String)
    requires
        attempts.len() > 0,
        attempts[0] == (Attempt::Failure { status: 404, body }),
    ensures
        outcome(0, attempts) == Some(Err::<Json, Error>(Error::UpstreamNotFound { body })),
        attempts_made(0, attempts) == 1,
        slept_millis(0, attempts) == 0,
{
}

/// A request whose first `retries` attempts are retryable, five at most, and
/// whose next attempt succeeds ends with the document of that attempt, after
/// `retries + 1` attempts, and has slept for the delays of its retries:
/// 100 ms, 200 ms and so on, each double the one before.
pub proof fn lemma_success_after_retries(attempts: Seq<Attempt>, retries: nat, document: Json)
    requires
        retries <= MAX_RETRIES,
        attempts.len() > retries,
        forall|i: int| 0 <= i < retries ==> retryable(#[trigger] attempts[i]),
        attempts[retries as int] == (Attempt::Success { document }),
    ensures
        outcome(0, attempts) == Some(Ok::<Json, Error>(document)),
        attempts_made(0, attempts) == retries + 1,
        slept_millis(0, attempts) + 100 == backoff_millis(retries),
{
    lemma_success_from(0, attempts, retries, document);
}

/// The same, for a request that has `failures` retries behind it.
proof fn lemma_success_from(failures: nat, attempts: Seq<Attempt>, retries: nat, document: Json)
    requires
        failures + retries <= MAX_RETRIES,
        attempts.len() > retries,
        forall|i: int| 0 <= i < retries ==> retryable(#[trigger] attempts[i]),
        attempts[retries as int] == (Attempt::Success { document }),
    ensures
        outcome(failures, attempts) == Some(Ok::<Json, Error>(document)),
        attempts_made(failures, attempts) == retries + 1,
        slept_millis(failures, attempts) + backoff_millis(failures) == backoff_millis(
            failures + retries,
        ),
    decreases retries,
{
    if retries > 0 {
        let rest = attempts.drop_first();
        assert forall|i: int| 0 <= i < retries - 1 implies retryable(#[trigger] rest[i]) by {
            assert(rest[i] == attempts[i + 1]);
        }
        assert(rest[retries - 1] == attempts[retries as int]);
        lemma_success_from(failures + 1, rest, (retries - 1) as nat, document);
        assert(backoff_millis(failures + 1) == 2 * backoff_millis(failures));
    }
}

/// Begins a request to `endpoint`: the request to send, and the state to
/// which its attempts are reported. The request is a `GET` of the base (the
/// default where none is given) followed by the endpoint path and, where
/// parameters are given, by `?` and their query string. It carries the
/// credential under `x-api-key` where one is given, and asks for JSON.
pub fn make_request(
    endpoint: &str,
    params: Option<&Json>,
    base_url: Option<&str>,
    api_key: Option<&str>,
) -> (begun: (HttpRequest, Retry))
    ensures
        begun.0@.method == "GET"@,
        begun.0@.url == url_of(
            match base_url {
                Some(base) => base@,
                None => DEFAULT_BASE_URL@,
            },
            endpoint@,
            match params {
                Some(document) => Some(document@),
                None => None,
            },
        ),
        begun.0@.headers == headers_of(
            match api_key {
                Some(key) => Some(key@),
                None => None,
            },
        ),
        begun.1.failures() == 0,
{
    let url = request_url(base_url, endpoint, params);
    let mut headers: Vec<(String, String)> = Vec::new();
    match api_key {
        Some(key) => {
            headers.push((String::from_str("x-api-key"), String::from_str(key)));
        },
        None => {},
    }
    headers.push((String::from_str("Accept"), String::from_str("application/json")));
    let request = HttpRequest { method: String::from_str("GET"), url, headers };
    proof {
        assert(request@.headers =~= headers_of(
            match api_key {
                Some(key) => Some(key@),
                None => None,
            },
        ));
    }
    (request, Retry::new())
}

} // verus!
