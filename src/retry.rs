//! The decisions of request execution: how each attempt's outcome is
//! classified, when to wait and try again, and which error ends a call.
//! The caller performs the attempts and the waits; every attempt is signed
//! anew.
use vstd::prelude::*;
use crate::error::{ErrorView, S3VectorsError};
use crate::text::{decimal, has_substring, contains_str, push_decimal};
use crate::types::ServiceError;

verus! {

/// Retries allowed after the first attempt.
pub const MAX_RETRIES: u32 = 3;

/// Wait before the first retry, in milliseconds.
pub const INITIAL_BACKOFF_MS: u64 = 100;

/// Ceiling of the wait between attempts, in milliseconds.
pub const MAX_BACKOFF_MS: u64 = 5000;

/// Tunables of the retry policy.
#[derive(Clone, Copy, Debug, PartialEq, Eq, Structural)]
pub struct RetryConfig {
    pub max_retries: u32,
    pub initial_backoff_ms: u64,
    pub max_backoff_ms: u64,
}

impl RetryConfig {
    /// The first wait does not exceed the ceiling.
    pub open spec fn wf(&self) -> bool {
        self.initial_backoff_ms <= self.max_backoff_ms
    }

    /// A policy with the given tunables, if the first wait is within the
    /// ceiling.
    pub fn new(max_retries: u32, initial_backoff_ms: u64, max_backoff_ms: u64) -> (r: Option<Self>)
        ensures
            r is Some <==> initial_backoff_ms <= max_backoff_ms,
            r matches Some(c) ==> c.wf() && c.max_retries == max_retries && c.initial_backoff_ms
                == initial_backoff_ms && c.max_backoff_ms == max_backoff_ms,
    {
        if initial_backoff_ms <= max_backoff_ms {
            Some(RetryConfig { max_retries, initial_backoff_ms, max_backoff_ms })
        } else {
            None
        }
    }
}

impl Default for RetryConfig {
    /// Three retries, waiting 100 ms first, at most 5 s.
    fn default() -> (r: Self)
        ensures
            r.max_retries == MAX_RETRIES,
            r.initial_backoff_ms == INITIAL_BACKOFF_MS,
            r.max_backoff_ms == MAX_BACKOFF_MS,
            r.wf(),
    {
        RetryConfig {
            max_retries: MAX_RETRIES,
            initial_backoff_ms: INITIAL_BACKOFF_MS,
            max_backoff_ms: MAX_BACKOFF_MS,
        }
    }
}

/// Where one logical call stands: retries made so far and the next wait.
#[derive(Clone, Copy, Debug, PartialEq, Eq, Structural)]
pub struct RetryState {
    pub retries: u32,
    pub backoff_ms: u64,
}

impl RetryState {
    /// The state before the first attempt of a call.
    pub fn start(cfg: &RetryConfig) -> (r: Self)
        ensures
            r == initial_state(*cfg),
    {
        RetryState { retries: 0, backoff_ms: cfg.initial_backoff_ms }
    }
}

pub open spec fn initial_state(cfg: RetryConfig) -> RetryState {
    RetryState { retries: 0, backoff_ms: cfg.initial_backoff_ms }
}

/// What one attempt came to.
#[derive(Clone, Debug)]
pub enum Outcome {
    /// The connection failed; no response arrived.
    Transport(String),
    /// A response: its status, its body as text, and the body decoded as a
    /// service error where it is one.
    Response { status: u16, body: String, error: Option<ServiceError> },
}

/// What to do after an attempt.
#[derive(Debug)]
pub enum Step {
    /// The call succeeded: read the body as the expected shape.
    Success,
    /// Wait `wait_ms`, then sign and send again from state `next`.
    Retry { wait_ms: u64, next: RetryState },
    /// The call ends with this error.
    Fail(S3VectorsError),
}

pub enum StepView {
    Success,
    Retry { wait_ms: u64, next: RetryState },
    Fail(ErrorView),
}

impl View for Step {
    type V = StepView;

    open spec fn view(&self) -> StepView {
        match self {
            Step::Success => StepView::Success,
            Step::Retry { wait_ms, next } => StepView::Retry { wait_ms: *wait_ms, next: *next },
            Step::Fail(e) => StepView::Fail(e@),
        }
    }
}

/// The wait after `backoff`: doubled, capped at `ceiling`.
pub open spec fn next_backoff(backoff: u64, ceiling: u64) -> u64 {
    if 2 * backoff <= ceiling {
        (2 * backoff) as u64
    } else {
        ceiling
    }
}

/// Wait the current backoff, then go on with one more retry counted.
pub open spec fn backoff_step(cfg: RetryConfig, st: RetryState) -> StepView {
    StepView::Retry {
        wait_ms: st.backoff_ms,
        next: RetryState {
            retries: (st.retries + 1) as u32,
            backoff_ms: next_backoff(st.backoff_ms, cfg.max_backoff_ms),
        },
    }
}

pub open spec fn is_success_status(status: u16) -> bool {
    200 <= status <= 299
}

pub open spec fn is_server_error_status(status: u16) -> bool {
    500 <= status <= 599
}

/// An error-type tag that names a conflict with an existing resource.
pub open spec fn is_conflict_tag(tag: Seq<char>) -> bool {
    has_substring(tag, "AlreadyExists"@) || has_substring(tag, "ConflictException"@)
}

/// The message of a failure: the decoded one, else the status and raw body.
pub open spec fn failure_message(status: u16, body: Seq<char>, error: Option<ServiceError>) -> Seq<char> {
    match error {
        Some(e) => e.message@,
        None => "Request failed with status "@ + decimal(status as nat) + ": "@ + body,
    }
}

/// The decision after an attempt with outcome `o`, from state `st`.
pub open spec fn next_step_spec(cfg: RetryConfig, st: RetryState, o: Outcome) -> StepView {
    let can_retry = st.retries < cfg.max_retries;
    match o {
        Outcome::Transport(msg) => if can_retry {
            backoff_step(cfg, st)
        } else {
            StepView::Fail(ErrorView::RequestError(msg@))
        },
        Outcome::Response { status, body, error } => {
            if is_success_status(status) {
                StepView::Success
            } else if status == 404 && error is Some {
                StepView::Fail(ErrorView::NotFound(error->0.message@))
            } else if status == 409 && error is Some {
                let e = error->0;
                if e.error_type is Some && is_conflict_tag(e.error_type->0@) {
                    StepView::Fail(ErrorView::AlreadyExists(e.message@))
                } else {
                    StepView::Fail(ErrorView::ServiceError(e.message@))
                }
            } else if status == 429 {
                if can_retry {
                    backoff_step(cfg, st)
                } else {
                    StepView::Fail(ErrorView::RateLimit(st.backoff_ms))
                }
            } else if is_server_error_status(status) && can_retry {
                backoff_step(cfg, st)
            } else {
                StepView::Fail(ErrorView::ServiceError(failure_message(status, body@, error)))
            }
        },
    }
}

fn doubled_backoff(backoff: u64, ceiling: u64) -> (r: u64)
    ensures
        r == next_backoff(backoff, ceiling),
{
    if backoff <= ceiling / 2 {
        backoff * 2
    } else {
        ceiling
    }
}

/// Classifies the outcome of an attempt: success, a wait and another
/// attempt, or the error that ends the call.  Not-found and conflicts end
/// the call at once; rate limiting, server errors and connection failures
/// are retried while retries remain.
pub fn next_step(cfg: &RetryConfig, state: &RetryState, outcome: Outcome) -> (r: Step)
    ensures
        r@ == next_step_spec(*cfg, *state, outcome),
{
    let can_retry = state.retries < cfg.max_retries;
    // the step taken wherever a retry remains
    let retry = Step::Retry {
        wait_ms: state.backoff_ms,
        next: RetryState {
            retries: if can_retry { state.retries + 1 } else { state.retries },
            backoff_ms: doubled_backoff(state.backoff_ms, cfg.max_backoff_ms),
        },
    };
    match outcome {
        Outcome::Transport(msg) => {
            if can_retry {
                retry
            } else {
                Step::Fail(S3VectorsError::RequestError(msg))
            }
        },
        Outcome::Response { status, body, error } => {
            if 200 <= status && status <= 299 {
                return Step::Success;
            }
            match error {
                Some(e) if status == 404 => Step::Fail(S3VectorsError::NotFound(e.message)),
                Some(e) if status == 409 => {
                    let conflict = match &e.error_type {
                        Some(t) => contains_str(t.as_str(), "AlreadyExists") || contains_str(
                            t.as_str(),
                            "ConflictException",
                        ),
                        None => false,
                    };
                    if conflict {
                        Step::Fail(S3VectorsError::AlreadyExists(e.message))
                    } else {
                        Step::Fail(S3VectorsError::ServiceError(e.message))
                    }
                },
                error => {
                    if status == 429 {
                        if can_retry {
                            retry
                        } else {
                            Step::Fail(S3VectorsError::RateLimit(state.backoff_ms))
                        }
                    } else if 500 <= status && status <= 599 && can_retry {
                        retry
                    } else {
                        match error {
                            Some(e) => Step::Fail(S3VectorsError::ServiceError(e.message)),
                            None => {
                                let mut m = String::from_str("Request failed with status ");
                                push_decimal(&mut m, status as u64);
                                m.append(": ");
                                m.append(body.as_str());
                                Step::Fail(S3VectorsError::ServiceError(m))
                            },
                        }
                    }
                },
            }
        },
    }
}

/// The decisions over the outcomes of successive attempts of one call,
/// from state `st`: the step that ends the call, the number of attempts
/// made, and the waits between them; `None` if the outcomes run out first.
pub open spec fn run(cfg: RetryConfig, st: RetryState, outs: Seq<Outcome>) -> Option<
    (StepView, nat, Seq<u64>),
>
    decreases outs.len(),
{
    if outs.len() == 0 {
        None
    } else {
        match next_step_spec(cfg, st, outs[0]) {
            StepView::Retry { wait_ms, next } => match run(cfg, next, outs.drop_first()) {
                Some((last, n, waits)) => Some((last, n + 1, seq![wait_ms] + waits)),
                None => None,
            },
            step => Some((step, 1, Seq::empty())),
        }
    }
}

pub open spec fn has_status(o: Outcome, pred: spec_fn(u16) -> bool) -> bool {
    match o {
        Outcome::Response { status, .. } => pred(status),
        Outcome::Transport(_) => false,
    }
}

/// A rate-limited attempt followed by a successful one: the call succeeds
/// on the second attempt, after one retry and one wait of the initial
/// backoff.
pub proof fn lemma_rate_limit_then_success(cfg: RetryConfig, limited: Outcome, ok: Outcome)
    requires
        cfg.max_retries >= 1,
        has_status(limited, |s: u16| s == 429),
        has_status(ok, |s: u16| is_success_status(s)),
    ensures
        run(cfg, initial_state(cfg), seq![limited, ok]) == Some(
            (StepView::Success, 2nat, seq![cfg.initial_backoff_ms]),
        ),
{
    let outs = seq![limited, ok];
    let next = RetryState {
        retries: 1,
        backoff_ms: next_backoff(cfg.initial_backoff_ms, cfg.max_backoff_ms),
    };
    assert(outs.drop_first() =~= seq![ok]);
    assert(seq![ok].drop_first() =~= Seq::<Outcome>::empty());
    assert(run(cfg, next, seq![ok]) == Some((StepView::Success, 1nat, Seq::<u64>::empty())));
    assert(seq![cfg.initial_backoff_ms] + Seq::<u64>::empty() =~= seq![cfg.initial_backoff_ms]);
}

proof fn lemma_exhaust_from(cfg: RetryConfig, st: RetryState, outs: Seq<Outcome>, rate_limited: bool)
    requires
        st.retries <= cfg.max_retries,
        outs.len() >= cfg.max_retries - st.retries + 1,
        forall|i: int|
            0 <= i <= cfg.max_retries - st.retries ==> if rate_limited {
                has_status(#[trigger] outs[i], |s: u16| s == 429)
            } else {
                has_status(outs[i], |s: u16| is_server_error_status(s))
            },
    ensures
        run(cfg, st, outs) matches Some((StepView::Fail(e), n, _)) && n == cfg.max_retries
            - st.retries + 1 && (if rate_limited {
            e is RateLimit
        } else {
            e is ServiceError
        }),
    decreases cfg.max_retries - st.retries,
{
    assert(has_status(outs[0], |s: u16| s == 429) || has_status(
        outs[0],
        |s: u16| is_server_error_status(s),
    ));
    if st.retries < cfg.max_retries {
        let next = RetryState {
            retries: (st.retries + 1) as u32,
            backoff_ms: next_backoff(st.backoff_ms, cfg.max_backoff_ms),
        };
        assert forall|i: int| 0 <= i <= cfg.max_retries - next.retries implies if rate_limited {
            has_status(#[trigger] outs.drop_first()[i], |s: u16| s == 429)
        } else {
            has_status(outs.drop_first()[i], |s: u16| is_server_error_status(s))
        } by {
            assert(outs.drop_first()[i] == outs[i + 1]);
        }
        lemma_exhaust_from(cfg, next, outs.drop_first(), rate_limited);
    }
}

/// Server errors on every attempt: the call ends in a service error after
/// exactly `max_retries + 1` attempts, however many more outcomes follow.
pub proof fn lemma_server_errors_exhaust_retries(cfg: RetryConfig, outs: Seq<Outcome>)
    requires
        outs.len() >= cfg.max_retries + 1,
        forall|i: int|
            0 <= i <= cfg.max_retries ==> has_status(
                #[trigger] outs[i],
                |s: u16| is_server_error_status(s),
            ),
    ensures
        run(cfg, initial_state(cfg), outs) matches Some((StepView::Fail(e), n, _)) && e is ServiceError
            && n == cfg.max_retries + 1,
{
    lemma_exhaust_from(cfg, initial_state(cfg), outs, false);
}

/// Rate limiting on every attempt: the call ends rate limited after exactly
/// `max_retries + 1` attempts, however many more outcomes follow.
pub proof fn lemma_rate_limits_exhaust_retries(cfg: RetryConfig, outs: Seq<Outcome>)
    requires
        outs.len() >= cfg.max_retries + 1,
        forall|i: int| 0 <= i <= cfg.max_retries ==> has_status(#[trigger] outs[i], |s: u16| s == 429),
    ensures
        run(cfg, initial_state(cfg), outs) matches Some((StepView::Fail(e), n, _)) && e is RateLimit
            && n == cfg.max_retries + 1,
{
    lemma_exhaust_from(cfg, initial_state(cfg), outs, true);
}

/// A not-found response with a decodable error body ends the call at once,
/// with the service's message and no retry.
pub proof fn lemma_not_found_is_final(cfg: RetryConfig, st: RetryState, o: Outcome, rest: Seq<Outcome>)
    requires
        o matches Outcome::Response { status, error: Some(_), .. } && status == 404,
    ensures
        o matches Outcome::Response { error: Some(e), .. } ==> run(cfg, st, seq![o] + rest) == Some(
            (StepView::Fail(ErrorView::NotFound(e.message@)), 1nat, Seq::<u64>::empty()),
        ),
{
    assert((seq![o] + rest)[0] == o);
}

/// A conflict response with a decodable error body: an error type that
/// names an existing resource gives `AlreadyExists`, any other a service
/// error; neither is retried.
pub proof fn lemma_conflict_classification(cfg: RetryConfig, st: RetryState, o: Outcome)
    requires
        o matches Outcome::Response { status, error: Some(_), .. } && status == 409,
    ensures
        o matches Outcome::Response { error: Some(e), .. } ==> {
            &&& (e.error_type matches Some(t) && has_substring(t@, "AlreadyExists"@))
                ==> next_step_spec(cfg, st, o) == StepView::Fail(ErrorView::AlreadyExists(e.message@))
            &&& (e.error_type matches Some(t) && !is_conflict_tag(t@)) ==> next_step_spec(cfg, st, o)
                == StepView::Fail(ErrorView::ServiceError(e.message@))
        },
{
}

/// The waits of a call start at the state's backoff, each is the previous
/// one doubled and capped at the ceiling, and none exceeds the ceiling.
pub proof fn lemma_backoff_doubles_to_ceiling(cfg: RetryConfig, st: RetryState, outs: Seq<Outcome>)
    requires
        st.backoff_ms <= cfg.max_backoff_ms,
    ensures
        run(cfg, st, outs) matches Some((_, _, waits)) ==> {
            &&& waits.len() > 0 ==> waits[0] == st.backoff_ms
            &&& forall|i: int| 0 <= i < waits.len() ==> #[trigger] waits[i] <= cfg.max_backoff_ms
            &&& forall|i: int|
                0 <= i < waits.len() - 1 ==> #[trigger] waits[i + 1] == next_backoff(
                    waits[i],
                    cfg.max_backoff_ms,
                )
        },
    decreases outs.len(),
{
    if outs.len() > 0 {
        match next_step_spec(cfg, st, outs[0]) {
            StepView::Retry { wait_ms, next } => {
                assert(next_step_spec(cfg, st, outs[0]) == backoff_step(cfg, st));
                lemma_backoff_doubles_to_ceiling(cfg, next, outs.drop_first());
                match run(cfg, next, outs.drop_first()) {
                    Some((last, n, rest)) => {
                        let waits = seq![wait_ms] + rest;
                        assert forall|i: int| 0 <= i < waits.len() - 1 implies #[trigger] waits[i
                            + 1] == next_backoff(waits[i], cfg.max_backoff_ms) by {
                            assert(waits[i + 1] == rest[i]);
                            if i == 0 {
                                assert(rest[0] == next.backoff_ms);
                            } else {
                                let j = i - 1;
                                assert(rest[j + 1] == next_backoff(rest[j], cfg.max_backoff_ms));
                                assert(waits[i] == rest[i - 1]);
                            }
                        }
                        assert forall|i: int| 0 <= i < waits.len() implies #[trigger] waits[i]
                            <= cfg.max_backoff_ms by {
                            if i > 0 {
                                assert(waits[i] == rest[i - 1]);
                            }
                        }
                    },
                    None => {},
                }
            },
            _ => {},
        }
    }
}

pub open spec fn pow2(i: nat) -> nat
    decreases i,
{
    if i == 0 {
        1
    } else {
        2 * pow2((i - 1) as nat)
    }
}

/// The `i`-th wait of a call whose first wait is `b0`: `b0 * 2^i`, capped
/// at `ceiling`.
pub open spec fn capped_backoff(b0: u64, ceiling: u64, i: nat) -> int {
    if (b0 as int) * (pow2(i) as int) <= ceiling {
        (b0 as int) * (pow2(i) as int)
    } else {
        ceiling as int
    }
}

proof fn lemma_capped_backoff_step(b0: u64, ceiling: u64, i: nat)
    requires
        0 <= capped_backoff(b0, ceiling, i) <= u64::MAX,
    ensures
        capped_backoff(b0, ceiling, i + 1) == next_backoff(capped_backoff(b0, ceiling, i) as u64, ceiling),
{
    let p = pow2(i);
    assert(pow2(i + 1) == 2 * p);
    assert((b0 as int) * (pow2(i + 1) as int) == 2 * ((b0 as int) * (p as int))) by (nonlinear_arith)
        requires
            pow2(i + 1) == 2 * p,
    ;
    assert((b0 as int) * (p as int) >= 0) by (nonlinear_arith)
        requires
            b0 >= 0,
            p >= 0,
    ;
}

/// A call makes one attempt more than it waits, and its `i`-th wait is the
/// first backoff doubled `i` times, capped at the ceiling.
pub proof fn lemma_backoff_closed_form(cfg: RetryConfig, st: RetryState, outs: Seq<Outcome>)
    requires
        st.backoff_ms <= cfg.max_backoff_ms,
    ensures
        run(cfg, st, outs) matches Some((_, n, waits)) ==> {
            &&& n == waits.len() + 1
            &&& forall|i: int|
                0 <= i < waits.len() ==> #[trigger] waits[i] == capped_backoff(
                    st.backoff_ms,
                    cfg.max_backoff_ms,
                    i as nat,
                )
        },
    decreases outs.len(),
{
    lemma_backoff_doubles_to_ceiling(cfg, st, outs);
    if outs.len() > 0 {
        match next_step_spec(cfg, st, outs[0]) {
            StepView::Retry { wait_ms, next } => {
                assert(next_step_spec(cfg, st, outs[0]) == backoff_step(cfg, st));
                lemma_backoff_doubles_to_ceiling(cfg, next, outs.drop_first());
                lemma_backoff_closed_form(cfg, next, outs.drop_first());
            },
            _ => {},
        }
        match run(cfg, st, outs) {
            Some((_, n, waits)) => {
                let (b0, c) = (st.backoff_ms, cfg.max_backoff_ms);
                assert(pow2(0) == 1);
                assert forall|i: int| 0 <= i < waits.len() implies #[trigger] waits[i]
                    == capped_backoff(b0, c, i as nat) by {
                    lemma_waits_by_induction(b0, c, waits, i);
                }
            },
            None => {},
        }
    }
}

proof fn lemma_waits_by_induction(b0: u64, c: u64, waits: Seq<u64>, i: int)
    requires
        0 <= i < waits.len(),
        b0 <= c,
        waits[0] == b0,
        forall|j: int| 0 <= j < waits.len() ==> #[trigger] waits[j] <= c,
        forall|j: int| 0 <= j < waits.len() - 1 ==> #[trigger] waits[j + 1] == next_backoff(waits[j], c),
    ensures
        waits[i] == capped_backoff(b0, c, i as nat),
    decreases i,
{
    if i == 0 {
        assert(pow2(0) == 1);
        let one = pow2(0);
        assert((b0 as int) * (one as int) == b0) by (nonlinear_arith)
            requires
                one == 1,
        ;
    } else {
        lemma_waits_by_induction(b0, c, waits, i - 1);
        let k = i - 1;
        assert(waits[k + 1] == next_backoff(waits[k], c));
        lemma_capped_backoff_step(b0, c, (i - 1) as nat);
    }
}

} // verus!
