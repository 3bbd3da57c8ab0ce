//! Login bootstrap: one bounded retry loop, decided here, driven outside.
//!
//! The caller owns the sockets; this module owns the decisions. After each
//! login attempt the caller reports what came of it, and the step function
//! answers with exactly one of: retry after the configured delay, give up
//! with the final error, or done with the session identifier. Transport
//! failures are retried up to the bound; a server rejection is terminal at
//! once and consumes exactly the one attempt it answered; any other
//! failure propagates immediately.

use crate::errors::{XtbError, XtbErrorV, spec_is_transport_failure};
use crate::xapi_definitions::commands_main::{LoginResponse, LoginResponseV};
use vstd::prelude::*;

verus! {

/// The retry policy a bootstrap runs under.
#[derive(Clone, Copy, Debug, PartialEq, Eq, Structural)]
pub struct RetryPolicy {
    pub max_attempts: u32,
    pub retry_delay_ms: u64,
}

/// What to do after one login attempt.
#[derive(Debug, PartialEq, Eq)]
pub enum LoginDecision {
    /// Try again after this many milliseconds.
    RetryAfter(u64),
    /// Give up; this is the final error.
    Fail(XtbError),
    /// Logged in; this is the stream session identifier.
    Done(Vec<u8>),
}

pub enum LoginDecisionV {
    RetryAfter(u64),
    Fail(XtbErrorV),
    Done(Seq<u8>),
}

impl View for LoginDecision {
    type V = LoginDecisionV;

    open spec fn view(&self) -> LoginDecisionV {
        match self {
            LoginDecision::RetryAfter(d) => LoginDecisionV::RetryAfter(*d),
            LoginDecision::Fail(e) => LoginDecisionV::Fail(e@),
            LoginDecision::Done(s) => LoginDecisionV::Done(s@),
        }
    }
}

/// The decision after one attempt: success hands out the session
/// identifier; a transport failure is retried while attempts remain and
/// exhausts the bound otherwise; everything else is final as it stands.
pub open spec fn spec_login_step(
    policy: RetryPolicy,
    attempts_made: u32,
    outcome: Result<LoginResponseV, XtbErrorV>,
) -> LoginDecisionV
    recommends
        attempts_made < policy.max_attempts,
{
    match outcome {
        Ok(l) => LoginDecisionV::Done(l.stream_session_id),
        Err(e) => if spec_is_transport_failure(e) {
            if attempts_made + 1 < policy.max_attempts {
                LoginDecisionV::RetryAfter(policy.retry_delay_ms)
            } else {
                LoginDecisionV::Fail(XtbErrorV::RetryExhausted)
            }
        } else {
            LoginDecisionV::Fail(e)
        },
    }
}

/// The login orchestration's state: the policy, and how many attempts
/// have been made so far.
#[derive(Debug)]
pub struct SessionBootstrap {
    pub policy: RetryPolicy,
    pub attempts_made: u32,
}

impl SessionBootstrap {
    pub fn new(policy: RetryPolicy) -> (r: SessionBootstrap)
        ensures
            r.policy == policy,
            r.attempts_made == 0,
    {
        SessionBootstrap { policy, attempts_made: 0 }
    }

    /// Whether another attempt may still be made.
    pub fn attempts_left(&self) -> (r: bool)
        ensures
            r == (self.attempts_made < self.policy.max_attempts),
    {
        self.attempts_made < self.policy.max_attempts
    }

    /// Takes the outcome of the attempt just made and decides what
    /// follows. Every call consumes exactly one attempt.
    pub fn on_attempt(&mut self, outcome: Result<LoginResponse, XtbError>) -> (d: LoginDecision)
        requires
            old(self).attempts_made < old(self).policy.max_attempts,
        ensures
            final(self).policy == old(self).policy,
            final(self).attempts_made == old(self).attempts_made + 1,
            d@ == spec_login_step(
                old(self).policy,
                old(self).attempts_made,
                match outcome {
                    Ok(l) => Ok::<LoginResponseV, XtbErrorV>(l@),
                    Err(e) => Err::<LoginResponseV, XtbErrorV>(e@),
                },
            ),
    {
        self.attempts_made = self.attempts_made + 1;
        match outcome {
            Ok(l) => LoginDecision::Done(l.stream_session_id),
            Err(e) => {
                if e.is_transport_failure() {
                    if self.attempts_made < self.policy.max_attempts {
                        LoginDecision::RetryAfter(self.policy.retry_delay_ms)
                    } else {
                        LoginDecision::Fail(XtbError::RetryExhausted)
                    }
                } else {
                    LoginDecision::Fail(e)
                }
            },
        }
    }
}

/// The whole bootstrap run against a given series of attempt outcomes,
/// starting at outcome `i` with `attempts_made` attempts behind it: how
/// many attempts it has made when it stops, and what it ends with.
pub open spec fn spec_login_run(
    policy: RetryPolicy,
    outcomes: Seq<Result<LoginResponseV, XtbErrorV>>,
    i: int,
    attempts_made: u32,
) -> (int, Result<Seq<u8>, XtbErrorV>)
    decreases outcomes.len() - i,
{
    if i < 0 || i >= outcomes.len() || attempts_made >= policy.max_attempts {
        (attempts_made as int, Err(XtbErrorV::RetryExhausted))
    } else {
        match spec_login_step(policy, attempts_made, outcomes[i]) {
            LoginDecisionV::Done(s) => (attempts_made + 1, Ok(s)),
            LoginDecisionV::Fail(e) => (attempts_made + 1, Err(e)),
            LoginDecisionV::RetryAfter(_) => spec_login_run(
                policy,
                outcomes,
                i + 1,
                (attempts_made + 1) as u32,
            ),
        }
    }
}

/// Bounded retry: against a transport that fails every attempt, login
/// attempts exactly `max_attempts` times, never more, never fewer, and
/// then gives up with the exhaustion error.
pub proof fn lemma_bounded_retry(
    policy: RetryPolicy,
    outcomes: Seq<Result<LoginResponseV, XtbErrorV>>,
)
    requires
        policy.max_attempts >= 1,
        outcomes.len() >= policy.max_attempts,
        forall|i: int|
            0 <= i < outcomes.len() ==> ((#[trigger] outcomes[i]) matches Err(e)
                && spec_is_transport_failure(e)),
    ensures
        spec_login_run(policy, outcomes, 0, 0) == (
            policy.max_attempts as int,
            Err::<Seq<u8>, XtbErrorV>(XtbErrorV::RetryExhausted),
        ),
{
    lemma_bounded_retry_rec(policy, outcomes, 0, 0);
}

proof fn lemma_bounded_retry_rec(
    policy: RetryPolicy,
    outcomes: Seq<Result<LoginResponseV, XtbErrorV>>,
    i: int,
    attempts_made: u32,
)
    requires
        0 <= i,
        attempts_made < policy.max_attempts,
        outcomes.len() - i >= policy.max_attempts - attempts_made,
        forall|k: int|
            0 <= k < outcomes.len() ==> ((#[trigger] outcomes[k]) matches Err(e)
                && spec_is_transport_failure(e)),
    ensures
        spec_login_run(policy, outcomes, i, attempts_made) == (
            policy.max_attempts as int,
            Err::<Seq<u8>, XtbErrorV>(XtbErrorV::RetryExhausted),
        ),
    decreases outcomes.len() - i,
{
    assert(outcomes[i] matches Err(e) && spec_is_transport_failure(e));
    if attempts_made + 1 < policy.max_attempts {
        lemma_bounded_retry_rec(policy, outcomes, i + 1, (attempts_made + 1) as u32);
    }
}

/// A server rejection short-circuits: it ends the bootstrap at once, as
/// the rejection itself, and consumes exactly the one attempt it answered.
pub proof fn lemma_rejection_short_circuits(
    policy: RetryPolicy,
    outcomes: Seq<Result<LoginResponseV, XtbErrorV>>,
    code: Seq<u8>,
    description: Seq<u8>,
)
    requires
        policy.max_attempts >= 1,
        outcomes.len() >= 1,
        outcomes[0] == Err::<LoginResponseV, XtbErrorV>(
            XtbErrorV::AuthenticationFailed { code, description },
        ),
    ensures
        spec_login_run(policy, outcomes, 0, 0) == (
            1int,
            Err::<Seq<u8>, XtbErrorV>(XtbErrorV::AuthenticationFailed { code, description }),
        ),
{
}

} // verus!
