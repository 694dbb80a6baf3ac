//! The exchange of the MFA proof for temporary credentials. The caller makes
//! each call to the identity service and hands its outcome to a
//! `RetryPolicy`, which says whether to wait and call again, or what the
//! exchange came to. Only transient failures are retried, after exponential
//! backoff with jitter, a bounded number of times.

use vstd::prelude::*;
use backon::{BackoffBuilder, ExponentialBackoff, ExponentialBuilder};
use crate::text::same_text;

verus! {

#[verifier::external_type_specification]
#[verifier::external_body]
pub struct ExExponentialBackoff(ExponentialBackoff);

/// How many more delays the backoff hands out before it is exhausted.
pub uninterp spec fn delays_left(b: ExponentialBackoff) -> nat;

/// How many delays the backoff has handed out.
pub uninterp spec fn delays_given(b: ExponentialBackoff) -> nat;

/// The backoff was built from backon's default exponential builder with
/// jitter: a first delay of 1 s, doubling, at most 60 s, each delay plus a
/// random part below 1 s.
pub uninterp spec fn jittered_default(b: ExponentialBackoff) -> bool;

/// Retries that a new policy allows after the first call.
pub const MAX_RETRIES: u64 = 3;

/// Upper bound of the delay before jitter, in milliseconds.
pub const MAX_DELAY_MS: u64 = 60000;

/// The delay before jitter, in milliseconds, after `n` delays were handed
/// out: 1 s, doubled each time, at most `MAX_DELAY_MS`.
pub open spec fn exponential_delay_ms(n: nat) -> nat
    decreases n,
{
    if n == 0 {
        1000
    } else {
        let d = 2 * exponential_delay_ms((n - 1) as nat);
        if d > MAX_DELAY_MS {
            MAX_DELAY_MS as nat
        } else {
            d
        }
    }
}

/// Relies on backon::ExponentialBuilder's defaults (a first delay of 1 s,
/// factor 2, at most 60 s, at most 3 delays) with `with_jitter`, and on
/// `build`, which starts with no delay handed out.
#[verifier::external_body]
fn new_backoff() -> (r: ExponentialBackoff)
    ensures
        delays_left(r) == MAX_RETRIES,
        delays_given(r) == 0,
        jittered_default(r),
{
    ExponentialBuilder::default().with_jitter().build()
}

/// Relies on backon's `Iterator` for ExponentialBackoff: while fewer than the
/// maximum were handed out, the next delay (the first delay, then the last
/// one times the factor, capped) plus the first delay times a random number
/// in [0, 1); after that none, leaving the state as it is. With the default
/// delays the milliseconds fit a `u64` without loss.
#[verifier::external_body]
fn next_delay(b: &mut ExponentialBackoff) -> (r: Option<u64>)
    ensures
        jittered_default(*final(b)) == jittered_default(*old(b)),
        delays_left(*old(b)) == 0 ==> r is None && delays_left(*final(b)) == 0 && delays_given(
            *final(b),
        ) == delays_given(*old(b)),
        delays_left(*old(b)) > 0 ==> r is Some && delays_left(*final(b)) == delays_left(*old(b))
            - 1 && delays_given(*final(b)) == delays_given(*old(b)) + 1,
        jittered_default(*old(b)) && r is Some ==> exponential_delay_ms(delays_given(*old(b)))
            <= r->0 < exponential_delay_ms(delays_given(*old(b))) + 1000,
{
    match b.next() {
        Some(d) => Some(d.as_millis() as u64),
        None => None,
    }
}

/// Temporary credentials; `expiration_millis` is milliseconds since the unix
/// epoch (UTC).
pub struct TemporaryCredentials {
    pub access_key_id: String,
    pub secret_access_key: String,
    pub session_token: String,
    pub expiration_millis: i64,
}

/// How a call to the identity service failed.
#[derive(Debug)]
pub enum CallFailure {
    /// No response came in time.
    Timeout,
    /// The request could not be sent.
    Dispatch(String),
    /// A response came that could not be read.
    Response(String),
    /// The service answered with an error: its code, if any, and message.
    Service { code: Option<String>, message: String },
}

/// What one call came to.
pub enum ExchangeOutcome {
    /// The service issued credentials.
    Issued(TemporaryCredentials),
    /// The service answered without a credentials block.
    NoCredentials,
    /// A failure that may pass if the same request is made again.
    Transient(String),
    /// The service refused the request (a wrong code, a role not granted).
    Rejected(String),
}

/// A successful answer's credentials block, as the service sent it; the
/// expiration is none when it could not be read as milliseconds.
pub struct CredentialsBlock {
    pub access_key_id: String,
    pub secret_access_key: String,
    pub session_token: String,
    pub expiration_millis: Option<i64>,
}

/// What a successful answer comes to: credentials when the block is there
/// with a readable expiration; else no credentials.
pub fn answer_outcome(block: Option<CredentialsBlock>) -> (r: ExchangeOutcome)
    ensures
        match block {
            Some(b) => match b.expiration_millis {
                Some(ms) => r == ExchangeOutcome::Issued(
                    TemporaryCredentials {
                        access_key_id: b.access_key_id,
                        secret_access_key: b.secret_access_key,
                        session_token: b.session_token,
                        expiration_millis: ms,
                    },
                ),
                None => r is NoCredentials,
            },
            None => r is NoCredentials,
        },
{
    match block {
        Some(b) => match b.expiration_millis {
            Some(ms) => ExchangeOutcome::Issued(
                TemporaryCredentials {
                    access_key_id: b.access_key_id,
                    secret_access_key: b.secret_access_key,
                    session_token: b.session_token,
                    expiration_millis: ms,
                },
            ),
            None => ExchangeOutcome::NoCredentials,
        },
        None => ExchangeOutcome::NoCredentials,
    }
}

/// Why the exchange failed.
#[derive(Debug)]
pub enum ExchangeError {
    /// The service answered without credentials.
    NoCredentials,
    /// The service refused the request; holds its message.
    Rejected(String),
    /// Transient failures outlasted the retries; holds the last message.
    RetriesExhausted(String),
}

impl ExchangeError {
    pub fn message(&self) -> (r: String)
        ensures
            r@ == match *self {
                ExchangeError::NoCredentials => "Unable to fetch temporary credentials"@,
                ExchangeError::Rejected(m) => "Failed to call assume_role: "@ + m@,
                ExchangeError::RetriesExhausted(m) => "Failed to call assume_role after retrying: "@
                    + m@,
            },
    {
        match self {
            ExchangeError::NoCredentials => String::from_str("Unable to fetch temporary credentials"),
            ExchangeError::Rejected(m) => String::from_str("Failed to call assume_role: ").concat(
                m.as_str(),
            ),
            ExchangeError::RetriesExhausted(m) => String::from_str(
                "Failed to call assume_role after retrying: ",
            ).concat(m.as_str()),
        }
    }
}

/// What to do after a call.
pub enum BrokerStep {
    /// Wait this long, then make the same call again.
    Retry { delay_ms: u64 },
    /// The exchange succeeded.
    Done(TemporaryCredentials),
    /// The exchange failed.
    Failed(ExchangeError),
}

/// Error codes of the identity service that report a passing condition.
pub open spec fn is_transient_code(c: Seq<char>) -> bool {
    c == "Throttling"@ || c == "ThrottlingException"@ || c == "RequestLimitExceeded"@ || c
        == "ServiceUnavailable"@ || c == "InternalFailure"@
}

/// Failures in transport are transient; a service error is transient when its
/// code says so, and a refusal otherwise.
pub open spec fn is_transient_failure(f: CallFailure) -> bool {
    match f {
        CallFailure::Service { code, message } => code matches Some(c) && is_transient_code(c@),
        _ => true,
    }
}

fn transient_code(c: &str) -> (r: bool)
    ensures
        r == is_transient_code(c@),
{
    same_text(c, "Throttling") || same_text(c, "ThrottlingException") || same_text(
        c,
        "RequestLimitExceeded",
    ) || same_text(c, "ServiceUnavailable") || same_text(c, "InternalFailure")
}

/// Sorts a failed call into a transient failure or a refusal, keeping a
/// description of it.
pub fn classify_failure(f: CallFailure) -> (r: ExchangeOutcome)
    ensures
        is_transient_failure(f) ==> r is Transient,
        !is_transient_failure(f) ==> (r matches ExchangeOutcome::Rejected(m) && f matches CallFailure::Service { code, message } && m@ == message@),
{
    match f {
        CallFailure::Timeout => ExchangeOutcome::Transient(String::from_str("request timed out")),
        CallFailure::Dispatch(m) => ExchangeOutcome::Transient(m),
        CallFailure::Response(m) => ExchangeOutcome::Transient(m),
        CallFailure::Service { code, message } => {
            let transient = match &code {
                Some(c) => transient_code(c.as_str()),
                None => false,
            };
            if transient {
                ExchangeOutcome::Transient(message)
            } else {
                ExchangeOutcome::Rejected(message)
            }
        },
    }
}

/// The least delay before the retry that a policy with `left` retries makes:
/// 1 s before the first retry, doubling for each later one.
pub open spec fn retry_delay_floor(left: nat) -> nat {
    exponential_delay_ms((MAX_RETRIES - left) as nat)
}

/// The step that a policy with `left` retries takes on `outcome`.
pub open spec fn step_matches(step: BrokerStep, left: nat, outcome: ExchangeOutcome) -> bool {
    match outcome {
        ExchangeOutcome::Issued(c) => step == BrokerStep::Done(c),
        ExchangeOutcome::NoCredentials => step matches BrokerStep::Failed(
            ExchangeError::NoCredentials,
        ),
        ExchangeOutcome::Transient(m) => if left > 0 {
            step matches BrokerStep::Retry { delay_ms } && retry_delay_floor(left) <= delay_ms
                < retry_delay_floor(left) + 1000
        } else {
            step matches BrokerStep::Failed(ExchangeError::RetriesExhausted(x)) && x@ == m@
        },
        ExchangeOutcome::Rejected(m) => step matches BrokerStep::Failed(ExchangeError::Rejected(x))
            && x@ == m@,
    }
}

/// How a run of calls ends.
pub enum RunEnd {
    Done(TemporaryCredentials),
    Failed(ExchangeError),
    /// The outcomes ran out before the exchange was decided.
    Undecided,
}

/// The end of an exchange whose calls have the given outcomes in turn,
/// starting with `left` retries, and the number of calls made.
pub open spec fn exchange_run(left: nat, outcomes: Seq<ExchangeOutcome>) -> (RunEnd, nat)
    decreases outcomes.len(),
{
    if outcomes.len() == 0 {
        (RunEnd::Undecided, 0)
    } else {
        match outcomes[0] {
            ExchangeOutcome::Issued(c) => (RunEnd::Done(c), 1),
            ExchangeOutcome::NoCredentials => (RunEnd::Failed(ExchangeError::NoCredentials), 1),
            ExchangeOutcome::Rejected(m) => (RunEnd::Failed(ExchangeError::Rejected(m)), 1),
            ExchangeOutcome::Transient(m) => if left > 0 {
                let (e, n) = exchange_run((left - 1) as nat, outcomes.drop_first());
                (e, n + 1)
            } else {
                (RunEnd::Failed(ExchangeError::RetriesExhausted(m)), 1)
            },
        }
    }
}

/// The last step of an exchange agrees with how the run ends.
pub open spec fn ends_with(end: RunEnd, step: BrokerStep) -> bool {
    match (end, step) {
        (RunEnd::Done(a), BrokerStep::Done(b)) => a == b,
        (RunEnd::Failed(ExchangeError::NoCredentials), BrokerStep::Failed(
            ExchangeError::NoCredentials,
        )) => true,
        (RunEnd::Failed(ExchangeError::Rejected(a)), BrokerStep::Failed(
            ExchangeError::Rejected(b),
        )) => a@ == b@,
        (RunEnd::Failed(ExchangeError::RetriesExhausted(a)), BrokerStep::Failed(
            ExchangeError::RetriesExhausted(b),
        )) => a@ == b@,
        _ => false,
    }
}

/// Decides, call after call, whether to retry the exchange.
pub struct RetryPolicy {
    backoff: ExponentialBackoff,
    /// The outcomes of the calls so far.
    seen: Ghost<Seq<ExchangeOutcome>>,
}

impl RetryPolicy {
    pub closed spec fn retries_left(&self) -> nat {
        delays_left(self.backoff)
    }

    /// The outcomes of the calls so far, all of them transient failures.
    pub closed spec fn history(&self) -> Seq<ExchangeOutcome> {
        self.seen@
    }

    pub closed spec fn wf(&self) -> bool {
        &&& jittered_default(self.backoff)
        &&& delays_given(self.backoff) + delays_left(self.backoff) == MAX_RETRIES
        &&& self.seen@.len() == delays_given(self.backoff)
        &&& forall|i: int| 0 <= i < self.seen@.len() ==> #[trigger] self.seen@[i] is Transient
    }

    pub fn new() -> (r: RetryPolicy)
        ensures
            r.wf(),
            r.retries_left() == MAX_RETRIES,
            r.history() == Seq::<ExchangeOutcome>::empty(),
    {
        RetryPolicy { backoff: new_backoff(), seen: Ghost(Seq::empty()) }
    }

    /// The step after a call with this outcome: a transient failure is retried
    /// while retries are left, after a delay that doubles from 1 s plus less
    /// than 1 s of jitter; anything else ends the exchange, as `exchange_run`
    /// ends on all the outcomes seen.
    pub fn on_outcome(&mut self, outcome: ExchangeOutcome) -> (step: BrokerStep)
        requires
            old(self).wf(),
        ensures
            step_matches(step, old(self).retries_left(), outcome),
            step is Retry ==> final(self).wf() && final(self).retries_left() == old(
                self,
            ).retries_left() - 1 && final(self).history() == old(self).history().push(outcome),
            !(step is Retry) ==> ends_with(
                exchange_run(MAX_RETRIES as nat, old(self).history().push(outcome)).0,
                step,
            ) && exchange_run(MAX_RETRIES as nat, old(self).history().push(outcome)).1 == old(
                self,
            ).history().len() + 1,
    {
        let ghost h = self.seen@;
        let ghost left = self.retries_left();
        let ghost o = outcome;
        proof {
            lemma_run_after_transients(MAX_RETRIES as nat, h, o);
        }
        let step = match outcome {
            ExchangeOutcome::Issued(c) => BrokerStep::Done(c),
            ExchangeOutcome::NoCredentials => BrokerStep::Failed(ExchangeError::NoCredentials),
            ExchangeOutcome::Rejected(m) => BrokerStep::Failed(ExchangeError::Rejected(m)),
            ExchangeOutcome::Transient(m) => match next_delay(&mut self.backoff) {
                Some(delay_ms) => BrokerStep::Retry { delay_ms },
                None => BrokerStep::Failed(ExchangeError::RetriesExhausted(m)),
            },
        };
        let retrying = match &step {
            BrokerStep::Retry { .. } => true,
            _ => false,
        };
        if retrying {
            self.seen = Ghost(h.push(o));
            assert forall|i: int| 0 <= i < self.seen@.len() implies #[trigger] self.seen@[i] is Transient by {
                if i < h.len() {
                    assert(self.seen@[i] == h[i]);
                }
            }
        }
        proof {
            let one = seq![o];
            assert(one.drop_first() =~= Seq::<ExchangeOutcome>::empty());
            assert(one[0] == o);
        }
        step
    }
}

/// After transient failures within the retries, the run goes on as a run of
/// the remaining outcomes with the remaining retries.
proof fn lemma_run_after_transients(left: nat, h: Seq<ExchangeOutcome>, o: ExchangeOutcome)
    requires
        h.len() <= left,
        forall|i: int| 0 <= i < h.len() ==> #[trigger] h[i] is Transient,
    ensures
        exchange_run(left, h.push(o)) == (
            exchange_run((left - h.len()) as nat, seq![o]).0,
            h.len() + exchange_run((left - h.len()) as nat, seq![o]).1,
        ),
    decreases h.len(),
{
    if h.len() > 0 {
        let t = h.drop_first();
        assert forall|i: int| 0 <= i < t.len() implies #[trigger] t[i] is Transient by {
            assert(t[i] == h[i + 1]);
        }
        assert(h.push(o).drop_first() =~= t.push(o));
        assert(h.push(o)[0] == h[0]);
        assert(h[0] is Transient);
        lemma_run_after_transients((left - 1) as nat, t, o);
    } else {
        assert(h.push(o) =~= seq![o]);
    }
}

/// Transient failures followed by issued credentials, within the retries,
/// end in those credentials after exactly one call per outcome up to them.
pub proof fn lemma_retry_until_issued(left: nat, outcomes: Seq<ExchangeOutcome>, k: int)
    requires
        0 <= k <= left,
        k < outcomes.len(),
        forall|i: int| 0 <= i < k ==> #[trigger] outcomes[i] is Transient,
        outcomes[k] is Issued,
    ensures
        exchange_run(left, outcomes) == (RunEnd::Done(outcomes[k]->Issued_0), (k + 1) as nat),
    decreases k,
{
    if k > 0 {
        let rest = outcomes.drop_first();
        assert forall|i: int| 0 <= i < k - 1 implies #[trigger] rest[i] is Transient by {
            assert(rest[i] == outcomes[i + 1]);
        }
        assert(outcomes[0] is Transient);
        lemma_retry_until_issued((left - 1) as nat, rest, k - 1);
    }
}

/// A refusal ends the exchange at once, after one call.
pub proof fn lemma_refusal_is_final(left: nat, outcomes: Seq<ExchangeOutcome>)
    requires
        outcomes.len() > 0,
        outcomes[0] is Rejected,
    ensures
        exchange_run(left, outcomes) == (RunEnd::Failed(
            ExchangeError::Rejected(outcomes[0]->Rejected_0),
        ), 1nat),
{
}

/// Transient failures beyond the retries end the exchange after one call
/// more than the retries.
pub proof fn lemma_retries_bounded(left: nat, outcomes: Seq<ExchangeOutcome>)
    requires
        outcomes.len() > left,
        forall|i: int| 0 <= i <= left ==> #[trigger] outcomes[i] is Transient,
    ensures
        exchange_run(left, outcomes).0 matches RunEnd::Failed(ExchangeError::RetriesExhausted(m)) && m
            == outcomes[left as int]->Transient_0,
        exchange_run(left, outcomes).1 == left + 1,
    decreases left,
{
    if left > 0 {
        let rest = outcomes.drop_first();
        assert forall|i: int| 0 <= i <= left - 1 implies #[trigger] rest[i] is Transient by {
            assert(rest[i] == outcomes[i + 1]);
        }
        assert(outcomes[0] is Transient);
        lemma_retries_bounded((left - 1) as nat, rest);
        assert(rest[left - 1] == outcomes[left as int]);
    } else {
        assert(outcomes[0] is Transient);
    }
}

pub open spec fn digit_char(d: int) -> char {
    "0123456789"@[d]
}

/// The decimal digits of `n`.
pub open spec fn decimal_of(n: nat) -> Seq<char>
    decreases n,
{
    if n < 10 {
        seq![digit_char(n as int)]
    } else {
        decimal_of(n / 10) + seq![digit_char((n % 10) as int)]
    }
}

/// `n` in decimal, with a `-` before it when negative.
pub open spec fn signed_decimal_of(n: int) -> Seq<char> {
    if n < 0 {
        "-"@ + decimal_of((-n) as nat)
    } else {
        decimal_of(n as nat)
    }
}

fn decimal_text(n: u64) -> (r: String)
    ensures
        r@ == decimal_of(n as nat),
    decreases n,
{
    let digits = "0123456789";
    proof {
        reveal_strlit("0123456789");
    }
    let d = (n % 10) as usize;
    let last = digits.substring_char(d, d + 1);
    assert(last@ == seq![digit_char(d as int)]);
    if n < 10 {
        String::from_str(last)
    } else {
        decimal_text(n / 10).concat(last)
    }
}

/// The session name sent with the request: the time of the request in
/// milliseconds, then `-session`.
pub fn session_name(now_millis: i64) -> (r: String)
    ensures
        r@ == signed_decimal_of(now_millis as int) + "-session"@,
{
    let digits = if now_millis < 0 {
        let magnitude = (0i128 - now_millis as i128) as u64;
        String::from_str("-").concat(decimal_text(magnitude).as_str())
    } else {
        decimal_text(now_millis as u64)
    };
    digits.concat("-session")
}

} // verus!
