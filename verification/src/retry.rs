//! Failures of calls to peers, and when such calls are tried again.

use crate::inventory::PeerFailureClass;
use crate::model::{Duration, NANOS_PER_SECOND};
use crate::status::{plain_status, Code, Status, StatusView};
use crate::text::{bytes_copy, holds_text, text_contains};
use vstd::prelude::*;

verus! {

/// The failure of one RPC as its caller sees it: the peer's own failure with
/// the operation and the peer named in front, or a timeout.
pub open spec fn rpc_failure_view(
    operation: Seq<char>,
    peer_onion: Seq<char>,
    failure: Option<StatusView>,
) -> StatusView {
    match failure {
        Some(error) => StatusView {
            code: error.code,
            message: operation + " from "@ + peer_onion + ": "@ + error.message,
            details: error.details,
        },
        None => plain_status(
            Code::DeadlineExceeded,
            operation + " from "@ + peer_onion + " timed out"@,
        ),
    }
}

/// Name the operation and the peer in the failure of one RPC. Without a
/// failure from the peer the RPC timed out.
pub fn rpc_failure(operation: &str, peer_onion: &str, failure: Option<&Status>) -> (status: Status)
    ensures
        status@ == rpc_failure_view(
            operation@,
            peer_onion@,
            match failure {
                Some(error) => Some(error@),
                None => None,
            },
        ),
{
    let mut message = operation.to_owned();
    message.append(" from ");
    message.append(peer_onion);
    match failure {
        Some(error) => {
            message.append(": ");
            message.append(error.message.as_str());
            Status { code: error.code, message, details: bytes_copy(error.details.as_slice()) }
        },
        None => {
            message.append(" timed out");
            Status::new(Code::DeadlineExceeded, message)
        },
    }
}

/// The failure of a dial.
pub open spec fn connect_failure_view(error: Option<Seq<char>>) -> StatusView {
    match error {
        Some(text) => plain_status(Code::Unavailable, "connect peer: "@ + text),
        None => plain_status(Code::DeadlineExceeded, "connect peer timed out"@),
    }
}

/// Report the failure of a dial. Without an error the dial timed out.
pub fn connect_failure(error: Option<&str>) -> (status: Status)
    ensures
        status@ == connect_failure_view(
            match error {
                Some(text) => Some(text@),
                None => None,
            },
        ),
{
    match error {
        Some(text) => {
            let mut message = "connect peer: ".to_owned();
            message.append(text);
            Status::new(Code::Unavailable, message)
        },
        None => Status::with_text(Code::DeadlineExceeded, "connect peer timed out"),
    }
}

/// How a failure is classified for operators.
pub open spec fn failure_class(status: StatusView) -> PeerFailureClass {
    match status.code {
        Code::DeadlineExceeded => PeerFailureClass::Timeout,
        Code::Unavailable => PeerFailureClass::Transport,
        Code::ResourceExhausted => if holds_text(status.message, "storage budget"@) {
            PeerFailureClass::StorageBudget
        } else if holds_text(status.message, "too large"@) {
            PeerFailureClass::Oversize
        } else if holds_text(status.message, "capacity reached"@) {
            PeerFailureClass::Capacity
        } else {
            PeerFailureClass::Protocol
        },
        _ => PeerFailureClass::Protocol,
    }
}

/// Classify one peer-operation failure for local operator-facing status.
pub fn classify_recent_peer_failure(status: &Status) -> (class: PeerFailureClass)
    ensures
        class == failure_class(status@),
{
    match status.code {
        Code::DeadlineExceeded => PeerFailureClass::Timeout,
        Code::Unavailable => PeerFailureClass::Transport,
        Code::ResourceExhausted => if text_contains(status.message.as_str(), "storage budget") {
            PeerFailureClass::StorageBudget
        } else if text_contains(status.message.as_str(), "too large") {
            PeerFailureClass::Oversize
        } else if text_contains(status.message.as_str(), "capacity reached") {
            PeerFailureClass::Capacity
        } else {
            PeerFailureClass::Protocol
        },
        _ => PeerFailureClass::Protocol,
    }
}

/// The nanoseconds of a span of time.
pub open spec fn span_nanos(span: Duration) -> int {
    span.secs * NANOS_PER_SECOND + span.nanos
}

/// The longest span of time, in nanoseconds.
pub open spec fn longest_span() -> int {
    u64::MAX * NANOS_PER_SECOND + (NANOS_PER_SECOND - 1)
}

/// Whether waiting `backoff` more after `elapsed` exceeds `budget`, where sums
/// are cut off at the longest span.
pub open spec fn exceeds_budget(elapsed: Duration, backoff: Duration, budget: Duration) -> bool {
    let sum = span_nanos(elapsed) + span_nanos(backoff);
    (if sum > longest_span() {
        longest_span()
    } else {
        sum
    }) > span_nanos(budget)
}

/// RetryDecision tells how an operation goes on after an attempt has failed.
#[derive(Clone, Copy, Debug, PartialEq, Eq, Structural)]
pub enum RetryDecision {
    /// TryAgain waits for the backoff and tries once more.
    TryAgain,
    /// GiveUp ends the operation with the failure of its last attempt.
    GiveUp {
        /// peer_offline reports whether the peer counts as offline.
        peer_offline: bool,
    },
}

/// PeerRetry counts the attempts of one operation on a peer.
#[derive(Debug)]
pub struct PeerRetry {
    retry_attempt: u32,
}

impl PeerRetry {
    /// How many retries have been asked for.
    pub closed spec fn retries(&self) -> int {
        self.retry_attempt as int
    }

    /// Begin an operation.
    pub fn new() -> (retry: Self)
        ensures
            retry.retries() == 0,
    {
        PeerRetry { retry_attempt: 0 }
    }

    /// Count one more retry, and return its number, which decides the backoff.
    pub fn next_retry(&mut self) -> (attempt: u32)
        ensures
            attempt == final(self).retries(),
            final(self).retries() == if old(self).retries() < u32::MAX {
                old(self).retries() + 1
            } else {
                u32::MAX as int
            },
    {
        self.retry_attempt = self.retry_attempt.saturating_add(1);
        self.retry_attempt
    }
}

/// The decision on a failed attempt: only a retryable failure is tried again,
/// and only while the budget allows the wait. A peer that exhausts the budget
/// counts as offline.
pub open spec fn retry_rule(
    retryable: bool,
    elapsed: Duration,
    backoff: Duration,
    budget: Duration,
) -> RetryDecision {
    if !retryable {
        RetryDecision::GiveUp { peer_offline: false }
    } else if exceeds_budget(elapsed, backoff, budget) {
        RetryDecision::GiveUp { peer_offline: true }
    } else {
        RetryDecision::TryAgain
    }
}

/// Compute the nanoseconds of a span of time.
fn nanos_of(span: Duration) -> (nanos: u128)
    ensures
        nanos == span_nanos(span),
        nanos <= u64::MAX * NANOS_PER_SECOND + u32::MAX,
{
    span.secs as u128 * 1_000_000_000 + span.nanos as u128
}

/// Decide how an operation goes on after an attempt has failed.
pub fn retry_peer_operation(
    retryable: bool,
    elapsed: Duration,
    backoff: Duration,
    total_budget: Duration,
) -> (decision: RetryDecision)
    ensures
        decision == retry_rule(retryable, elapsed, backoff, total_budget),
{
    if !retryable {
        return RetryDecision::GiveUp { peer_offline: false };
    }
    let longest: u128 = u64::MAX as u128 * 1_000_000_000 + 999_999_999;
    let sum = nanos_of(elapsed) + nanos_of(backoff);
    let spent = if sum > longest {
        longest
    } else {
        sum
    };
    if spent > nanos_of(total_budget) {
        return RetryDecision::GiveUp { peer_offline: true };
    }
    RetryDecision::TryAgain
}

/// An operation that is tried again never waits past its budget.
pub proof fn law_retries_stay_within_budget(
    retryable: bool,
    elapsed: Duration,
    backoff: Duration,
    budget: Duration,
)
    requires
        retry_rule(retryable, elapsed, backoff, budget) == RetryDecision::TryAgain,
        span_nanos(budget) < longest_span(),
    ensures
        retryable,
        span_nanos(elapsed) + span_nanos(backoff) <= span_nanos(budget),
{
}

/// The failure of a call keeps the peer's code, details and words, with the
/// operation and the peer in front; a call without an answer timed out.
pub proof fn law_call_failure_keeps_the_cause(
    operation: &str,
    onion: &str,
    failure: Option<&Status>,
    status: Status,
)
    requires
        call_ensures(rpc_failure, (operation, onion, failure), status),
    ensures
        operation@.is_prefix_of(status.message@),
        failure matches Some(error) ==> {
            &&& status.code == error.code
            &&& status.details@ == error.details@
            &&& error.message@.is_suffix_of(status.message@)
            &&& status.message@.len() == operation@.len() + onion@.len() + error.message@.len() + 8
        },
        failure is None ==> status.code == Code::DeadlineExceeded && status.details@.len() == 0,
        forall|k: int|
            0 <= k < onion@.len() ==> status.message@[operation@.len() + 6 + k] == #[trigger] onion@[k],
{
    reveal_strlit(" from ");
    reveal_strlit(": ");
    reveal_strlit(" timed out");
}

/// A dial that was refused finds the peer unavailable and says why; one without
/// an answer timed out.
pub proof fn law_dial_failure_tells_refusal_from_silence(error: Option<&str>, status: Status)
    requires
        call_ensures(connect_failure, (error,), status),
    ensures
        status.code == Code::Unavailable <==> error is Some,
        status.code == Code::DeadlineExceeded <==> error is None,
        error matches Some(text) ==> text@.is_suffix_of(status.message@),
        status.details@.len() == 0,
{
}

/// Failures are told apart by their code, and exhausted resources by what the
/// message says first of: the storage budget, the size, the capacity.
pub proof fn law_failures_are_told_apart(status: &Status, class: PeerFailureClass)
    requires
        call_ensures(classify_recent_peer_failure, (status,), class),
    ensures
        class != PeerFailureClass::Unknown,
        class == PeerFailureClass::Timeout <==> status.code == Code::DeadlineExceeded,
        class == PeerFailureClass::Transport <==> status.code == Code::Unavailable,
        class == PeerFailureClass::StorageBudget <==> status.code == Code::ResourceExhausted
            && holds_text(status.message@, "storage budget"@),
        class == PeerFailureClass::Oversize <==> status.code == Code::ResourceExhausted
            && !holds_text(status.message@, "storage budget"@) && holds_text(
            status.message@,
            "too large"@,
        ),
        class == PeerFailureClass::Capacity <==> status.code == Code::ResourceExhausted
            && !holds_text(status.message@, "storage budget"@) && !holds_text(
            status.message@,
            "too large"@,
        ) && holds_text(status.message@, "capacity reached"@),
{
}

/// A failed attempt is repeated exactly when it may be and the wait still fits
/// into the budget; a peer counts as offline only when the budget ran out, and
/// a failure that may not be repeated never makes it so.
pub proof fn law_retry_fits_the_budget(
    retryable: bool,
    elapsed: Duration,
    backoff: Duration,
    budget: Duration,
    decision: RetryDecision,
)
    requires
        call_ensures(retry_peer_operation, (retryable, elapsed, backoff, budget), decision),
        budget.secs < u64::MAX,
        budget.nanos < 1_000_000_000,
    ensures
        decision == RetryDecision::TryAgain <==> retryable && (elapsed.secs + backoff.secs)
            * 1_000_000_000 + elapsed.nanos + backoff.nanos <= budget.secs * 1_000_000_000
            + budget.nanos,
        decision == (RetryDecision::GiveUp { peer_offline: false }) <==> !retryable,
{
    assert((elapsed.secs + backoff.secs) * 1_000_000_000 == elapsed.secs * 1_000_000_000
        + backoff.secs * 1_000_000_000) by (nonlinear_arith);
}

} // verus!
