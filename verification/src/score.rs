//! How peers earn and lose score.

use crate::arith::{clamp_i64, max_int, saturating_add_i64, saturating_sub_i64};
use crate::model::{peer_views, Peer, PeerView};
use crate::records::{find_peer, peer_with_key, score_state};
use crate::status::{failed_precondition, fails_with, Status};
use vstd::prelude::*;

verus! {

/// The part of the time since the last measurement that this node observed,
/// given when its observation window began. Without a window, or without an
/// earlier measurement, it observed nothing.
pub open spec fn observed_seconds(measured_at: int, window_start: Option<i64>, now: int) -> int {
    match window_start {
        Some(start) => if measured_at <= 0 {
            0
        } else {
            clamp_i64(now - max_int(measured_at, start as int))
        },
        None => 0,
    }
}

/// Return the elapsed score-accounting interval visible to this node.
pub fn observed_peer_score_elapsed_secs(
    measured_at: i64,
    observation_started_at: Option<i64>,
    now_secs: i64,
) -> (elapsed: i64)
    ensures
        elapsed == observed_seconds(measured_at as int, observation_started_at, now_secs as int),
{
    if measured_at <= 0 {
        return 0;
    }
    match observation_started_at {
        None => 0,
        Some(start) => {
            let effective_start = if measured_at >= start {
                measured_at
            } else {
                start
            };
            saturating_sub_i64(now_secs, effective_start)
        },
    }
}

/// ScoreUpdate is one peer's new score and when it was measured.
#[derive(Clone, Copy, Debug, PartialEq, Eq, Structural)]
pub struct ScoreUpdate {
    /// score_seconds is the new score.
    pub score_seconds: i64,
    /// score_measured_at is when it was measured.
    pub score_measured_at: i64,
}

/// The score after a verification: the observed time is earned or lost.
pub open spec fn score_after(score: int, elapsed: int, passed: bool) -> int {
    if passed {
        clamp_i64(score + elapsed)
    } else {
        clamp_i64(score - elapsed)
    }
}

/// Compute the updated score state of a tracked peer after a verification.
pub fn update_peer_score(
    peers: &[Peer],
    peer_key: &[u8],
    passed: bool,
    observation_started_at: Option<i64>,
    now_secs: i64,
) -> (outcome: Result<ScoreUpdate, Status>)
    ensures
        match find_peer(peer_views(peers@), peer_key@) {
            None => fails_with(outcome, failed_precondition("peer is not tracked"@)),
            Some(peer) => outcome matches Ok(update) && update.score_measured_at == now_secs
                && update.score_seconds == score_after(
                peer.score_seconds as int,
                observed_seconds(
                    peer.score_measured_at as int,
                    observation_started_at,
                    now_secs as int,
                ),
                passed,
            ),
        },
{
    let peer = match peer_with_key(peers, peer_key) {
        Some(peer) => peer,
        None => return Err(Status::failed_precondition("peer is not tracked")),
    };
    let elapsed = observed_peer_score_elapsed_secs(
        peer.score_measured_at,
        observation_started_at,
        now_secs,
    );
    let score_seconds = if passed {
        saturating_add_i64(peer.score_seconds, elapsed)
    } else {
        saturating_sub_i64(peer.score_seconds, elapsed)
    };
    Ok(ScoreUpdate { score_seconds, score_measured_at: now_secs })
}

/// The update that a direct change of the score makes: none where nothing
/// changes or the peer is not tracked.
pub open spec fn direct_adjustment(
    peers: Seq<PeerView>,
    key: Seq<u8>,
    delta: int,
    now: i64,
) -> Option<ScoreUpdate> {
    if delta == 0 || find_peer(peers, key) is None {
        None
    } else {
        Some(
            ScoreUpdate {
                score_seconds: clamp_i64(score_state(peers, key).0 + delta) as i64,
                score_measured_at: now,
            },
        )
    }
}

/// Adjust the persisted score state for a peer by one direct delta.
pub fn adjust_peer_score_direct(
    peers: &[Peer],
    peer_key: &[u8],
    delta_seconds: i64,
    now_secs: i64,
) -> (update: Option<ScoreUpdate>)
    ensures
        update == direct_adjustment(
            peer_views(peers@),
            peer_key@,
            delta_seconds as int,
            now_secs,
        ),
{
    if delta_seconds == 0 {
        return None;
    }
    match peer_with_key(peers, peer_key) {
        None => None,
        Some(peer) => Some(
            ScoreUpdate {
                score_seconds: saturating_add_i64(peer.score_seconds, delta_seconds),
                score_measured_at: now_secs,
            },
        ),
    }
}

/// Deduct a delay from a peer's score.
pub fn deduct_peer_score(
    peers: &[Peer],
    peer_key: &[u8],
    penalty_seconds: i64,
    now_secs: i64,
) -> (update: Option<ScoreUpdate>)
    requires
        penalty_seconds > i64::MIN,
    ensures
        update == direct_adjustment(
            peer_views(peers@),
            peer_key@,
            -penalty_seconds as int,
            now_secs,
        ),
{
    adjust_peer_score_direct(peers, peer_key, -penalty_seconds, now_secs)
}

/// While observation is suspended no verification changes a score.
pub proof fn law_suspended_observation_keeps_scores(
    score: int,
    measured_at: int,
    now: int,
    passed: bool,
)
    requires
        i64::MIN <= score <= i64::MAX,
    ensures
        score_after(score, observed_seconds(measured_at, None, now), passed) == score,
{
}

/// Time before the observation window counts neither for nor against a peer.
pub proof fn law_time_before_window_does_not_count(
    measured_at: int,
    earlier: int,
    window_start: i64,
    now: int,
)
    requires
        0 < earlier <= measured_at <= window_start,
    ensures
        observed_seconds(earlier, Some(window_start), now) == observed_seconds(
            measured_at,
            Some(window_start),
            now,
        ),
{
}

/// A first measurement only starts the clock.
pub proof fn law_first_measurement_changes_nothing(
    score: int,
    window_start: Option<i64>,
    now: int,
    passed: bool,
)
    requires
        i64::MIN <= score <= i64::MAX,
    ensures
        score_after(score, observed_seconds(0, window_start, now), passed) == score,
{
}

/// A failed verification takes back exactly what a passed one over an equally
/// long observed time gave, as long as no bound is hit.
pub proof fn law_failure_undoes_success(score: int, elapsed: int)
    requires
        i64::MIN <= score <= i64::MAX,
        i64::MIN <= score + elapsed <= i64::MAX,
    ensures
        score_after(score_after(score, elapsed, true), elapsed, false) == score,
{
}

/// The time observed runs from the later of the last measurement and the start
/// of the window; there is none without a measurement or without a window.
pub proof fn law_observed_time_runs_from_the_later_start(
    measured_at: i64,
    window_start: Option<i64>,
    now: i64,
    elapsed: i64,
)
    requires
        call_ensures(observed_peer_score_elapsed_secs, (measured_at, window_start, now), elapsed),
    ensures
        measured_at <= 0 || window_start is None ==> elapsed == 0,
        measured_at > 0 ==> (window_start matches Some(start) ==> {
            &&& start <= measured_at ==> elapsed == now - measured_at || now - measured_at
                < i64::MIN && elapsed == i64::MIN
            &&& start >= measured_at && i64::MIN <= now - start <= i64::MAX ==> elapsed == now
                - start
            &&& now - start > i64::MAX && start >= measured_at ==> elapsed == i64::MAX
            &&& now - start < i64::MIN && start >= measured_at ==> elapsed == i64::MIN
        }),
{
}

/// A verification moves the score of a peer on record by the observed time, up
/// where it passed and down where it failed, and stops at the bounds. Whatever
/// came of it, the score counts as measured now.
pub proof fn law_verification_moves_the_score(
    peers: &[Peer],
    key: &[u8],
    passed: bool,
    window_start: Option<i64>,
    now: i64,
    outcome: Result<ScoreUpdate, Status>,
    elapsed: i64,
    p: int,
)
    requires
        call_ensures(update_peer_score, (peers, key, passed, window_start, now), outcome),
        crate::records::first_with_key(peers@, key@, p) ==> call_ensures(
            observed_peer_score_elapsed_secs,
            (peers@[p].score_measured_at, window_start, now),
            elapsed,
        ),
    ensures
        outcome is Ok <==> exists|i: int|
            0 <= i < peers@.len() && (#[trigger] peers@[i]).onion_pubkey@ == key@,
        outcome matches Ok(update) ==> update.score_measured_at == now,
        crate::records::first_with_key(peers@, key@, p) ==> (outcome matches Ok(update) && {
            let target = if passed {
                peers@[p].score_seconds + elapsed
            } else {
                peers@[p].score_seconds - elapsed
            };
            &&& i64::MIN <= target <= i64::MAX ==> update.score_seconds == target
            &&& target > i64::MAX ==> update.score_seconds == i64::MAX
            &&& target < i64::MIN ==> update.score_seconds == i64::MIN
        }),
{
    crate::records::lemma_find_first(peers@, key@);
}

/// A direct change adds exactly its seconds to the score of a peer on record,
/// within the bounds, and a penalty takes them away; a change by nothing, and
/// one for a peer without a record, leaves everything as it is.
pub proof fn law_direct_change_adds_its_seconds(
    peers: &[Peer],
    key: &[u8],
    delta: i64,
    now: i64,
    update: Option<ScoreUpdate>,
    penalty: i64,
    deduction: Option<ScoreUpdate>,
    p: int,
)
    requires
        call_ensures(adjust_peer_score_direct, (peers, key, delta, now), update),
        call_ensures(deduct_peer_score, (peers, key, penalty, now), deduction),
    ensures
        ({
            let known = exists|i: int|
                0 <= i < peers@.len() && (#[trigger] peers@[i]).onion_pubkey@ == key@;
            &&& update is Some <==> delta != 0 && known
            &&& deduction is Some <==> penalty != 0 && known
        }),
        update matches Some(change) ==> change.score_measured_at == now,
        deduction matches Some(change) ==> change.score_measured_at == now,
        crate::records::first_with_key(peers@, key@, p) ==> {
            let score = peers@[p].score_seconds;
            &&& update matches Some(change) ==> {
                &&& i64::MIN <= score + delta <= i64::MAX ==> change.score_seconds == score + delta
                &&& score + delta > i64::MAX ==> change.score_seconds == i64::MAX
                &&& score + delta < i64::MIN ==> change.score_seconds == i64::MIN
            }
            &&& deduction matches Some(change) ==> {
                &&& i64::MIN <= score - penalty <= i64::MAX ==> change.score_seconds == score
                    - penalty
                &&& score - penalty > i64::MAX ==> change.score_seconds == i64::MAX
                &&& score - penalty < i64::MIN ==> change.score_seconds == i64::MIN
            }
        },
{
    crate::records::lemma_find_first(peers@, key@);
}

/// Only the score of a peer on record is moved; for any other peer the node is
/// not in the right state.
pub proof fn law_scores_need_a_record(
    peers: &[Peer],
    key: &[u8],
    passed: bool,
    window_start: Option<i64>,
    now: i64,
    outcome: Result<ScoreUpdate, Status>,
)
    requires
        call_ensures(update_peer_score, (peers, key, passed, window_start, now), outcome),
    ensures
        outcome matches Err(status) ==> status.code is FailedPrecondition,
{
}

} // verus!
