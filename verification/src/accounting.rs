//! How much of the mirrored storage is protected, and by whom.

use crate::arith::{clamp_i64, saturating_add_i64};
use crate::model::{peer_views, Peer, PeerView};
use crate::text::bytes_eq;
use vstd::prelude::*;

verus! {

/// StorageClass splits mirrored peer blobs into reserved and best-effort sets.
#[derive(Clone, Copy, Debug, PartialEq, Eq, Structural)]
pub enum StorageClass {
    /// Reserved blobs belong to peers that are pinned or whose score is above zero.
    Reserved,
    /// BestEffort blobs belong only to peers whose score is zero or negative.
    BestEffort,
}

/// PeerStorageProtectionClass classifies one peer's currently cached bytes.
#[derive(Clone, Copy, Debug, PartialEq, Eq, Structural)]
pub enum PeerStorageProtectionClass {
    /// Nothing means the peer currently has no cached mirrored bytes locally.
    Nothing,
    /// Pinned means cached bytes are protected by an operator pin.
    Pinned,
    /// Protected means cached bytes are protected by a positive peer score.
    Protected,
    /// Disposable means cached bytes are currently best-effort only.
    Disposable,
}

/// StorageAccounting aggregates deduplicated mirrored-blob usage by policy class.
#[derive(Clone, Copy, Debug, PartialEq, Eq, Structural)]
pub struct StorageAccounting {
    /// pinned_bytes are deduplicated cached bytes protected by pinned peers.
    pub pinned_bytes: i64,
    /// protected_bytes are deduplicated cached bytes protected by positive-score peers.
    pub protected_bytes: i64,
    /// disposable_bytes are deduplicated cached bytes referenced only by best-effort peers.
    pub disposable_bytes: i64,
    /// offline_blocking_bytes are protected bytes blocked by offline or stale peers.
    pub offline_blocking_bytes: i64,
    /// reclaimable_bytes are disposable bytes that may be dropped immediately.
    pub reclaimable_bytes: i64,
}

/// PeerBlobReference is one peer's reference to one mirrored blob.
#[derive(Debug, PartialEq, Eq)]
pub struct PeerBlobReference {
    /// peer_public_key identifies the peer that references the blob.
    pub peer_public_key: Vec<u8>,
    /// pinned_by_us reports whether the local operator pinned this peer.
    pub pinned_by_us: bool,
    /// score_seconds is the peer's persisted score from our perspective.
    pub score_seconds: i64,
    /// score_measured_at is when `score_seconds` was last updated.
    pub score_measured_at: i64,
}

/// ReferenceView is the mathematical content of a `PeerBlobReference`.
pub struct ReferenceView {
    /// peer_public_key identifies the peer that references the blob.
    pub peer_public_key: Seq<u8>,
    /// pinned_by_us reports whether the local operator pinned this peer.
    pub pinned_by_us: bool,
    /// score_seconds is the peer's persisted score from our perspective.
    pub score_seconds: i64,
    /// score_measured_at is when `score_seconds` was last updated.
    pub score_measured_at: i64,
}

impl View for PeerBlobReference {
    type V = ReferenceView;

    open spec fn view(&self) -> ReferenceView {
        ReferenceView {
            peer_public_key: self.peer_public_key@,
            pinned_by_us: self.pinned_by_us,
            score_seconds: self.score_seconds,
            score_measured_at: self.score_measured_at,
        }
    }
}

/// MirroredBlobUsage groups all peer references to one locally cached blob.
#[derive(Debug, PartialEq, Eq)]
pub struct MirroredBlobUsage {
    /// content_id identifies the mirrored blob.
    pub content_id: Vec<u8>,
    /// blob_len is the locally stored encrypted blob length.
    pub blob_len: i64,
    /// references are the peers that currently point at this blob.
    pub references: Vec<PeerBlobReference>,
}

/// UsageView is the mathematical content of a `MirroredBlobUsage`.
pub struct UsageView {
    /// content_id identifies the mirrored blob.
    pub content_id: Seq<u8>,
    /// blob_len is the locally stored encrypted blob length.
    pub blob_len: i64,
    /// references are the peers that currently point at this blob.
    pub references: Seq<ReferenceView>,
}

impl View for MirroredBlobUsage {
    type V = UsageView;

    open spec fn view(&self) -> UsageView {
        UsageView {
            content_id: self.content_id@,
            blob_len: self.blob_len,
            references: self.references@.map_values(|r: PeerBlobReference| r@),
        }
    }
}

/// The contents of a list of blob usages.
pub open spec fn usage_views(usage: Seq<MirroredBlobUsage>) -> Seq<UsageView> {
    usage.map_values(|u: MirroredBlobUsage| u@)
}

/// PeerStorageRuntimeState is the live peer-storage state we need for storage reporting.
#[derive(Clone, Copy, Debug, PartialEq, Eq, Structural)]
pub struct PeerStorageRuntimeState {
    /// online reports whether the peer answered the live storage probe.
    pub online: bool,
    /// our_content_synced reports whether the peer currently advertises our latest content.
    pub our_content_synced: bool,
}

/// PeerStorageRuntimeEntry is the live state of one peer.
#[derive(Debug, PartialEq, Eq)]
pub struct PeerStorageRuntimeEntry {
    /// peer_public_key identifies the peer.
    pub peer_public_key: Vec<u8>,
    /// state is what the live probe found.
    pub state: PeerStorageRuntimeState,
}

/// The live state of the peer with `key`, where a later entry replaces an earlier one.
pub open spec fn runtime_state(entries: Seq<PeerStorageRuntimeEntry>, key: Seq<u8>) -> Option<
    PeerStorageRuntimeState,
>
    decreases entries.len(),
{
    if entries.len() == 0 {
        None
    } else if entries.last().peer_public_key@ == key {
        Some(entries.last().state)
    } else {
        runtime_state(entries.drop_last(), key)
    }
}

/// Whether the peer with `key` is online and in sync.
pub open spec fn live_and_synced(entries: Seq<PeerStorageRuntimeEntry>, key: Seq<u8>) -> bool {
    runtime_state(entries, key) matches Some(state) && state.online && state.our_content_synced
}

/// Whether storage for a peer with this pin and score is reserved.
pub open spec fn is_reserved(pinned_by_us: bool, score_seconds: int) -> bool {
    pinned_by_us || score_seconds > 0
}

/// Classify one peer score into reserved or best-effort storage.
pub fn storage_class(pinned_by_us: bool, score_seconds: i64) -> (class: StorageClass)
    ensures
        class == if is_reserved(pinned_by_us, score_seconds as int) {
            StorageClass::Reserved
        } else {
            StorageClass::BestEffort
        },
{
    if pinned_by_us || score_seconds > 0 {
        StorageClass::Reserved
    } else {
        StorageClass::BestEffort
    }
}

/// Whether a reference protects the blob it points at.
pub open spec fn protects(reference: ReferenceView) -> bool {
    is_reserved(reference.pinned_by_us, reference.score_seconds as int)
}

/// Whether some reference is pinned.
pub open spec fn usage_pinned(usage: UsageView) -> bool {
    exists|i: int| 0 <= i < usage.references.len() && (#[trigger] usage.references[i]).pinned_by_us
}

/// Whether some reference protects the blob.
pub open spec fn usage_protected(usage: UsageView) -> bool {
    exists|i: int| 0 <= i < usage.references.len() && protects(#[trigger] usage.references[i])
}

/// Whether the blob is protected, and only by peers that are offline or stale.
pub open spec fn usage_blocked(usage: UsageView, entries: Seq<PeerStorageRuntimeEntry>) -> bool {
    &&& usage_protected(usage)
    &&& forall|i: int|
        0 <= i < usage.references.len() && protects(#[trigger] usage.references[i])
            ==> !live_and_synced(entries, usage.references[i].peer_public_key)
}

/// The bytes of the blobs that `counts` picks, summed in order and saturating.
pub open spec fn bytes_where(usage: Seq<UsageView>, counts: spec_fn(UsageView) -> bool) -> int
    decreases usage.len(),
{
    if usage.len() == 0 {
        0
    } else {
        clamp_i64(
            bytes_where(usage.drop_last(), counts) + if counts(usage.last()) {
                usage.last().blob_len as int
            } else {
                0
            },
        )
    }
}

/// The accounting of `usage`, given the live state of the peers.
pub open spec fn accounting_of(
    usage: Seq<UsageView>,
    entries: Seq<PeerStorageRuntimeEntry>,
) -> StorageAccounting {
    StorageAccounting {
        pinned_bytes: bytes_where(usage, |u: UsageView| usage_pinned(u)) as i64,
        protected_bytes: bytes_where(
            usage,
            |u: UsageView| usage_protected(u) && !usage_pinned(u),
        ) as i64,
        disposable_bytes: bytes_where(usage, |u: UsageView| !usage_protected(u)) as i64,
        offline_blocking_bytes: bytes_where(usage, |u: UsageView| usage_blocked(u, entries)) as i64,
        reclaimable_bytes: bytes_where(usage, |u: UsageView| !usage_protected(u)) as i64,
    }
}

/// A saturating sum stays within `i64`.
pub proof fn lemma_bytes_where_bounds(usage: Seq<UsageView>, counts: spec_fn(UsageView) -> bool)
    ensures
        i64::MIN <= bytes_where(usage, counts) <= i64::MAX,
{
}

/// Report whether the peer with `key` is online and in sync.
fn is_live_and_synced(entries: &[PeerStorageRuntimeEntry], key: &[u8]) -> (live: bool)
    ensures
        live == live_and_synced(entries@, key@),
{
    let mut i: usize = entries.len();
    assert(entries@.take(i as int) =~= entries@);
    while i > 0
        invariant
            i <= entries.len(),
            runtime_state(entries@.take(i as int), key@) == runtime_state(entries@, key@),
        decreases i,
    {
        i = i - 1;
        assert(entries@.take(i + 1).drop_last() =~= entries@.take(i as int));
        let entry = &entries[i];
        if bytes_eq(entry.peer_public_key.as_slice(), key) {
            return entry.state.online && entry.state.our_content_synced;
        }
    }
    false
}

/// UsageFlags is how one blob usage is classified.
struct UsageFlags {
    pinned: bool,
    protected: bool,
    blocked: bool,
}

/// Classify one blob usage.
fn classify_usage(usage: &MirroredBlobUsage, entries: &[PeerStorageRuntimeEntry]) -> (flags:
    UsageFlags)
    ensures
        flags.pinned == usage_pinned(usage@),
        flags.protected == usage_protected(usage@),
        flags.blocked == usage_blocked(usage@, entries@),
{
    let ghost view = usage@;
    let mut pinned = false;
    let mut protected = false;
    let mut reachable = false;
    let mut i: usize = 0;
    while i < usage.references.len()
        invariant
            i <= usage.references.len(),
            view == usage@,
            view.references.len() == usage.references.len(),
            pinned == exists|j: int| 0 <= j < i && (#[trigger] view.references[j]).pinned_by_us,
            protected == exists|j: int| 0 <= j < i && protects(#[trigger] view.references[j]),
            reachable == exists|j: int|
                0 <= j < i && protects(#[trigger] view.references[j]) && live_and_synced(
                    entries@,
                    view.references[j].peer_public_key,
                ),
        decreases usage.references.len() - i,
    {
        let reference = &usage.references[i];
        assert(view.references[i as int] == reference@);
        if reference.pinned_by_us {
            pinned = true;
        }
        if storage_class(reference.pinned_by_us, reference.score_seconds) == StorageClass::Reserved {
            protected = true;
            if !reachable && is_live_and_synced(entries, reference.peer_public_key.as_slice()) {
                reachable = true;
            }
        }
        i += 1;
    }
    UsageFlags { pinned, protected, blocked: protected && !reachable }
}

/// Aggregate deduplicated mirrored-blob usage into operator-facing totals.
pub fn aggregate_storage_accounting(
    usage: &[MirroredBlobUsage],
    contract_state_by_peer: &[PeerStorageRuntimeEntry],
) -> (accounting: StorageAccounting)
    ensures
        accounting == accounting_of(usage_views(usage@), contract_state_by_peer@),
{
    let ghost views = usage_views(usage@);
    let ghost entries = contract_state_by_peer@;
    let mut accounting = StorageAccounting {
        pinned_bytes: 0,
        protected_bytes: 0,
        disposable_bytes: 0,
        offline_blocking_bytes: 0,
        reclaimable_bytes: 0,
    };
    let mut i: usize = 0;
    while i < usage.len()
        invariant
            i <= usage.len(),
            views == usage_views(usage@),
            entries == contract_state_by_peer@,
            accounting == accounting_of(views.take(i as int), entries),
        decreases usage.len() - i,
    {
        let ghost seen = views.take(i as int);
        let blob = &usage[i];
        proof {
            assert(views[i as int] == blob@);
            assert(views.take(i + 1).drop_last() =~= seen);
            assert(views.take(i + 1).last() == blob@);
            lemma_bytes_where_bounds(seen, |u: UsageView| usage_pinned(u));
            lemma_bytes_where_bounds(seen, |u: UsageView| usage_protected(u) && !usage_pinned(u));
            lemma_bytes_where_bounds(seen, |u: UsageView| !usage_protected(u));
            lemma_bytes_where_bounds(seen, |u: UsageView| usage_blocked(u, entries));
            if usage_pinned(blob@) {
                let j = choose|j: int|
                    0 <= j < blob@.references.len() && (#[trigger] blob@.references[j]).pinned_by_us;
                assert(protects(blob@.references[j]));
            }
        }
        let flags = classify_usage(blob, contract_state_by_peer);
        if flags.pinned {
            accounting.pinned_bytes = saturating_add_i64(accounting.pinned_bytes, blob.blob_len);
        } else if flags.protected {
            accounting.protected_bytes = saturating_add_i64(
                accounting.protected_bytes,
                blob.blob_len,
            );
        } else {
            accounting.disposable_bytes = saturating_add_i64(
                accounting.disposable_bytes,
                blob.blob_len,
            );
            accounting.reclaimable_bytes = saturating_add_i64(
                accounting.reclaimable_bytes,
                blob.blob_len,
            );
        }
        if flags.blocked {
            accounting.offline_blocking_bytes = saturating_add_i64(
                accounting.offline_blocking_bytes,
                blob.blob_len,
            );
        }
        i += 1;
    }
    assert(views.take(i as int) =~= views);
    accounting
}

/// The plain sum of the blob lengths that `counts` picks.
pub open spec fn plain_bytes_where(usage: Seq<UsageView>, counts: spec_fn(UsageView) -> bool) -> int
    decreases usage.len(),
{
    if usage.len() == 0 {
        0
    } else {
        plain_bytes_where(usage.drop_last(), counts) + if counts(usage.last()) {
            usage.last().blob_len as int
        } else {
            0
        }
    }
}

/// Whether every blob has a non-negative length.
pub open spec fn lengths_valid(usage: Seq<UsageView>) -> bool {
    forall|i: int| 0 <= i < usage.len() ==> (#[trigger] usage[i]).blob_len >= 0
}

/// Of blobs with valid lengths, a saturating sum is the sum cut off at the
/// largest representable value.
pub proof fn lemma_bytes_where_is_capped_sum(
    usage: Seq<UsageView>,
    counts: spec_fn(UsageView) -> bool,
)
    requires
        lengths_valid(usage),
    ensures
        plain_bytes_where(usage, counts) >= 0,
        bytes_where(usage, counts) == clamp_i64(plain_bytes_where(usage, counts)),
    decreases usage.len(),
{
    if usage.len() > 0 {
        let rest = usage.drop_last();
        assert(usage.last() == usage[usage.len() - 1]);
        assert forall|i: int| 0 <= i < rest.len() implies (#[trigger] rest[i]).blob_len >= 0 by {
            assert(rest[i] == usage[i]);
        }
        lemma_bytes_where_is_capped_sum(rest, counts);
    }
}

/// Every mirrored byte is counted exactly once as pinned, protected or
/// disposable, what is disposable is reclaimable, and only protected bytes
/// block.
pub proof fn law_accounting_partitions_bytes(
    usage: Seq<UsageView>,
    entries: Seq<PeerStorageRuntimeEntry>,
)
    requires
        lengths_valid(usage),
        plain_bytes_where(usage, |u: UsageView| true) <= i64::MAX,
    ensures
        ({
            let accounting = accounting_of(usage, entries);
            &&& accounting.pinned_bytes + accounting.protected_bytes + accounting.disposable_bytes
                == plain_bytes_where(usage, |u: UsageView| true)
            &&& accounting.reclaimable_bytes == accounting.disposable_bytes
            &&& 0 <= accounting.offline_blocking_bytes <= accounting.pinned_bytes
                + accounting.protected_bytes
        }),
{
    let pinned = |u: UsageView| usage_pinned(u);
    let protected = |u: UsageView| usage_protected(u) && !usage_pinned(u);
    let disposable = |u: UsageView| !usage_protected(u);
    let blocked = |u: UsageView| usage_blocked(u, entries);
    lemma_bytes_where_is_capped_sum(usage, pinned);
    lemma_bytes_where_is_capped_sum(usage, protected);
    lemma_bytes_where_is_capped_sum(usage, disposable);
    lemma_bytes_where_is_capped_sum(usage, blocked);
    lemma_partition(usage, entries);
}

/// The plain sums behind `law_accounting_partitions_bytes`.
proof fn lemma_partition(usage: Seq<UsageView>, entries: Seq<PeerStorageRuntimeEntry>)
    requires
        lengths_valid(usage),
    ensures
        plain_bytes_where(usage, |u: UsageView| usage_pinned(u)) + plain_bytes_where(
            usage,
            |u: UsageView| usage_protected(u) && !usage_pinned(u),
        ) + plain_bytes_where(usage, |u: UsageView| !usage_protected(u)) == plain_bytes_where(
            usage,
            |u: UsageView| true,
        ),
        plain_bytes_where(usage, |u: UsageView| usage_pinned(u)) >= 0,
        plain_bytes_where(usage, |u: UsageView| usage_protected(u) && !usage_pinned(u)) >= 0,
        plain_bytes_where(usage, |u: UsageView| !usage_protected(u)) >= 0,
        0 <= plain_bytes_where(usage, |u: UsageView| usage_blocked(u, entries))
            <= plain_bytes_where(usage, |u: UsageView| usage_pinned(u)) + plain_bytes_where(
            usage,
            |u: UsageView| usage_protected(u) && !usage_pinned(u),
        ),
    decreases usage.len(),
{
    if usage.len() > 0 {
        let rest = usage.drop_last();
        let last = usage.last();
        assert(last == usage[usage.len() - 1]);
        assert forall|i: int| 0 <= i < rest.len() implies (#[trigger] rest[i]).blob_len >= 0 by {
            assert(rest[i] == usage[i]);
        }
        lemma_partition(rest, entries);
        if usage_pinned(last) {
            let j = choose|j: int|
                0 <= j < last.references.len() && (#[trigger] last.references[j]).pinned_by_us;
            assert(protects(last.references[j]));
        }
    }
}

/// The sum of the scores.
pub open spec fn score_sum(scores: Seq<i64>) -> int
    decreases scores.len(),
{
    if scores.len() == 0 {
        0
    } else {
        score_sum(scores.drop_last()) + scores.last()
    }
}

/// `a / b` rounded towards zero.
pub open spec fn truncated_quotient(a: int, b: int) -> int
    recommends
        b > 0,
{
    if a >= 0 {
        a / b
    } else {
        -((-a) / b)
    }
}

/// The sum of scores stays within the scores' range, times their number.
proof fn lemma_score_sum_bounds(scores: Seq<i64>)
    ensures
        i64::MIN * scores.len() <= score_sum(scores) <= i64::MAX * scores.len(),
    decreases scores.len(),
{
    if scores.len() > 0 {
        lemma_score_sum_bounds(scores.drop_last());
        let n = scores.len() as int;
        assert(i64::MIN * n == i64::MIN * (n - 1) + i64::MIN) by (nonlinear_arith);
        assert(i64::MAX * n == i64::MAX * (n - 1) + i64::MAX) by (nonlinear_arith);
    }
}

/// Return the arithmetic mean of the provided scores, rounded towards zero.
pub fn mean_score_seconds(scores: &[i64]) -> (mean: i64)
    ensures
        mean == if scores@.len() == 0 {
            0
        } else {
            truncated_quotient(score_sum(scores@), scores@.len() as int)
        },
{
    if scores.len() == 0 {
        return 0;
    }
    let mut total: i128 = 0;
    let mut i: usize = 0;
    while i < scores.len()
        invariant
            i <= scores.len(),
            total == score_sum(scores@.take(i as int)),
        decreases scores.len() - i,
    {
        proof {
            let next = scores@.take(i + 1);
            assert(next.drop_last() =~= scores@.take(i as int));
            lemma_score_sum_bounds(next);
            let n = next.len() as int;
            assert(i64::MAX * n <= i128::MAX) by (nonlinear_arith)
                requires
                    0 <= n <= u64::MAX,
            ;
            assert(i64::MIN * n >= i128::MIN) by (nonlinear_arith)
                requires
                    0 <= n <= u64::MAX,
            ;
        }
        total = total + scores[i] as i128;
        i += 1;
    }
    assert(scores@.take(i as int) =~= scores@);
    let count: i128 = scores.len() as i128;
    proof {
        lemma_score_sum_bounds(scores@);
        let n = count as int;
        let t = total as int;
        assert(i64::MIN <= truncated_quotient(t, n) <= i64::MAX) by {
            if t >= 0 {
                assert(0 <= t / n <= i64::MAX) by (nonlinear_arith)
                    requires
                        0 <= t <= i64::MAX * n,
                        n > 0,
                ;
            } else {
                assert(0 <= (-t) / n <= -(i64::MIN as int)) by (nonlinear_arith)
                    requires
                        0 <= -t <= -(i64::MIN as int) * n,
                        n > 0,
                ;
            }
        }
        assert(i64::MIN * n >= i128::MIN + 1) by (nonlinear_arith)
            requires
                0 <= n <= u64::MAX,
        ;
    }
    if total >= 0 {
        (total / count) as i64
    } else {
        let magnitude: i128 = (-total) / count;
        (-magnitude) as i64
    }
}

/// The content id of a cached revision that counts: one with a positive length.
pub open spec fn counted_id(peer: PeerView) -> Option<Seq<u8>> {
    match peer.latest_cached_content {
        Some(content) => if content.content_length > 0 {
            Some(content.content_id)
        } else {
            None
        },
        None => None,
    }
}

/// Whether peer `i` is the first with its cached revision.
pub open spec fn first_holder(peers: Seq<PeerView>, i: int) -> bool {
    &&& counted_id(peers[i]) is Some
    &&& forall|j: int| 0 <= j < i ==> counted_id(#[trigger] peers[j]) != counted_id(peers[i])
}

/// The lengths of all distinct cached revisions, each taken from its first holder.
pub open spec fn distinct_cached_bytes(peers: Seq<PeerView>) -> int
    decreases peers.len(),
{
    if peers.len() == 0 {
        0
    } else {
        distinct_cached_bytes(peers.drop_last()) + if first_holder(peers, peers.len() - 1) {
            peers.last().latest_cached_content->0.content_length as int
        } else {
            0
        }
    }
}

/// Whether a peer is a first holder depends only on the peers before it.
proof fn lemma_first_holder_take(peers: Seq<PeerView>, i: int)
    requires
        0 <= i < peers.len(),
    ensures
        first_holder(peers.take(i + 1), i) == first_holder(peers, i),
{
    let next = peers.take(i + 1);
    assert(next[i] == peers[i]);
    if first_holder(peers, i) {
        assert forall|j: int| 0 <= j < i implies counted_id(#[trigger] next[j]) != counted_id(
            next[i],
        ) by {
            assert(next[j] == peers[j]);
        }
    }
    if first_holder(next, i) {
        assert forall|j: int| 0 <= j < i implies counted_id(#[trigger] peers[j]) != counted_id(
            peers[i],
        ) by {
            assert(next[j] == peers[j]);
        }
    }
}

/// Report whether peer `i` is the first with its cached revision.
fn is_first_holder(peers: &[Peer], i: usize) -> (first: bool)
    requires
        i < peers.len(),
    ensures
        first == first_holder(peer_views(peers@), i as int),
{
    let ghost views = peer_views(peers@);
    assert(views[i as int] == peers@[i as int]@);
    match &peers[i].latest_cached_content {
        None => false,
        Some(content) => {
            if content.content_length <= 0 {
                return false;
            }
            let mut j: usize = 0;
            while j < i
                invariant
                    j <= i < peers.len(),
                    views == peer_views(peers@),
                    counted_id(views[i as int]) == Some(content.content_id@),
                    forall|k: int|
                        0 <= k < j ==> counted_id(#[trigger] views[k]) != counted_id(views[i as int]),
                decreases i - j,
            {
                assert(views[j as int] == peers@[j as int]@);
                match &peers[j].latest_cached_content {
                    Some(other) => {
                        if other.content_length > 0 && bytes_eq(
                            other.content_id.as_slice(),
                            content.content_id.as_slice(),
                        ) {
                            return false;
                        }
                    },
                    None => {},
                }
                j += 1;
            }
            true
        },
    }
}

/// Sum deduplicated cached mirrored-peer bytes from persisted sidecar metadata.
pub fn mirrored_total_size_bytes_from_tracked_peers(tracked_peers: &[Peer]) -> (total: i64)
    ensures
        total == clamp_i64(distinct_cached_bytes(peer_views(tracked_peers@))),
{
    let ghost views = peer_views(tracked_peers@);
    let mut total: i64 = 0;
    let mut i: usize = 0;
    while i < tracked_peers.len()
        invariant
            i <= tracked_peers.len(),
            views == peer_views(tracked_peers@),
            distinct_cached_bytes(views.take(i as int)) >= 0,
            total == clamp_i64(distinct_cached_bytes(views.take(i as int))),
        decreases tracked_peers.len() - i,
    {
        let ghost next = views.take(i + 1);
        let first = is_first_holder(tracked_peers, i);
        proof {
            assert(views[i as int] == tracked_peers@[i as int]@);
            assert(next.drop_last() =~= views.take(i as int));
            assert(next.last() == views[i as int]);
            lemma_first_holder_take(views, i as int);
        }
        if first {
            if let Some(content) = &tracked_peers[i].latest_cached_content {
                total = saturating_add_i64(total, content.content_length);
            }
        }
        i += 1;
    }
    assert(views.take(i as int) =~= views);
    total
}

/// The lengths of all blobs of a list together.
pub open spec fn total_length(usage: Seq<MirroredBlobUsage>) -> int
    decreases usage.len(),
{
    if usage.len() == 0 {
        0
    } else {
        total_length(usage.drop_last()) + usage.last().blob_len
    }
}

/// Whether no blob has a negative length and all of them together can be counted.
pub open spec fn countable(usage: Seq<MirroredBlobUsage>) -> bool {
    &&& forall|i: int| 0 <= i < usage.len() ==> (#[trigger] usage[i]).blob_len >= 0
    &&& total_length(usage) <= i64::MAX
}

/// Picks the blobs that some pinned peer refers to.
pub open spec fn has_pinned_peer() -> spec_fn(MirroredBlobUsage) -> bool {
    |blob: MirroredBlobUsage|
        exists|r: int|
            0 <= r < blob.references@.len() && (#[trigger] blob.references@[r]).pinned_by_us
}

/// Picks the blobs that some peer with a positive score refers to, and no pinned one.
pub open spec fn has_only_scored_peer() -> spec_fn(MirroredBlobUsage) -> bool {
    |blob: MirroredBlobUsage|
        (forall|r: int|
            0 <= r < blob.references@.len() ==> !(#[trigger] blob.references@[r]).pinned_by_us) && (
        exists|r: int|
            0 <= r < blob.references@.len() && (#[trigger] blob.references@[r]).score_seconds > 0)
}

/// Picks the blobs that neither a pinned peer nor one with a positive score refers to.
pub open spec fn has_no_protector() -> spec_fn(MirroredBlobUsage) -> bool {
    |blob: MirroredBlobUsage|
        forall|r: int|
            0 <= r < blob.references@.len() ==> !(#[trigger] blob.references@[r]).pinned_by_us
                && blob.references@[r].score_seconds <= 0
}

/// Whether the last live state of a peer is that it answered and holds our revision.
pub open spec fn answers_in_sync(entries: Seq<PeerStorageRuntimeEntry>, key: Seq<u8>) -> bool {
    exists|i: int|
        0 <= i < entries.len() && (#[trigger] entries[i]).peer_public_key@ == key
            && entries[i].state.online && entries[i].state.our_content_synced && forall|j: int|
            i < j < entries.len() ==> (#[trigger] entries[j]).peer_public_key@ != key
}

/// Picks the blobs that have protectors, none of which answers in sync.
pub open spec fn has_only_absent_protectors(entries: Seq<PeerStorageRuntimeEntry>) -> spec_fn(
    MirroredBlobUsage,
) -> bool {
    |blob: MirroredBlobUsage|
        !has_no_protector()(blob) && forall|r: int|
            0 <= r < blob.references@.len() && ((#[trigger] blob.references@[r]).pinned_by_us
                || blob.references@[r].score_seconds > 0) ==> !answers_in_sync(
                entries,
                blob.references@[r].peer_public_key@,
            )
}

/// The last live state of a peer counts.
proof fn lemma_live_and_synced(entries: Seq<PeerStorageRuntimeEntry>, key: Seq<u8>)
    ensures
        live_and_synced(entries, key) <==> answers_in_sync(entries, key),
    decreases entries.len(),
{
    if entries.len() > 0 {
        let rest = entries.drop_last();
        let end = entries.len() - 1;
        lemma_live_and_synced(rest, key);
        assert(entries[end] == entries.last());
        if entries.last().peer_public_key@ == key {
            if answers_in_sync(entries, key) {
                let i = choose|i: int|
                    0 <= i < entries.len() && (#[trigger] entries[i]).peer_public_key@ == key
                        && entries[i].state.online && entries[i].state.our_content_synced
                        && forall|j: int|
                        i < j < entries.len() ==> (#[trigger] entries[j]).peer_public_key@ != key;
                assert(i == end);
            }
        } else {
            if answers_in_sync(rest, key) {
                let i = choose|i: int|
                    0 <= i < rest.len() && (#[trigger] rest[i]).peer_public_key@ == key
                        && rest[i].state.online && rest[i].state.our_content_synced && forall|j: int|
                        i < j < rest.len() ==> (#[trigger] rest[j]).peer_public_key@ != key;
                assert(entries[i] == rest[i]);
                assert forall|j: int| i < j < entries.len() implies (
                #[trigger] entries[j]).peer_public_key@ != key by {
                    if j < end {
                        assert(rest[j] == entries[j]);
                    }
                }
            }
            if answers_in_sync(entries, key) {
                let i = choose|i: int|
                    0 <= i < entries.len() && (#[trigger] entries[i]).peer_public_key@ == key
                        && entries[i].state.online && entries[i].state.our_content_synced
                        && forall|j: int|
                        i < j < entries.len() ==> (#[trigger] entries[j]).peer_public_key@ != key;
                assert(rest[i] == entries[i]);
                assert forall|j: int| i < j < rest.len() implies (
                #[trigger] rest[j]).peer_public_key@ != key by {
                    assert(entries[j] == rest[j]);
                }
            }
        }
    }
}

/// The saturating sum of countable blobs is the length of those that are picked.
proof fn lemma_bytes_of_picked(
    usage: Seq<MirroredBlobUsage>,
    counts: spec_fn(UsageView) -> bool,
    picks: spec_fn(MirroredBlobUsage) -> bool,
)
    requires
        countable(usage),
        forall|blob: MirroredBlobUsage| #[trigger] picks(blob) <==> counts(blob@),
    ensures
        bytes_where(usage_views(usage), counts) == total_length(usage.filter(picks)),
        0 <= total_length(usage.filter(picks)) <= total_length(usage),
    decreases usage.len(),
{
    reveal(Seq::filter);
    if usage.len() > 0 {
        let rest = usage.drop_last();
        assert(usage[usage.len() - 1] == usage.last());
        assert forall|i: int| 0 <= i < rest.len() implies (#[trigger] rest[i]).blob_len >= 0 by {
            assert(rest[i] == usage[i]);
        }
        lemma_bytes_of_picked(rest, counts, picks);
        assert(usage_views(usage).drop_last() =~= usage_views(rest));
        assert(usage_views(usage).last() == usage.last()@);
        assert(picks(usage.last()) <==> counts(usage.last()@));
        if picks(usage.last()) {
            let picked = usage.filter(picks);
            assert(picked.drop_last() =~= rest.filter(picks));
        }
    }
}

/// How blobs are classified by who refers to them.
proof fn lemma_blob_kinds(entries: Seq<PeerStorageRuntimeEntry>)
    ensures
        forall|blob: MirroredBlobUsage| #[trigger]
            has_pinned_peer()(blob) <==> (|u: UsageView| usage_pinned(u))(blob@),
        forall|blob: MirroredBlobUsage| #[trigger]
            has_only_scored_peer()(blob) <==> (|u: UsageView|
                usage_protected(u) && !usage_pinned(u))(blob@),
        forall|blob: MirroredBlobUsage| #[trigger]
            has_no_protector()(blob) <==> (|u: UsageView| !usage_protected(u))(blob@),
        forall|blob: MirroredBlobUsage| #[trigger]
            has_only_absent_protectors(entries)(blob) <==> (|u: UsageView|
                usage_blocked(u, entries))(blob@),
{
    assert forall|blob: MirroredBlobUsage| true implies {
        &&& #[trigger] has_pinned_peer()(blob) <==> usage_pinned(blob@)
        &&& has_only_scored_peer()(blob) <==> usage_protected(blob@) && !usage_pinned(blob@)
        &&& has_no_protector()(blob) <==> !usage_protected(blob@)
        &&& has_only_absent_protectors(entries)(blob) <==> usage_blocked(blob@, entries)
    } by {
        lemma_blob_kind(blob, entries);
    }
    assert forall|blob: MirroredBlobUsage| #[trigger] has_only_scored_peer()(blob) <==> (
    |u: UsageView| usage_protected(u) && !usage_pinned(u))(blob@) by {
        lemma_blob_kind(blob, entries);
    }
    assert forall|blob: MirroredBlobUsage| #[trigger] has_no_protector()(blob) <==> (|u: UsageView|
        !usage_protected(u))(blob@) by {
        lemma_blob_kind(blob, entries);
    }
    assert forall|blob: MirroredBlobUsage| #[trigger] has_only_absent_protectors(entries)(blob)
        <==> (|u: UsageView| usage_blocked(u, entries))(blob@) by {
        lemma_blob_kind(blob, entries);
    }
}

/// How one blob is classified by who refers to it.
proof fn lemma_blob_kind(blob: MirroredBlobUsage, entries: Seq<PeerStorageRuntimeEntry>)
    ensures
        has_pinned_peer()(blob) <==> usage_pinned(blob@),
        has_only_scored_peer()(blob) <==> usage_protected(blob@) && !usage_pinned(blob@),
        has_no_protector()(blob) <==> !usage_protected(blob@),
        has_only_absent_protectors(entries)(blob) <==> usage_blocked(blob@, entries),
{
    let raw = blob.references@;
    let views = blob@.references;
    assert(views.len() == raw.len());
    assert forall|r: int| 0 <= r < raw.len() implies #[trigger] views[r] == raw[r]@ by {}
    assert forall|r: int| 0 <= r < raw.len() implies #[trigger] raw[r].pinned_by_us
        == views[r].pinned_by_us && raw[r].score_seconds == views[r].score_seconds by {}
    assert forall|r: int| 0 <= r < raw.len() implies live_and_synced(
        entries,
        (#[trigger] views[r]).peer_public_key,
    ) == answers_in_sync(entries, raw[r].peer_public_key@) by {
        lemma_live_and_synced(entries, raw[r].peer_public_key@);
    }
    if usage_pinned(blob@) {
        let r = choose|r: int| 0 <= r < views.len() && (#[trigger] views[r]).pinned_by_us;
        assert(raw[r].pinned_by_us);
    }
    if has_pinned_peer()(blob) {
        let r = choose|r: int| 0 <= r < raw.len() && (#[trigger] raw[r]).pinned_by_us;
        assert(views[r].pinned_by_us);
        assert(protects(views[r]));
    }
    if usage_protected(blob@) {
        let r = choose|r: int| 0 <= r < views.len() && protects(#[trigger] views[r]);
        assert(raw[r].pinned_by_us || raw[r].score_seconds > 0);
    }
    if has_only_scored_peer()(blob) {
        let r = choose|r: int| 0 <= r < raw.len() && (#[trigger] raw[r]).score_seconds > 0;
        assert(protects(views[r]));
    }
    if !has_no_protector()(blob) {
        let r = choose|r: int|
            0 <= r < raw.len() && !(!(#[trigger] raw[r]).pinned_by_us && raw[r].score_seconds <= 0);
        assert(protects(views[r]));
    }
    if usage_blocked(blob@, entries) {
        assert forall|r: int|
            0 <= r < raw.len() && ((#[trigger] raw[r]).pinned_by_us || raw[r].score_seconds > 0)
            implies !answers_in_sync(entries, raw[r].peer_public_key@) by {
            assert(protects(views[r]));
        }
    }
    if has_only_absent_protectors(entries)(blob) {
        assert forall|r: int| 0 <= r < views.len() && protects(#[trigger] views[r])
            implies !live_and_synced(entries, views[r].peer_public_key) by {
            assert(raw[r].pinned_by_us || raw[r].score_seconds > 0);
        }
    }
}

/// The bytes of each class are those of the blobs that it picks.
pub proof fn lemma_accounting_by_protector(
    usage: Seq<MirroredBlobUsage>,
    entries: Seq<PeerStorageRuntimeEntry>,
)
    requires
        countable(usage),
    ensures
        ({
            let accounting = accounting_of(usage_views(usage), entries);
            &&& accounting.pinned_bytes == total_length(usage.filter(has_pinned_peer()))
            &&& accounting.protected_bytes == total_length(usage.filter(has_only_scored_peer()))
            &&& accounting.disposable_bytes == total_length(usage.filter(has_no_protector()))
            &&& accounting.reclaimable_bytes == total_length(usage.filter(has_no_protector()))
            &&& accounting.offline_blocking_bytes == total_length(
                usage.filter(has_only_absent_protectors(entries)),
            )
        }),
{
    lemma_blob_kinds(entries);
    lemma_bytes_of_picked(usage, |u: UsageView| usage_pinned(u), has_pinned_peer());
    lemma_bytes_of_picked(
        usage,
        |u: UsageView| usage_protected(u) && !usage_pinned(u),
        has_only_scored_peer(),
    );
    lemma_bytes_of_picked(usage, |u: UsageView| !usage_protected(u), has_no_protector());
    lemma_bytes_of_picked(
        usage,
        |u: UsageView| usage_blocked(u, entries),
        has_only_absent_protectors(entries),
    );
}

/// Pinned bytes are those that some pinned peer refers to, protected bytes those
/// that a positive score protects and no pin, and disposable and reclaimable
/// bytes those that neither does. Bytes whose protectors all fail to answer in
/// sync block.
pub proof fn law_bytes_are_counted_by_protector(
    usage: &[MirroredBlobUsage],
    entries: &[PeerStorageRuntimeEntry],
    accounting: StorageAccounting,
)
    requires
        countable(usage@),
        call_ensures(aggregate_storage_accounting, (usage, entries), accounting),
    ensures
        accounting.pinned_bytes == total_length(usage@.filter(has_pinned_peer())),
        accounting.protected_bytes == total_length(usage@.filter(has_only_scored_peer())),
        accounting.disposable_bytes == total_length(usage@.filter(has_no_protector())),
        accounting.reclaimable_bytes == total_length(usage@.filter(has_no_protector())),
        accounting.offline_blocking_bytes == total_length(
            usage@.filter(has_only_absent_protectors(entries@)),
        ),
{
    lemma_accounting_by_protector(usage@, entries@);
}

/// Storage is reserved by a pin or a score above zero, and by nothing else.
pub proof fn law_pins_and_positive_scores_reserve(
    pinned_by_us: bool,
    score_seconds: i64,
    class: StorageClass,
)
    requires
        call_ensures(storage_class, (pinned_by_us, score_seconds), class),
    ensures
        class is Reserved <==> pinned_by_us || score_seconds > 0,
        class is BestEffort <==> !pinned_by_us && score_seconds <= 0,
{
}

/// The sum of numbers, from left to right.
pub open spec fn sum_up(scores: Seq<i64>) -> int {
    scores.fold_left(0int, |sum: int, score: i64| sum + score)
}

/// The sum of scores is the sum of numbers.
proof fn lemma_score_sum(scores: Seq<i64>)
    ensures
        score_sum(scores) == sum_up(scores),
    decreases scores.len(),
{
    if scores.len() > 0 {
        lemma_score_sum(scores.drop_last());
    }
}

/// The mean times the number of scores is their sum, up to a rest that is
/// smaller than their number and has the sum's sign. No scores have mean zero.
pub proof fn law_mean_is_rounded_towards_zero(scores: &[i64], mean: i64)
    requires
        call_ensures(mean_score_seconds, (scores,), mean),
    ensures
        scores@.len() == 0 ==> mean == 0,
        scores@.len() > 0 && sum_up(scores@) >= 0 ==> {
            &&& mean >= 0
            &&& mean * scores@.len() <= sum_up(scores@)
            &&& sum_up(scores@) < mean * scores@.len() + scores@.len()
        },
        scores@.len() > 0 && sum_up(scores@) < 0 ==> {
            &&& mean <= 0
            &&& sum_up(scores@) <= mean * scores@.len()
            &&& mean * scores@.len() - scores@.len() < sum_up(scores@)
        },
{
    lemma_score_sum(scores@);
    let n = scores@.len() as int;
    let t = score_sum(scores@);
    if n > 0 {
        if t >= 0 {
            vstd::arithmetic::div_mod::lemma_fundamental_div_mod(t, n);
            vstd::arithmetic::div_mod::lemma_mod_bound(t, n);
            let q = t / n;
            assert(q * n == n * q) by (nonlinear_arith);
            assert(q >= 0) by (nonlinear_arith)
                requires
                    t >= 0,
                    n > 0,
                    q == t / n,
            ;
        } else {
            let m = -t;
            vstd::arithmetic::div_mod::lemma_fundamental_div_mod(m, n);
            vstd::arithmetic::div_mod::lemma_mod_bound(m, n);
            let q = m / n;
            assert((-q) * n == -(n * q)) by (nonlinear_arith);
            assert(q >= 0) by (nonlinear_arith)
                requires
                    m >= 0,
                    n > 0,
                    q == m / n,
            ;
        }
    }
}

/// Whether some of `peers` has bytes of the revision `id`.
pub open spec fn counts_already(peers: Seq<Peer>, id: Seq<u8>) -> bool {
    exists|i: int|
        0 <= i < peers.len() && (#[trigger] peers[i]).latest_cached_content is Some
            && peers[i].latest_cached_content->0.content_id@ == id
            && peers[i].latest_cached_content->0.content_length > 0
}

/// Mirrored bytes are counted once for each revision: one more peer adds the
/// length of its cached revision where no peer before it has that revision, and
/// nothing otherwise. No peers have no bytes.
pub proof fn law_each_revision_is_counted_once(
    peers: &[Peer],
    more: &[Peer],
    peer: Peer,
    total: i64,
    next: i64,
)
    requires
        call_ensures(mirrored_total_size_bytes_from_tracked_peers, (peers,), total),
        call_ensures(mirrored_total_size_bytes_from_tracked_peers, (more,), next),
        more@ == peers@.push(peer),
        next < i64::MAX,
    ensures
        peers@.len() == 0 ==> total == 0,
        match peer.latest_cached_content {
            Some(content) => if content.content_length > 0 && !counts_already(
                peers@,
                content.content_id@,
            ) {
                next == total + content.content_length
            } else {
                next == total
            },
            None => next == total,
        },
{
    let views = peer_views(peers@);
    let later = peer_views(more@);
    let end = peers@.len() as int;
    assert(later.drop_last() =~= views);
    assert(later.last() == peer@);
    lemma_distinct_bytes_grow(views);
    lemma_distinct_bytes_grow(later);
    assert forall|j: int| 0 <= j < end implies #[trigger] later[j] == peers@[j]@ by {
        assert(more@[j] == peers@[j]);
    }
    if let Some(content) = peer.latest_cached_content {
        if content.content_length > 0 {
            if counts_already(peers@, content.content_id@) {
                let i = choose|i: int|
                    0 <= i < peers@.len() && (#[trigger] peers@[i]).latest_cached_content is Some
                        && peers@[i].latest_cached_content->0.content_id@ == content.content_id@
                        && peers@[i].latest_cached_content->0.content_length > 0;
                assert(counted_id(later[i]) == counted_id(later[end]));
                assert(!first_holder(later, end));
            } else {
                assert forall|j: int| 0 <= j < end implies counted_id(#[trigger] later[j])
                    != counted_id(later[end]) by {
                    if counted_id(later[j]) == counted_id(later[end]) {
                        assert(peers@[j].latest_cached_content is Some);
                    }
                }
            }
        }
    }
}

/// Distinct cached bytes are never negative and never shrink.
proof fn lemma_distinct_bytes_grow(peers: Seq<PeerView>)
    ensures
        distinct_cached_bytes(peers) >= 0,
        peers.len() > 0 ==> distinct_cached_bytes(peers) >= distinct_cached_bytes(peers.drop_last()),
    decreases peers.len(),
{
    if peers.len() > 0 {
        lemma_distinct_bytes_grow(peers.drop_last());
        if first_holder(peers, peers.len() - 1) {
            assert(counted_id(peers[peers.len() - 1]) is Some);
        }
    }
}

/// What is picked is no longer than all together.
pub proof fn lemma_picked_no_more(
    usage: Seq<MirroredBlobUsage>,
    picks: spec_fn(MirroredBlobUsage) -> bool,
)
    requires
        countable(usage),
    ensures
        0 <= total_length(usage.filter(picks)) <= total_length(usage),
    decreases usage.len(),
{
    reveal(Seq::filter);
    if usage.len() > 0 {
        let rest = usage.drop_last();
        assert(usage[usage.len() - 1] == usage.last());
        assert forall|i: int| 0 <= i < rest.len() implies (#[trigger] rest[i]).blob_len >= 0 by {
            assert(rest[i] == usage[i]);
        }
        lemma_picked_no_more(rest, picks);
        if picks(usage.last()) {
            assert(usage.filter(picks).drop_last() =~= rest.filter(picks));
        }
    }
}

/// Protected bytes are those of the blobs with a protector.
pub proof fn lemma_protected_bytes(
    usage: Seq<MirroredBlobUsage>,
    picks: spec_fn(MirroredBlobUsage) -> bool,
)
    requires
        countable(usage),
        forall|blob: MirroredBlobUsage| #[trigger] picks(blob) <==> !has_no_protector()(blob),
    ensures
        bytes_where(usage_views(usage), |u: UsageView| usage_protected(u)) == total_length(
            usage.filter(picks),
        ),
        total_length(usage.filter(picks)) >= 0,
{
    assert forall|blob: MirroredBlobUsage| #[trigger] picks(blob) <==> (|u: UsageView|
        usage_protected(u))(blob@) by {
        lemma_blob_kind(blob, Seq::empty());
    }
    lemma_bytes_of_picked(usage, |u: UsageView| usage_protected(u), picks);
}

} // verus!
