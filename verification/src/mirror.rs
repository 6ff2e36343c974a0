//! Which mirrored blobs are kept within the storage budget.

use crate::accounting::{
    bytes_where, is_reserved, lemma_bytes_where_bounds, lengths_valid, plain_bytes_where, protects,
    storage_class, usage_protected, usage_views, MirroredBlobUsage, PeerBlobReference,
    ReferenceView, StorageClass, UsageView,
};
use crate::arith::{
    at_least_zero, at_least_zero_i64, clamp_i64, i64_from_usize, max_int, min_int,
    saturating_add_i64, saturating_sub_i64,
};
use crate::content::Limits;
use crate::model::{peer_views, Peer, PeerView};
use crate::order::{lemma_picked_multiset, sort_positions, stable_order, strict_weak_order};
use crate::records::{find_read, read_of, BlobRead};
use crate::status::{
    fails_with, invalid_argument, map_storage_error, plain_status, storage_status, Code, Status,
    StatusView, StorageError,
};
use crate::text::{
    bytes_before, bytes_copy, bytes_eq, bytes_less, lemma_bytes_before_irreflexive,
    lemma_bytes_before_total, lemma_bytes_before_transitive,
};
use vstd::prelude::*;

verus! {

/// The bytes held for a blob, where a missing or damaged one holds none.
pub open spec fn held_bytes(reads: Seq<BlobRead>, id: Seq<u8>) -> int {
    match read_of(reads, id) {
        Ok(len) => clamp_i64(len as int),
        Err(_) => 0,
    }
}

/// The failure of reading a blob that is neither missing nor damaged.
pub open spec fn read_failure(reads: Seq<BlobRead>, id: Seq<u8>) -> Option<StatusView> {
    match read_of(reads, id) {
        Ok(_) => None,
        Err(StorageError::FileNotFound) => None,
        Err(StorageError::RecoveryRequired(_)) => None,
        Err(error) => Some(storage_status(error)),
    }
}

/// The failure of the first peer whose cached blob cannot be read.
pub open spec fn first_read_failure(peers: Seq<PeerView>, reads: Seq<BlobRead>) -> Option<StatusView>
    decreases peers.len(),
{
    if peers.len() == 0 {
        None
    } else {
        match peers[0].latest_cached_content {
            Some(content) => if read_failure(reads, content.content_id) is Some {
                read_failure(reads, content.content_id)
            } else {
                first_read_failure(peers.drop_first(), reads)
            },
            None => first_read_failure(peers.drop_first(), reads),
        }
    }
}

/// The references of `peers` to the blob `id`, in the order of the peers.
pub open spec fn references_to(peers: Seq<PeerView>, id: Seq<u8>) -> Seq<ReferenceView>
    decreases peers.len(),
{
    if peers.len() == 0 {
        Seq::<ReferenceView>::empty()
    } else {
        let rest = references_to(peers.drop_last(), id);
        let peer = peers.last();
        if caches(peer, id) {
            rest.push(reference_of(peer))
        } else {
            rest
        }
    }
}

/// Whether the peer's cached revision is `id`.
pub open spec fn caches(peer: PeerView, id: Seq<u8>) -> bool {
    peer.latest_cached_content matches Some(content) && content.content_id == id
}

/// The reference that a peer makes to its cached revision.
pub open spec fn reference_of(peer: PeerView) -> ReferenceView {
    ReferenceView {
        peer_public_key: peer.onion_pubkey,
        pinned_by_us: peer.pinned_by_us,
        score_seconds: peer.score_seconds,
        score_measured_at: peer.score_measured_at,
    }
}

/// Whether `id` is held for some peer.
pub open spec fn held_for_some(peers: Seq<PeerView>, reads: Seq<BlobRead>, id: Seq<u8>) -> bool {
    held_bytes(reads, id) != 0 && exists|k: int| 0 <= k < peers.len() && caches(#[trigger] peers[k], id)
}

/// Whether `usage` lists every blob that is held for some peer, once, in
/// ascending order of content id, with its length and all references to it.
pub open spec fn is_usage_of(
    usage: Seq<UsageView>,
    peers: Seq<PeerView>,
    reads: Seq<BlobRead>,
) -> bool {
    &&& forall|i: int, j: int|
        0 <= i < j < usage.len() ==> bytes_before(
            (#[trigger] usage[i]).content_id,
            (#[trigger] usage[j]).content_id,
        )
    &&& forall|i: int|
        0 <= i < usage.len() ==> {
            &&& held_for_some(peers, reads, (#[trigger] usage[i]).content_id)
            &&& usage[i].blob_len == held_bytes(reads, usage[i].content_id)
            &&& usage[i].references == references_to(peers, usage[i].content_id)
        }
    &&& forall|id: Seq<u8>| #[trigger]
        held_for_some(peers, reads, id) ==> exists|i: int|
            0 <= i < usage.len() && (#[trigger] usage[i]).content_id == id
}

/// The content ids of a list.
pub open spec fn ids_of(ids: Seq<Vec<u8>>) -> Seq<Seq<u8>> {
    ids.map_values(|id: Vec<u8>| id@)
}

/// Whether content ids stand in strictly ascending order.
pub open spec fn ids_ascending(ids: Seq<Seq<u8>>) -> bool {
    forall|i: int, j: int| 0 <= i < j < ids.len() ==> bytes_before(#[trigger] ids[i], #[trigger] ids[j])
}

/// Add `id` to an ascending list of content ids.
fn insert_id(ids: &mut Vec<Vec<u8>>, id: &[u8])
    requires
        ids_ascending(ids_of(old(ids)@)),
    ensures
        ids_ascending(ids_of(final(ids)@)),
        forall|x: Seq<u8>| #[trigger]
            ids_of(final(ids)@).contains(x) <==> ids_of(old(ids)@).contains(x) || x == id@,
{
    let ghost before = ids_of(ids@);
    let mut at: usize = 0;
    while at < ids.len() && bytes_less(ids[at].as_slice(), id)
        invariant
            at <= ids.len(),
            before == ids_of(ids@),
            forall|i: int| 0 <= i < at ==> bytes_before(#[trigger] before[i], id@),
        decreases ids.len() - at,
    {
        assert(before[at as int] == ids@[at as int]@);
        at += 1;
    }
    if at < ids.len() && bytes_eq(ids[at].as_slice(), id) {
        assert(before[at as int] == id@);
        assert(before.contains(id@));
        return;
    }
    proof {
        if at < before.len() {
            assert(before[at as int] == ids@[at as int]@);
            lemma_bytes_before_total(before[at as int], id@);
            assert(bytes_before(id@, before[at as int]));
        }
    }
    ids.insert(at, bytes_copy(id));
    proof {
        let after = ids_of(ids@);
        assert(after =~= before.insert(at as int, id@));
        assert forall|i: int, j: int| 0 <= i < j < after.len() implies bytes_before(
            #[trigger] after[i],
            #[trigger] after[j],
        ) by {
            let bi = if i < at { i } else { i - 1 };
            let bj = if j < at { j } else { j - 1 };
            if i == at {
                if bj > at {
                    assert(bytes_before(before[at as int], before[bj]));
                    lemma_bytes_before_transitive(id@, before[at as int], before[bj]);
                }
            } else if j == at {
                assert(bytes_before(before[bi], id@));
            } else {
                assert(bytes_before(before[bi], before[bj]));
            }
        }
        assert forall|x: Seq<u8>| #[trigger] after.contains(x) <==> before.contains(x) || x == id@ by {
            if after.contains(x) {
                let i = choose|i: int| 0 <= i < after.len() && after[i] == x;
                if i != at {
                    let bi = if i < at { i } else { i - 1 };
                    assert(before[bi] == x);
                }
            }
            if before.contains(x) {
                let i = choose|i: int| 0 <= i < before.len() && before[i] == x;
                let ai = if i < at { i } else { i + 1 };
                assert(after[ai] == x);
            }
            assert(after[at as int] == id@);
        }
    }
}

/// Collect the references of `peers` to the blob `id`.
fn collect_references(peers: &[Peer], id: &[u8]) -> (references: Vec<PeerBlobReference>)
    ensures
        references@.map_values(|r: PeerBlobReference| r@) == references_to(peer_views(peers@), id@),
{
    let ghost views = peer_views(peers@);
    let mut references: Vec<PeerBlobReference> = Vec::new();
    let mut i: usize = 0;
    assert(references@.map_values(|r: PeerBlobReference| r@) =~= references_to(views.take(0), id@));
    while i < peers.len()
        invariant
            i <= peers.len(),
            views == peer_views(peers@),
            references@.map_values(|r: PeerBlobReference| r@) == references_to(
                views.take(i as int),
                id@,
            ),
        decreases peers.len() - i,
    {
        let ghost before = references@;
        let peer = &peers[i];
        proof {
            assert(views[i as int] == peer@);
            assert(views.take(i + 1).drop_last() =~= views.take(i as int));
        }
        let cached = match &peer.latest_cached_content {
            Some(content) => bytes_eq(content.content_id.as_slice(), id),
            None => false,
        };
        assert(cached == caches(peer@, id@));
        if cached {
            let reference = PeerBlobReference {
                peer_public_key: bytes_copy(peer.onion_pubkey.as_slice()),
                pinned_by_us: peer.pinned_by_us,
                score_seconds: peer.score_seconds,
                score_measured_at: peer.score_measured_at,
            };
            references.push(reference);
            assert(references@.map_values(|r: PeerBlobReference| r@) =~= before.map_values(
                |r: PeerBlobReference| r@,
            ).push(reference_of(peer@)));
        }
        i += 1;
    }
    assert(views.take(i as int) =~= views);
    references
}

/// Report how many bytes are held for the blob `id`, or why it cannot be told.
fn held_length(reads: &[BlobRead], id: &[u8]) -> (outcome: Result<i64, Status>)
    ensures
        match read_failure(reads@, id@) {
            Some(failure) => fails_with(outcome, failure),
            None => outcome matches Ok(len) && len == held_bytes(reads@, id@),
        },
{
    match find_read(reads, id) {
        None => Ok(0),
        Some(read) => match &read.outcome {
            Ok(len) => Ok(i64_from_usize(*len)),
            Err(StorageError::FileNotFound) => Ok(0),
            Err(StorageError::RecoveryRequired(_)) => Ok(0),
            Err(error) => Err(map_storage_error(error.clone())),
        },
    }
}

/// Collect the ids of all blobs held for some peer, in ascending order.
fn collect_held_ids(peers: &[Peer], reads: &[BlobRead]) -> (outcome: Result<Vec<Vec<u8>>, Status>)
    ensures
        match first_read_failure(peer_views(peers@), reads@) {
            Some(failure) => fails_with(outcome, failure),
            None => outcome matches Ok(ids) && ids_ascending(ids_of(ids@)) && (forall|x: Seq<u8>|
                #[trigger]
                ids_of(ids@).contains(x) <==> held_for_some(peer_views(peers@), reads@, x)),
        },
{
    let ghost views = peer_views(peers@);
    let mut ids: Vec<Vec<u8>> = Vec::new();
    let mut i: usize = 0;
    assert(views.skip(0) =~= views);
    while i < peers.len()
        invariant
            i <= peers.len(),
            views == peer_views(peers@),
            first_read_failure(views.skip(i as int), reads@) == first_read_failure(views, reads@),
            ids_ascending(ids_of(ids@)),
            forall|x: Seq<u8>| #[trigger]
                ids_of(ids@).contains(x) <==> held_for_some(views.take(i as int), reads@, x),
        decreases peers.len() - i,
    {
        let ghost seen = views.take(i as int);
        let ghost next = views.take(i + 1);
        let ghost listed = ids_of(ids@);
        let ghost mut added: Option<Seq<u8>> = None;
        proof {
            assert(views[i as int] == peers@[i as int]@);
            assert(views.skip(i as int)[0] == peers@[i as int]@);
            assert(views.skip(i as int).drop_first() =~= views.skip(i + 1));
        }
        if let Some(content) = &peers[i].latest_cached_content {
            match held_length(reads, content.content_id.as_slice()) {
                Err(status) => return Err(status),
                Ok(len) => {
                    if len != 0 {
                        insert_id(&mut ids, content.content_id.as_slice());
                        proof {
                            added = Some(content.content_id@);
                        }
                    }
                },
            }
        }
        proof {
            assert forall|x: Seq<u8>| #[trigger]
                ids_of(ids@).contains(x) <==> held_for_some(next, reads@, x) by {
                assert(listed.contains(x) <==> held_for_some(seen, reads@, x));
                if held_for_some(seen, reads@, x) {
                    let k = choose|k: int| 0 <= k < seen.len() && caches(#[trigger] seen[k], x);
                    assert(next[k] == seen[k]);
                }
                if held_for_some(next, reads@, x) {
                    let k = choose|k: int| 0 <= k < next.len() && caches(#[trigger] next[k], x);
                    if k < i {
                        assert(seen[k] == next[k]);
                    } else {
                        assert(next[k] == views[i as int]);
                        assert(added == Some(x));
                    }
                }
                if added == Some(x) {
                    assert(caches(next[i as int], x));
                }
            }
        }
        i += 1;
    }
    assert(views.take(i as int) =~= views);
    Ok(ids)
}

/// Group all currently cached mirrored blobs with the peers that reference them.
pub fn mirrored_blob_usage(peers: &[Peer], reads: &[BlobRead]) -> (outcome: Result<
    Vec<MirroredBlobUsage>,
    Status,
>)
    ensures
        match first_read_failure(peer_views(peers@), reads@) {
            Some(failure) => fails_with(outcome, failure),
            None => outcome matches Ok(usage) && is_usage_of(
                usage_views(usage@),
                peer_views(peers@),
                reads@,
            ),
        },
{
    let ghost views = peer_views(peers@);
    let ids = match collect_held_ids(peers, reads) {
        Ok(ids) => ids,
        Err(status) => return Err(status),
    };
    let ghost listed = ids_of(ids@);
    let mut usage: Vec<MirroredBlobUsage> = Vec::new();
    let mut i: usize = 0;
    proof {
        lemma_no_read_failure(views, reads@);
    }
    while i < ids.len()
        invariant
            i <= ids.len(),
            views == peer_views(peers@),
            listed == ids_of(ids@),
            first_read_failure(views, reads@) is None,
            forall|k: int|
                0 <= k < views.len() ==> ((#[trigger] views[k]).latest_cached_content matches Some(
                    content,
                ) ==> read_failure(reads@, content.content_id) is None),
            forall|x: Seq<u8>| #[trigger] listed.contains(x) <==> held_for_some(views, reads@, x),
            usage.len() == i,
            forall|k: int|
                0 <= k < i ==> {
                    &&& (#[trigger] usage@[k])@.content_id == listed[k]
                    &&& usage@[k]@.blob_len == held_bytes(reads@, listed[k])
                    &&& usage@[k]@.references == references_to(views, listed[k])
                },
        decreases ids.len() - i,
    {
        let id = ids[i].as_slice();
        assert(listed[i as int] == id@);
        assert(listed.contains(id@));
        proof {
            let k = choose|k: int| 0 <= k < views.len() && caches(#[trigger] views[k], id@);
            assert(read_failure(reads@, id@) is None);
        }
        match held_length(reads, id) {
            Err(status) => {
                assert(false);
                return Err(status);
            },
            Ok(blob_len) => {
                let references = collect_references(peers, id);
                let item = MirroredBlobUsage { content_id: bytes_copy(id), blob_len, references };
                usage.push(item);
            },
        }
        i += 1;
    }
    proof {
        let result = usage_views(usage@);
        assert forall|a: int, b: int| 0 <= a < b < result.len() implies bytes_before(
            (#[trigger] result[a]).content_id,
            (#[trigger] result[b]).content_id,
        ) by {
            assert(result[a] == usage@[a]@ && result[b] == usage@[b]@);
            assert(bytes_before(listed[a], listed[b]));
        }
        assert forall|a: int| 0 <= a < result.len() implies {
            &&& held_for_some(views, reads@, (#[trigger] result[a]).content_id)
            &&& result[a].blob_len == held_bytes(reads@, result[a].content_id)
            &&& result[a].references == references_to(views, result[a].content_id)
        } by {
            assert(result[a] == usage@[a]@);
            assert(listed.contains(listed[a]));
        }
        assert forall|id: Seq<u8>| #[trigger] held_for_some(views, reads@, id) implies exists|a: int|
            0 <= a < result.len() && (#[trigger] result[a]).content_id == id by {
            assert(listed.contains(id));
            let a = choose|a: int| 0 <= a < listed.len() && listed[a] == id;
            assert(result[a] == usage@[a]@);
        }
    }
    Ok(usage)
}

/// Without a first failure there is none.
proof fn lemma_no_read_failure(peers: Seq<PeerView>, reads: Seq<BlobRead>)
    requires
        first_read_failure(peers, reads) is None,
    ensures
        forall|k: int|
            0 <= k < peers.len() ==> ((#[trigger] peers[k]).latest_cached_content matches Some(
                content,
            ) ==> read_failure(reads, content.content_id) is None),
    decreases peers.len(),
{
    if peers.len() > 0 {
        let rest = peers.drop_first();
        lemma_no_read_failure(rest, reads);
        assert forall|k: int| 0 <= k < peers.len() implies ((
        #[trigger] peers[k]).latest_cached_content matches Some(content) ==> read_failure(
            reads,
            content.content_id,
        ) is None) by {
            if k > 0 {
                assert(rest[k - 1] == peers[k]);
            }
        }
    }
}

/// The largest revision that still fits beside what is protected.
pub open spec fn accepted_bytes(usage: Seq<UsageView>, budget: int, limits: Limits) -> int {
    min_int(
        at_least_zero(clamp_i64(budget - bytes_where(usage, |u: UsageView| usage_protected(u)))),
        limits.max_content(),
    )
}

/// Report whether some reference protects the blob.
fn is_protected(references: &Vec<PeerBlobReference>) -> (found: bool)
    ensures
        found == exists|i: int| 0 <= i < references@.len() && protects((#[trigger] references@[i])@),
{
    let mut i: usize = 0;
    while i < references.len()
        invariant
            i <= references.len(),
            forall|j: int| 0 <= j < i ==> !protects((#[trigger] references@[j])@),
        decreases references.len() - i,
    {
        if storage_class(references[i].pinned_by_us, references[i].score_seconds)
            == StorageClass::Reserved {
            assert(protects(references@[i as int]@));
            return true;
        }
        i += 1;
    }
    false
}

/// A usage is protected exactly when one of its references protects it.
proof fn lemma_protected_view(usage: MirroredBlobUsage)
    ensures
        usage_protected(usage@) == exists|i: int|
            0 <= i < usage.references@.len() && protects((#[trigger] usage.references@[i])@),
{
    let refs = usage@.references;
    if usage_protected(usage@) {
        let i = choose|i: int| 0 <= i < refs.len() && protects(#[trigger] refs[i]);
        assert(protects(usage.references@[i]@));
    }
    if exists|i: int| 0 <= i < usage.references@.len() && protects(
        (#[trigger] usage.references@[i])@,
    ) {
        let i = choose|i: int|
            0 <= i < usage.references@.len() && protects((#[trigger] usage.references@[i])@);
        assert(protects(refs[i]));
    }
}

/// Compute the largest peer blob we can still accept under the storage policy.
pub fn maximum_peer_content_accepted_bytes(
    usage: &[MirroredBlobUsage],
    budget: i64,
    limits: &Limits,
) -> (accepted: i64)
    ensures
        accepted == accepted_bytes(usage_views(usage@), budget as int, *limits),
{
    let ghost views = usage_views(usage@);
    let ghost counts = |u: UsageView| usage_protected(u);
    let mut used: i64 = 0;
    let mut i: usize = 0;
    while i < usage.len()
        invariant
            i <= usage.len(),
            views == usage_views(usage@),
            counts == (|u: UsageView| usage_protected(u)),
            used == bytes_where(views.take(i as int), counts),
        decreases usage.len() - i,
    {
        proof {
            assert(views.take(i + 1).drop_last() =~= views.take(i as int));
            assert(views[i as int] == usage@[i as int]@);
            lemma_bytes_where_bounds(views.take(i as int), counts);
            lemma_protected_view(usage@[i as int]);
        }
        if is_protected(&usage[i].references) {
            used = saturating_add_i64(used, usage[i].blob_len);
        }
        i += 1;
    }
    assert(views.take(i as int) =~= views);
    let free = at_least_zero_i64(saturating_sub_i64(budget, used));
    let limit = limits.max_peer_content_bytes_i64();
    if free <= limit {
        free
    } else {
        limit
    }
}

/// StorageAdmission describes whether a new mirrored blob can be kept locally.
#[derive(Debug, PartialEq, Eq)]
pub enum StorageAdmission {
    /// Store keeps the new blob and evicts the listed best-effort blobs first.
    Store {
        /// evict_content_ids lists the blobs that have to go, in order.
        evict_content_ids: Vec<Vec<u8>>,
    },
    /// TrackOnly remembers the peer's latest content id without caching bytes.
    TrackOnly,
}

/// The references other than those of the peer with `key`.
pub open spec fn without_key(references: Seq<ReferenceView>, key: Seq<u8>) -> Seq<ReferenceView>
    decreases references.len(),
{
    if references.len() == 0 {
        Seq::<ReferenceView>::empty()
    } else if references.last().peer_public_key == key {
        without_key(references.drop_last(), key)
    } else {
        without_key(references.drop_last(), key).push(references.last())
    }
}

/// The references that remain once the peer with `key` no longer refers to its
/// previous revision.
pub open spec fn remaining(usage: UsageView, key: Seq<u8>, previous: Option<Seq<u8>>) -> Seq<
    ReferenceView,
> {
    if previous == Some(usage.content_id) {
        without_key(usage.references, key)
    } else {
        usage.references
    }
}

/// The blobs that are still referred to once the peer with `key` has moved on
/// from its previous revision.
pub open spec fn after_replacement(
    usage: Seq<UsageView>,
    key: Seq<u8>,
    previous: Option<Seq<u8>>,
) -> Seq<UsageView>
    decreases usage.len(),
{
    if usage.len() == 0 {
        Seq::<UsageView>::empty()
    } else {
        let rest = after_replacement(usage.drop_last(), key, previous);
        let last = usage.last();
        if remaining(last, key, previous).len() == 0 {
            rest
        } else {
            rest.push(
                UsageView {
                    content_id: last.content_id,
                    blob_len: last.blob_len,
                    references: remaining(last, key, previous),
                },
            )
        }
    }
}

/// The blobs that nothing protects.
pub open spec fn evictable(usage: Seq<UsageView>) -> Seq<UsageView>
    decreases usage.len(),
{
    if usage.len() == 0 {
        Seq::<UsageView>::empty()
    } else if usage_protected(usage.last()) {
        evictable(usage.drop_last())
    } else {
        evictable(usage.drop_last()).push(usage.last())
    }
}

/// The best score among references.
pub open spec fn best_score(references: Seq<ReferenceView>) -> int
    decreases references.len(),
{
    if references.len() == 0 {
        0
    } else if references.len() == 1 {
        references[0].score_seconds as int
    } else {
        max_int(best_score(references.drop_last()), references.last().score_seconds as int)
    }
}

/// The newest score measurement among references.
pub open spec fn newest_measurement(references: Seq<ReferenceView>) -> int
    decreases references.len(),
{
    if references.len() == 0 {
        0
    } else if references.len() == 1 {
        references[0].score_measured_at as int
    } else {
        max_int(
            newest_measurement(references.drop_last()),
            references.last().score_measured_at as int,
        )
    }
}

/// Whether blob `a` is evicted before blob `b`: by best score, then by newest
/// measurement, then by length, then by content id.
pub open spec fn goes_first(a: UsageView, b: UsageView) -> bool {
    if best_score(a.references) != best_score(b.references) {
        best_score(a.references) < best_score(b.references)
    } else if newest_measurement(a.references) != newest_measurement(b.references) {
        newest_measurement(a.references) < newest_measurement(b.references)
    } else if a.blob_len != b.blob_len {
        a.blob_len < b.blob_len
    } else {
        bytes_before(a.content_id, b.content_id)
    }
}

/// The eviction order on the positions of `usage`.
pub open spec fn blob_order(usage: Seq<UsageView>) -> spec_fn(int, int) -> bool {
    |i: int, j: int| goes_first(usage[i], usage[j])
}

/// The bytes in use after evicting the first `n` blobs of the order.
pub open spec fn used_after(
    total: int,
    usage: Seq<UsageView>,
    order: Seq<usize>,
    n: nat,
) -> int
    decreases n,
{
    if n == 0 {
        total
    } else {
        clamp_i64(
            used_after(total, usage, order, (n - 1) as nat) - usage[order[n - 1] as int].blob_len,
        )
    }
}

/// Whether `incoming` more bytes fit beside `used` ones.
pub open spec fn fits(used: int, incoming: int, budget: int) -> bool {
    clamp_i64(used + incoming) <= budget
}

/// Whether `admission` evicts the shortest prefix of the order after which
/// `incoming` bytes fit, or stores nothing where no prefix is enough.
pub open spec fn eviction_rule(
    total: int,
    candidates: Seq<UsageView>,
    order: Seq<usize>,
    incoming: int,
    budget: int,
    admission: StorageAdmission,
) -> bool {
    match admission {
        StorageAdmission::Store { evict_content_ids } => {
            let n = evict_content_ids@.len();
            &&& n <= candidates.len()
            &&& fits(used_after(total, candidates, order, n), incoming, budget)
            &&& forall|m: nat|
                m < n ==> !fits(#[trigger] used_after(total, candidates, order, m), incoming, budget)
            &&& forall|i: int|
                0 <= i < n ==> (#[trigger] evict_content_ids@[i])@
                    == candidates[order[i] as int].content_id
        },
        StorageAdmission::TrackOnly => forall|m: nat|
            m <= candidates.len() ==> !fits(
                #[trigger] used_after(total, candidates, order, m),
                incoming,
                budget,
            ),
    }
}

/// Whether some blob in use is `id`.
pub open spec fn holds_id(usage: Seq<UsageView>, id: Seq<u8>) -> bool {
    exists|i: int| 0 <= i < usage.len() && (#[trigger] usage[i]).content_id == id
}

/// All bytes of `usage`, saturating.
pub open spec fn total_bytes(usage: Seq<UsageView>) -> int {
    bytes_where(usage, |u: UsageView| true)
}

/// The protected bytes of `usage`, saturating.
pub open spec fn protected_bytes(usage: Seq<UsageView>) -> int {
    bytes_where(usage, |u: UsageView| usage_protected(u))
}

/// Whether `outcome` is how a new revision of the peer with `key` is admitted.
pub open spec fn storage_rule(
    usage: Seq<UsageView>,
    key: Seq<u8>,
    reserved: bool,
    previous: Option<Seq<u8>>,
    new_id: Seq<u8>,
    new_length: int,
    budget: int,
    limits: Limits,
    outcome: Result<StorageAdmission, Status>,
) -> bool {
    let incoming = limits.max_content();
    let kept = after_replacement(usage, key, previous);
    if new_length <= 0 {
        fails_with(outcome, invalid_argument("peer content length must be positive"@))
    } else if new_length > limits.max_content() {
        fails_with(outcome, plain_status(Code::ResourceExhausted, "peer content is too large"@))
    } else if holds_id(usage, new_id) {
        outcome matches Ok(StorageAdmission::Store { evict_content_ids })
            && evict_content_ids@.len() == 0
    } else if reserved && !fits(protected_bytes(kept), incoming, budget) {
        outcome matches Ok(StorageAdmission::TrackOnly)
    } else {
        outcome matches Ok(admission) && exists|order: Seq<usize>| #[trigger]
            stable_order(order, evictable(kept).len(), blob_order(evictable(kept)))
                && eviction_rule(
                total_bytes(kept),
                evictable(kept),
                order,
                incoming,
                budget,
                admission,
            )
    }
}

/// EvictableBlob is one blob that nothing protects.
struct EvictableBlob {
    content_id: Vec<u8>,
    blob_len: i64,
    best_score: i64,
    newest_measurement: i64,
}

/// Whether `blob` summarises `usage`.
spec fn summarises(blob: EvictableBlob, usage: UsageView) -> bool {
    &&& blob.content_id@ == usage.content_id
    &&& blob.blob_len == usage.blob_len
    &&& blob.best_score == best_score(usage.references)
    &&& blob.newest_measurement == newest_measurement(usage.references)
}

/// Whether some reference protects what it points at.
pub open spec fn any_protects(references: Seq<ReferenceView>) -> bool {
    exists|i: int| 0 <= i < references.len() && protects(#[trigger] references[i])
}

/// A blob is protected exactly when some reference to it protects it.
proof fn lemma_any_protects(usage: UsageView)
    ensures
        any_protects(usage.references) == usage_protected(usage),
{
    if any_protects(usage.references) {
        let i = choose|i: int|
            0 <= i < usage.references.len() && protects(#[trigger] usage.references[i]);
        assert(protects(usage.references[i]));
    }
    if usage_protected(usage) {
        let i = choose|i: int|
            0 <= i < usage.references.len() && protects(#[trigger] usage.references[i]);
        assert(protects(usage.references[i]));
    }
}

/// The references that are left once `dropped` is gone.
spec fn left_of(references: Vec<PeerBlobReference>, dropped: Option<&[u8]>) -> Seq<ReferenceView> {
    let all = references@.map_values(|r: PeerBlobReference| r@);
    match dropped {
        Some(key) => without_key(all, key@),
        None => all,
    }
}

/// RemainingReferences summarises the references that remain to one blob.
struct RemainingReferences {
    any: bool,
    protected: bool,
    best_score: i64,
    newest_measurement: i64,
}

/// Summarise the references to one blob that remain once `dropped` is gone.
fn remaining_references(references: &Vec<PeerBlobReference>, dropped: Option<&[u8]>) -> (summary:
    RemainingReferences)
    ensures
        summary.any == (left_of(*references, dropped).len() > 0),
        summary.protected == any_protects(left_of(*references, dropped)),
        summary.best_score == best_score(left_of(*references, dropped)),
        summary.newest_measurement == newest_measurement(left_of(*references, dropped)),
{
    let ghost all = references@.map_values(|r: PeerBlobReference| r@);
    let mut summary = RemainingReferences {
        any: false,
        protected: false,
        best_score: 0,
        newest_measurement: 0,
    };
    let ghost mut left: Seq<ReferenceView> = Seq::empty();
    let mut i: usize = 0;
    assert(all.take(0) =~= Seq::<ReferenceView>::empty());
    while i < references.len()
        invariant
            i <= references.len(),
            all == references@.map_values(|r: PeerBlobReference| r@),
            left == match dropped {
                Some(key) => without_key(all.take(i as int), key@),
                None => all.take(i as int),
            },
            summary.any == (left.len() > 0),
            summary.protected == any_protects(left),
            summary.best_score == best_score(left),
            summary.newest_measurement == newest_measurement(left),
        decreases references.len() - i,
    {
        let reference = &references[i];
        assert(all[i as int] == reference@);
        assert(all.take(i + 1).drop_last() =~= all.take(i as int));
        let skip = match dropped {
            Some(key) => bytes_eq(reference.peer_public_key.as_slice(), key),
            None => false,
        };
        if !skip {
            let ghost next = left.push(reference@);
            proof {
                assert(next.drop_last() =~= left);
                assert(dropped is None ==> all.take(i + 1) =~= next);
                if left.len() == 0 {
                    assert(next.len() == 1);
                }
                if any_protects(left) {
                    let k = choose|k: int| 0 <= k < left.len() && protects(#[trigger] left[k]);
                    assert(next[k] == left[k]);
                }
                if any_protects(next) {
                    let k = choose|k: int| 0 <= k < next.len() && protects(#[trigger] next[k]);
                    if k < left.len() {
                        assert(left[k] == next[k]);
                    }
                }
                assert(next[left.len() as int] == reference@);
            }
            if storage_class(reference.pinned_by_us, reference.score_seconds)
                == StorageClass::Reserved {
                summary.protected = true;
            }
            if !summary.any || reference.score_seconds > summary.best_score {
                summary.best_score = reference.score_seconds;
            }
            if !summary.any || reference.score_measured_at > summary.newest_measurement {
                summary.newest_measurement = reference.score_measured_at;
            }
            summary.any = true;
            proof {
                left = next;
            }
        }
        i += 1;
    }
    assert(all.take(i as int) =~= all);
    assert(left == left_of(*references, dropped));
    summary
}

/// The order in which blobs are evicted is a strict weak order.
proof fn lemma_blob_order(usage: Seq<UsageView>)
    ensures
        strict_weak_order(usage.len(), blob_order(usage)),
{
    let n = usage.len();
    let before = blob_order(usage);
    assert forall|i: int| 0 <= i < n implies !#[trigger] before(i, i) by {
        lemma_bytes_before_irreflexive(usage[i].content_id);
    }
    assert forall|i: int, j: int, k: int|
        0 <= i < n && 0 <= j < n && 0 <= k < n && #[trigger] before(i, j) && #[trigger] before(j, k)
        implies before(i, k) by {
        if bytes_before(usage[i].content_id, usage[j].content_id) && bytes_before(
            usage[j].content_id,
            usage[k].content_id,
        ) {
            lemma_bytes_before_transitive(
                usage[i].content_id,
                usage[j].content_id,
                usage[k].content_id,
            );
        }
    }
    assert forall|i: int, j: int, k: int|
        0 <= i < n && 0 <= j < n && 0 <= k < n && #[trigger] before(i, k) implies #[trigger] before(
        i,
        j,
    ) || before(j, k) by {
        lemma_bytes_before_total(usage[i].content_id, usage[j].content_id);
        if bytes_before(usage[j].content_id, usage[i].content_id) && bytes_before(
            usage[i].content_id,
            usage[k].content_id,
        ) {
            lemma_bytes_before_transitive(
                usage[j].content_id,
                usage[i].content_id,
                usage[k].content_id,
            );
        }
    }
}

/// Whether blob `a` is evicted before blob `b`, as their summaries tell.
spec fn summary_first(a: EvictableBlob, b: EvictableBlob) -> bool {
    if a.best_score != b.best_score {
        a.best_score < b.best_score
    } else if a.newest_measurement != b.newest_measurement {
        a.newest_measurement < b.newest_measurement
    } else if a.blob_len != b.blob_len {
        a.blob_len < b.blob_len
    } else {
        bytes_before(a.content_id@, b.content_id@)
    }
}

/// Report whether blob `a` is evicted before blob `b`.
fn blob_goes_first(a: &EvictableBlob, b: &EvictableBlob) -> (first: bool)
    ensures
        first == summary_first(*a, *b),
{
    if a.best_score != b.best_score {
        a.best_score < b.best_score
    } else if a.newest_measurement != b.newest_measurement {
        a.newest_measurement < b.newest_measurement
    } else if a.blob_len != b.blob_len {
        a.blob_len < b.blob_len
    } else {
        bytes_less(a.content_id.as_slice(), b.content_id.as_slice())
    }
}

/// Report whether some blob in use is `id`.
fn has_id(usage: &[MirroredBlobUsage], id: &[u8]) -> (found: bool)
    ensures
        found == holds_id(usage_views(usage@), id@),
{
    let ghost views = usage_views(usage@);
    let mut i: usize = 0;
    while i < usage.len()
        invariant
            i <= usage.len(),
            views == usage_views(usage@),
            forall|k: int| 0 <= k < i ==> (#[trigger] views[k]).content_id != id@,
        decreases usage.len() - i,
    {
        assert(views[i as int] == usage@[i as int]@);
        if bytes_eq(usage[i].content_id.as_slice(), id) {
            return true;
        }
        i += 1;
    }
    false
}

/// StorageLoad is what is in use once a peer has moved on from its previous revision.
struct StorageLoad {
    total: i64,
    protected: i64,
    evictable: Vec<EvictableBlob>,
}

/// Measure what is in use once the peer with `key` has moved on.
fn measure_load(usage: &[MirroredBlobUsage], key: &[u8], previous: Option<&[u8]>) -> (load:
    StorageLoad)
    ensures
        ({
            let previous_id = match previous {
                Some(id) => Some(id@),
                None => None,
            };
            let kept = after_replacement(usage_views(usage@), key@, previous_id);
            &&& load.total == total_bytes(kept)
            &&& load.protected == protected_bytes(kept)
            &&& load.evictable@.len() == evictable(kept).len()
            &&& forall|i: int|
                0 <= i < load.evictable@.len() ==> summarises(
                    #[trigger] load.evictable@[i],
                    evictable(kept)[i],
                )
        }),
{
    let ghost views = usage_views(usage@);
    let ghost previous_id: Option<Seq<u8>> = match previous {
        Some(id) => Some(id@),
        None => None,
    };
    let ghost all = |u: UsageView| true;
    let ghost guarded = |u: UsageView| usage_protected(u);
    let mut load = StorageLoad { total: 0, protected: 0, evictable: Vec::new() };
    let mut i: usize = 0;
    while i < usage.len()
        invariant
            i <= usage.len(),
            views == usage_views(usage@),
            previous_id == match previous {
                Some(id) => Some(id@),
                None => None,
            },
            all == (|u: UsageView| true),
            guarded == (|u: UsageView| usage_protected(u)),
            load.total == bytes_where(
                after_replacement(views.take(i as int), key@, previous_id),
                all,
            ),
            load.protected == bytes_where(
                after_replacement(views.take(i as int), key@, previous_id),
                guarded,
            ),
            load.evictable@.len() == evictable(
                after_replacement(views.take(i as int), key@, previous_id),
            ).len(),
            forall|k: int|
                0 <= k < load.evictable@.len() ==> summarises(
                    #[trigger] load.evictable@[k],
                    evictable(after_replacement(views.take(i as int), key@, previous_id))[k],
                ),
        decreases usage.len() - i,
    {
        let blob = &usage[i];
        let ghost kept = after_replacement(views.take(i as int), key@, previous_id);
        let ghost next = after_replacement(views.take(i + 1), key@, previous_id);
        let ghost left = remaining(blob@, key@, previous_id);
        let ghost entry = UsageView {
            content_id: blob@.content_id,
            blob_len: blob@.blob_len,
            references: left,
        };
        proof {
            assert(views[i as int] == blob@);
            assert(views.take(i + 1).drop_last() =~= views.take(i as int));
            assert(views.take(i + 1).last() == blob@);
            lemma_bytes_where_bounds(kept, all);
            lemma_bytes_where_bounds(kept, guarded);
        }
        let was_previous = match previous {
            Some(id) => bytes_eq(id, blob.content_id.as_slice()),
            None => false,
        };
        let summary = if was_previous {
            remaining_references(&blob.references, Some(key))
        } else {
            remaining_references(&blob.references, None)
        };
        if summary.any {
            proof {
                assert(next == kept.push(entry));
                assert(next.drop_last() =~= kept);
                assert(next.last() == entry);
                lemma_any_protects(entry);
                assert(summary.protected == usage_protected(entry));
            }
            load.total = saturating_add_i64(load.total, blob.blob_len);
            if summary.protected {
                load.protected = saturating_add_i64(load.protected, blob.blob_len);
            } else {
                let ghost before = load.evictable@;
                let item = EvictableBlob {
                    content_id: bytes_copy(blob.content_id.as_slice()),
                    blob_len: blob.blob_len,
                    best_score: summary.best_score,
                    newest_measurement: summary.newest_measurement,
                };
                assert(summarises(item, entry));
                load.evictable.push(item);
                assert(evictable(next) == evictable(kept).push(entry));
                assert forall|k: int| 0 <= k < load.evictable@.len() implies summarises(
                    #[trigger] load.evictable@[k],
                    evictable(next)[k],
                ) by {
                    if k < before.len() {
                        assert(load.evictable@[k] == before[k]);
                        assert(evictable(next)[k] == evictable(kept)[k]);
                    }
                }
            }
        }
        i += 1;
    }
    assert(views.take(i as int) =~= views);
    load
}

/// Plan whether a new mirrored blob can be stored and which blobs to evict first.
pub fn plan_mirrored_blob_storage(
    usage: &[MirroredBlobUsage],
    peer_key: &[u8],
    pinned_by_us: bool,
    current_score: i64,
    previous_content_id: Option<&[u8]>,
    new_content_id: &[u8],
    new_content_length: i64,
    budget: i64,
    limits: &Limits,
) -> (outcome: Result<StorageAdmission, Status>)
    ensures
        storage_rule(
            usage_views(usage@),
            peer_key@,
            is_reserved(pinned_by_us, current_score as int),
            match previous_content_id {
                Some(id) => Some(id@),
                None => None,
            },
            new_content_id@,
            new_content_length as int,
            budget as int,
            *limits,
            outcome,
        ),
{
    if new_content_length <= 0 {
        return Err(Status::invalid_argument("peer content length must be positive"));
    }
    let incoming = limits.max_peer_content_bytes_i64();
    if new_content_length > incoming {
        return Err(Status::with_text(Code::ResourceExhausted, "peer content is too large"));
    }
    if has_id(usage, new_content_id) {
        let evict_content_ids: Vec<Vec<u8>> = Vec::new();
        return Ok(StorageAdmission::Store { evict_content_ids });
    }
    let load = measure_load(usage, peer_key, previous_content_id);
    let ghost previous_id = match previous_content_id {
        Some(id) => Some(id@),
        None => None,
    };
    let ghost kept = after_replacement(usage_views(usage@), peer_key@, previous_id);
    let ghost candidates = evictable(kept);
    let ghost before = blob_order(candidates);
    if storage_class(pinned_by_us, current_score) == StorageClass::Reserved && saturating_add_i64(
        load.protected,
        incoming,
    ) > budget {
        return Ok(StorageAdmission::TrackOnly);
    }
    proof {
        lemma_blob_order(candidates);
    }
    let blobs = &load.evictable;
    let less = |i: usize, j: usize| -> (r: bool)
        requires
            i < blobs@.len(),
            j < blobs@.len(),
        ensures
            r == summary_first(blobs@[i as int], blobs@[j as int]),
        { blob_goes_first(&blobs[i], &blobs[j]) };
    proof {
        assert forall|i: usize, j: usize, r: bool|
            i < blobs@.len() && j < blobs@.len() && call_ensures(less, (i, j), r) implies r == before(
            i as int,
            j as int,
        ) by {
            assert(summarises(blobs@[i as int], candidates[i as int]));
            assert(summarises(blobs@[j as int], candidates[j as int]));
        }
    }
    let order = sort_positions(blobs.len(), less, Ghost(before));
    let admission = evict_in_order(
        blobs,
        &order,
        load.total,
        incoming,
        budget,
        Ghost(candidates),
    );
    Ok(admission)
}

/// Evict blobs in order until the incoming bytes fit.
fn evict_in_order(
    blobs: &Vec<EvictableBlob>,
    order: &Vec<usize>,
    total: i64,
    incoming: i64,
    budget: i64,
    Ghost(candidates): Ghost<Seq<UsageView>>,
) -> (admission: StorageAdmission)
    requires
        blobs@.len() == candidates.len(),
        forall|k: int| 0 <= k < blobs@.len() ==> summarises(#[trigger] blobs@[k], candidates[k]),
        stable_order(order@, candidates.len(), blob_order(candidates)),
    ensures
        eviction_rule(
            total as int,
            candidates,
            order@,
            incoming as int,
            budget as int,
            admission,
        ),
{
    let mut used: i64 = total;
    let mut evict_content_ids: Vec<Vec<u8>> = Vec::new();
    let mut next: usize = 0;
    while next < order.len() && saturating_add_i64(used, incoming) > budget
        invariant
            next <= order.len(),
            blobs@.len() == candidates.len(),
            forall|k: int| 0 <= k < blobs@.len() ==> summarises(#[trigger] blobs@[k], candidates[k]),
            stable_order(order@, candidates.len(), blob_order(candidates)),
            used == used_after(total as int, candidates, order@, next as nat),
            evict_content_ids@.len() == next,
            forall|m: nat|
                m < next ==> !fits(
                    #[trigger] used_after(total as int, candidates, order@, m),
                    incoming as int,
                    budget as int,
                ),
            forall|i: int|
                0 <= i < next ==> (#[trigger] evict_content_ids@[i])@
                    == candidates[order@[i] as int].content_id,
        decreases order.len() - next,
    {
        let position = order[next];
        assert(summarises(blobs@[position as int], candidates[position as int]));
        let ghost listed = evict_content_ids@;
        evict_content_ids.push(bytes_copy(blobs[position].content_id.as_slice()));
        used = saturating_sub_i64(used, blobs[position].blob_len);
        next += 1;
        assert forall|i: int| 0 <= i < next implies (#[trigger] evict_content_ids@[i])@
            == candidates[order@[i] as int].content_id by {
            if i < listed.len() {
                assert(evict_content_ids@[i] == listed[i]);
            }
        }
    }
    if saturating_add_i64(used, incoming) > budget {
        return StorageAdmission::TrackOnly;
    }
    StorageAdmission::Store { evict_content_ids }
}

/// Whether the blob `id` is in use and nothing protects it.
pub open spec fn holds_unprotected(usage: Seq<UsageView>, id: Seq<u8>) -> bool {
    exists|k: int|
        0 <= k < usage.len() && (#[trigger] usage[k]).content_id == id && !usage_protected(usage[k])
}

/// What is evictable is in use and nothing protects it.
proof fn lemma_evictable_member(usage: Seq<UsageView>, i: int)
    requires
        0 <= i < evictable(usage).len(),
    ensures
        !usage_protected(evictable(usage)[i]),
        exists|k: int| 0 <= k < usage.len() && #[trigger] usage[k] == evictable(usage)[i],
    decreases usage.len(),
{
    let rest = usage.drop_last();
    if !usage_protected(usage.last()) && i == evictable(rest).len() {
        assert(usage[usage.len() - 1] == evictable(usage)[i]);
    } else {
        lemma_evictable_member(rest, i);
        let k = choose|k: int| 0 <= k < rest.len() && #[trigger] rest[k] == evictable(rest)[i];
        assert(usage[k] == evictable(usage)[i]);
    }
}

/// Making room evicts only blobs that no pinned or positively scored peer
/// refers to once the new revision has replaced the peer's previous one.
pub proof fn law_eviction_spares_protected_blobs(
    usage: Seq<UsageView>,
    key: Seq<u8>,
    reserved: bool,
    previous: Option<Seq<u8>>,
    new_id: Seq<u8>,
    new_length: int,
    budget: int,
    limits: Limits,
    outcome: Result<StorageAdmission, Status>,
    evicted: Seq<u8>,
)
    requires
        storage_rule(usage, key, reserved, previous, new_id, new_length, budget, limits, outcome),
        outcome matches Ok(StorageAdmission::Store { evict_content_ids }) && ids_of(
            evict_content_ids@,
        ).contains(evicted),
    ensures
        holds_unprotected(after_replacement(usage, key, previous), evicted),
{
    let kept = after_replacement(usage, key, previous);
    let candidates = evictable(kept);
    match outcome {
        Ok(StorageAdmission::Store { evict_content_ids }) => {
            let ids = ids_of(evict_content_ids@);
            let i = choose|i: int| 0 <= i < ids.len() && ids[i] == evicted;
            assert(ids[i] == evict_content_ids@[i]@);
            let order = choose|order: Seq<usize>| #[trigger]
                stable_order(order, candidates.len(), blob_order(candidates)) && eviction_rule(
                    total_bytes(kept),
                    candidates,
                    order,
                    limits.max_content(),
                    budget,
                    outcome->Ok_0,
                );
            let below = |p: int| 0 <= p < candidates.len();
            assert(below(order[i] as int));
            lemma_evictable_member(kept, order[i] as int);
        },
        _ => {},
    }
}

/// The sum of integers.
pub open spec fn sum_ints(items: Seq<int>) -> int {
    items.fold_left(0, |a: int, b: int| a + b)
}

/// The lengths of blobs.
pub open spec fn lengths(usage: Seq<UsageView>) -> Seq<int> {
    usage.map_values(|u: UsageView| u.blob_len as int)
}

/// A sum does not depend on the order of its items.
proof fn lemma_sum_permutation(a: Seq<int>, b: Seq<int>)
    requires
        a.to_multiset() == b.to_multiset(),
    ensures
        sum_ints(a) == sum_ints(b),
{
    let f = |x: int, y: int| x + y;
    assert(vstd::seq_lib::commutative_foldl(f));
    vstd::seq_lib::lemma_fold_left_permutation(a, b, f, 0);
}

/// The plain bytes of all blobs are the sum of their lengths.
proof fn lemma_plain_is_sum(usage: Seq<UsageView>)
    ensures
        plain_bytes_where(usage, |u: UsageView| true) == sum_ints(lengths(usage)),
    decreases usage.len(),
{
    if usage.len() > 0 {
        lemma_plain_is_sum(usage.drop_last());
        assert(lengths(usage).drop_last() =~= lengths(usage.drop_last()));
    }
}

/// All bytes are protected or evictable.
proof fn lemma_load_splits(usage: Seq<UsageView>)
    ensures
        plain_bytes_where(usage, |u: UsageView| true) == plain_bytes_where(
            usage,
            |u: UsageView| usage_protected(u),
        ) + plain_bytes_where(evictable(usage), |u: UsageView| true),
    decreases usage.len(),
{
    if usage.len() > 0 {
        lemma_load_splits(usage.drop_last());
        if !usage_protected(usage.last()) {
            let e = evictable(usage);
            assert(e.drop_last() =~= evictable(usage.drop_last()));
            assert(e.last() == usage.last());
        }
    }
}

/// What is evictable has valid lengths where all blobs have.
proof fn lemma_evictable_lengths(usage: Seq<UsageView>)
    requires
        lengths_valid(usage),
    ensures
        lengths_valid(evictable(usage)),
{
    assert forall|i: int| 0 <= i < evictable(usage).len() implies (
    #[trigger] evictable(usage)[i]).blob_len >= 0 by {
        lemma_evictable_member(usage, i);
    }
}

/// Replacing a peer's previous revision keeps lengths valid.
proof fn lemma_replacement_lengths(
    usage: Seq<UsageView>,
    key: Seq<u8>,
    previous: Option<Seq<u8>>,
)
    requires
        lengths_valid(usage),
    ensures
        lengths_valid(after_replacement(usage, key, previous)),
    decreases usage.len(),
{
    if usage.len() > 0 {
        let rest = usage.drop_last();
        assert forall|i: int| 0 <= i < rest.len() implies (#[trigger] rest[i]).blob_len >= 0 by {
            assert(rest[i] == usage[i]);
        }
        lemma_replacement_lengths(rest, key, previous);
        let kept = after_replacement(usage, key, previous);
        let kept_rest = after_replacement(rest, key, previous);
        assert(usage.last() == usage[usage.len() - 1]);
        assert forall|i: int| 0 <= i < kept.len() implies (#[trigger] kept[i]).blob_len >= 0 by {
            if i < kept_rest.len() {
                assert(kept[i] == kept_rest[i]);
            }
        }
    }
}

/// Without saturation, evicting a prefix of the order frees the sum of its lengths.
proof fn lemma_used_after(total: int, candidates: Seq<UsageView>, order: Seq<usize>, n: nat)
    requires
        lengths_valid(candidates),
        stable_order(order, candidates.len(), blob_order(candidates)),
        n <= candidates.len(),
        sum_ints(lengths(candidates)) <= total <= i64::MAX,
    ensures
        ({
            let picked = order.map_values(|at: usize| lengths(candidates)[at as int]);
            &&& used_after(total, candidates, order, n) == total - sum_ints(picked.take(n as int))
            &&& 0 <= sum_ints(picked.take(n as int)) <= sum_ints(lengths(candidates))
        }),
    decreases n,
{
    let lens = lengths(candidates);
    let picked = order.map_values(|at: usize| lens[at as int]);
    let below = |p: int| 0 <= p < candidates.len();
    assert forall|a: int| 0 <= a < order.len() implies (#[trigger] order[a]) < lens.len() by {
        assert(below(order[a] as int));
    }
    assert forall|a: int, b: int| 0 <= a < b < order.len() implies #[trigger] order[a]
        != #[trigger] order[b] by {
        assert(crate::order::precedes(blob_order(candidates), order[a] as int, order[b] as int));
        lemma_bytes_before_irreflexive(candidates[order[a] as int].content_id);
    }
    lemma_picked_multiset(lens, order);
    lemma_sum_permutation(picked, lens);
    assert forall|i: int| 0 <= i < picked.len() implies #[trigger] picked[i] >= 0 by {
        assert(candidates[order[i] as int].blob_len >= 0);
    }
    lemma_prefix_sum(picked, n as int);
    if n > 0 {
        lemma_used_after(total, candidates, order, (n - 1) as nat);
        assert(picked.take(n as int).drop_last() =~= picked.take(n - 1));
        assert(picked.take(n as int).last() == candidates[order[n - 1] as int].blob_len);
    }
}

/// A prefix of non-negative items sums to no more than all of them.
proof fn lemma_prefix_sum(items: Seq<int>, n: int)
    requires
        0 <= n <= items.len(),
        forall|i: int| 0 <= i < items.len() ==> #[trigger] items[i] >= 0,
    ensures
        0 <= sum_ints(items.take(n)) <= sum_ints(items),
    decreases items.len(),
{
    if n == items.len() {
        assert(items.take(n) =~= items);
        if n > 0 {
            assert(items.last() == items[n - 1]);
            let rest = items.drop_last();
            assert forall|i: int| 0 <= i < rest.len() implies #[trigger] rest[i] >= 0 by {
                assert(rest[i] == items[i]);
            }
            lemma_prefix_sum(rest, n - 1);
            assert(rest.take(n - 1) =~= rest);
        }
    } else {
        let rest = items.drop_last();
        assert forall|i: int| 0 <= i < rest.len() implies #[trigger] rest[i] >= 0 by {
            assert(rest[i] == items[i]);
        }
        lemma_prefix_sum(rest, n);
        assert(rest.take(n) =~= items.take(n));
        assert(items.last() == items[items.len() - 1]);
    }
}

/// A new revision is stored whenever a full-size blob fits beside what is
/// protected: whatever best-effort blobs hold is given up for it.
pub proof fn law_best_effort_blobs_make_room(
    usage: Seq<UsageView>,
    key: Seq<u8>,
    reserved: bool,
    previous: Option<Seq<u8>>,
    new_id: Seq<u8>,
    new_length: int,
    budget: int,
    limits: Limits,
    outcome: Result<StorageAdmission, Status>,
)
    requires
        storage_rule(usage, key, reserved, previous, new_id, new_length, budget, limits, outcome),
        0 < new_length <= limits.max_content(),
        lengths_valid(usage),
        plain_bytes_where(after_replacement(usage, key, previous), |u: UsageView| true) <= i64::MAX,
        plain_bytes_where(
            after_replacement(usage, key, previous),
            |u: UsageView| usage_protected(u),
        ) + limits.max_content() <= budget <= i64::MAX,
    ensures
        outcome matches Ok(admission) && admission is Store,
{
    let kept = after_replacement(usage, key, previous);
    let candidates = evictable(kept);
    lemma_replacement_lengths(usage, key, previous);
    lemma_evictable_lengths(kept);
    crate::accounting::lemma_bytes_where_is_capped_sum(kept, |u: UsageView| true);
    crate::accounting::lemma_bytes_where_is_capped_sum(kept, |u: UsageView| usage_protected(u));
    lemma_load_splits(kept);
    lemma_plain_is_sum(candidates);
    if !holds_id(usage, new_id) {
        let order = choose|order: Seq<usize>| #[trigger]
            stable_order(order, candidates.len(), blob_order(candidates)) && eviction_rule(
                total_bytes(kept),
                candidates,
                order,
                limits.max_content(),
                budget,
                outcome->Ok_0,
            );
        let n = candidates.len();
        lemma_used_after(total_bytes(kept), candidates, order, n);
        let picked = order.map_values(|at: usize| lengths(candidates)[at as int]);
        assert(picked.take(n as int) =~= picked);
        let below = |p: int| 0 <= p < candidates.len();
        assert forall|a: int| 0 <= a < order.len() implies (#[trigger] order[a])
            < candidates.len() by {
            assert(below(order[a] as int));
        }
        assert forall|a: int, b: int| 0 <= a < b < order.len() implies #[trigger] order[a]
            != #[trigger] order[b] by {
            assert(crate::order::precedes(blob_order(candidates), order[a] as int, order[b] as int));
            lemma_bytes_before_irreflexive(candidates[order[a] as int].content_id);
        }
        lemma_picked_multiset(lengths(candidates), order);
        lemma_sum_permutation(picked, lengths(candidates));
        assert(fits(used_after(total_bytes(kept), candidates, order, n), limits.max_content(), budget));
    }
}

/// Whether reference `r` to a blob remains once the peer with `key` no longer
/// refers to its previous revision.
pub open spec fn still_refers(
    blob: MirroredBlobUsage,
    key: Seq<u8>,
    previous: Option<Seq<u8>>,
    r: int,
) -> bool {
    &&& 0 <= r < blob.references@.len()
    &&& !(previous == Some(blob.content_id@) && blob.references@[r].peer_public_key@ == key)
}

/// Picks the blobs to which some reference remains.
pub open spec fn stays(key: Seq<u8>, previous: Option<Seq<u8>>) -> spec_fn(
    MirroredBlobUsage,
) -> bool {
    |blob: MirroredBlobUsage| exists|r: int| still_refers(blob, key, previous, r)
}

/// Picks the blobs to which a pinned or positively scored reference remains.
pub open spec fn stays_protected(key: Seq<u8>, previous: Option<Seq<u8>>) -> spec_fn(
    MirroredBlobUsage,
) -> bool {
    |blob: MirroredBlobUsage|
        exists|r: int| #[trigger]
            still_refers(blob, key, previous, r) && (blob.references@[r].pinned_by_us
                || blob.references@[r].score_seconds > 0)
}

/// The best score among the references that remain to a blob.
pub open spec fn is_best(
    blob: MirroredBlobUsage,
    key: Seq<u8>,
    previous: Option<Seq<u8>>,
    score: int,
) -> bool {
    &&& exists|r: int| #[trigger]
        still_refers(blob, key, previous, r) && blob.references@[r].score_seconds == score
    &&& forall|r: int| #[trigger]
        still_refers(blob, key, previous, r) ==> blob.references@[r].score_seconds <= score
}

/// The newest measurement among the references that remain to a blob.
pub open spec fn is_latest(
    blob: MirroredBlobUsage,
    key: Seq<u8>,
    previous: Option<Seq<u8>>,
    at: int,
) -> bool {
    &&& exists|r: int| #[trigger]
        still_refers(blob, key, previous, r) && blob.references@[r].score_measured_at == at
    &&& forall|r: int| #[trigger]
        still_refers(blob, key, previous, r) ==> blob.references@[r].score_measured_at <= at
}

/// Whether no two blobs have the same content id.
pub open spec fn distinct_blobs(usage: Seq<MirroredBlobUsage>) -> bool {
    forall|i: int, j: int|
        0 <= i < j < usage.len() ==> (#[trigger] usage[i]).content_id@ != (
        #[trigger] usage[j]).content_id@
}

/// The references of one blob that remain.
spec fn left_references(blob: MirroredBlobUsage, key: Seq<u8>, previous: Option<Seq<u8>>) -> Seq<
    ReferenceView,
> {
    remaining(blob@, key, previous)
}

/// Whether `view` is a reference to a blob that remains.
spec fn comes_from(
    blob: MirroredBlobUsage,
    key: Seq<u8>,
    previous: Option<Seq<u8>>,
    view: ReferenceView,
) -> bool {
    exists|r: int| #[trigger]
        still_refers(blob, key, previous, r) && blob.references@[r]@ == view
}

/// Whether `view` is a blob that stays in use.
spec fn kept_from(
    usage: Seq<MirroredBlobUsage>,
    key: Seq<u8>,
    previous: Option<Seq<u8>>,
    view: UsageView,
) -> bool {
    exists|i: int|
        0 <= i < usage.len() && stays(key, previous)(#[trigger] usage[i]) && view == moved_on(
            usage[i],
            key,
            previous,
        )
}

/// Leaving out a key keeps exactly the references of other keys.
proof fn lemma_without_key(references: Seq<ReferenceView>, key: Seq<u8>)
    ensures
        forall|k: int|
            0 <= k < without_key(references, key).len() ==> exists|r: int|
                0 <= r < references.len() && #[trigger] references[r] == #[trigger] without_key(
                    references,
                    key,
                )[k] && references[r].peer_public_key != key,
        forall|r: int|
            0 <= r < references.len() && (#[trigger] references[r]).peer_public_key != key
                ==> without_key(references, key).contains(references[r]),
    decreases references.len(),
{
    if references.len() > 0 {
        let rest = references.drop_last();
        let end = references.len() - 1;
        lemma_without_key(rest, key);
        let left = without_key(references, key);
        let before = without_key(rest, key);
        assert(references[end] == references.last());
        assert forall|k: int| 0 <= k < left.len() implies exists|r: int|
            0 <= r < references.len() && #[trigger] references[r] == #[trigger] left[k]
                && references[r].peer_public_key != key by {
            if k < before.len() {
                assert(left[k] == before[k]);
                let r = choose|r: int|
                    0 <= r < rest.len() && #[trigger] rest[r] == before[k]
                        && rest[r].peer_public_key != key;
                assert(references[r] == left[k]);
            } else {
                assert(references[end] == left[k]);
            }
        }
        assert forall|r: int|
            0 <= r < references.len() && (#[trigger] references[r]).peer_public_key != key
            implies left.contains(references[r]) by {
            if r < end {
                assert(rest[r] == references[r]);
                let k = choose|k: int| 0 <= k < before.len() && before[k] == rest[r];
                assert(left[k] == references[r]);
            } else {
                assert(left[before.len() as int] == references[r]);
            }
        }
    }
}

/// What remains of the references to a blob, seen from the blob itself.
proof fn lemma_left_references(blob: MirroredBlobUsage, key: Seq<u8>, previous: Option<Seq<u8>>)
    ensures
        forall|k: int|
            0 <= k < left_references(blob, key, previous).len() ==> comes_from(
                blob,
                key,
                previous,
                #[trigger] left_references(blob, key, previous)[k],
            ),
        forall|r: int| #[trigger]
            still_refers(blob, key, previous, r) ==> left_references(
                blob,
                key,
                previous,
            ).contains(blob.references@[r]@),
{
    let views = blob@.references;
    let left = left_references(blob, key, previous);
    assert(views.len() == blob.references@.len());
    lemma_without_key(views, key);
    assert forall|k: int| 0 <= k < left.len() implies comes_from(
        blob,
        key,
        previous,
        #[trigger] left[k],
    ) by {
        if previous == Some(blob.content_id@) {
            let r = choose|r: int|
                0 <= r < views.len() && #[trigger] views[r] == left[k] && views[r].peer_public_key
                    != key;
            assert(blob.references@[r]@ == views[r]);
            assert(still_refers(blob, key, previous, r));
        } else {
            assert(blob.references@[k]@ == views[k]);
            assert(still_refers(blob, key, previous, k));
        }
    }
    assert forall|r: int| #[trigger] still_refers(blob, key, previous, r) implies left.contains(
        blob.references@[r]@,
    ) by {
        assert(views[r] == blob.references@[r]@);
        if previous != Some(blob.content_id@) {
            assert(left[r] == views[r]);
        }
    }
}

/// The blob as it stands once the peer has moved on.
spec fn moved_on(blob: MirroredBlobUsage, key: Seq<u8>, previous: Option<Seq<u8>>) -> UsageView {
    UsageView {
        content_id: blob.content_id@,
        blob_len: blob.blob_len,
        references: left_references(blob, key, previous),
    }
}

/// How a blob is picked once the peer has moved on.
proof fn lemma_stays(blob: MirroredBlobUsage, key: Seq<u8>, previous: Option<Seq<u8>>)
    ensures
        stays(key, previous)(blob) <==> left_references(blob, key, previous).len() > 0,
        stays_protected(key, previous)(blob) <==> usage_protected(moved_on(blob, key, previous)),
        stays_protected(key, previous)(blob) ==> stays(key, previous)(blob),
{
    let left = left_references(blob, key, previous);
    lemma_left_references(blob, key, previous);
    if left.len() > 0 {
        assert(comes_from(blob, key, previous, left[0]));
        let r = choose|r: int| #[trigger]
            still_refers(blob, key, previous, r) && blob.references@[r]@ == left[0];
    }
    if stays(key, previous)(blob) {
        let r = choose|r: int| still_refers(blob, key, previous, r);
        assert(left.contains(blob.references@[r]@));
    }
    if usage_protected(moved_on(blob, key, previous)) {
        let view = moved_on(blob, key, previous);
        let k = choose|k: int|
            0 <= k < view.references.len() && protects(#[trigger] view.references[k]);
        assert(comes_from(blob, key, previous, left[k]));
        let r = choose|r: int| #[trigger]
            still_refers(blob, key, previous, r) && blob.references@[r]@ == left[k];
    }
    if stays_protected(key, previous)(blob) {
        let r = choose|r: int| #[trigger]
            still_refers(blob, key, previous, r) && (blob.references@[r].pinned_by_us
                || blob.references@[r].score_seconds > 0);
        assert(left.contains(blob.references@[r]@));
        let k = choose|k: int| 0 <= k < left.len() && left[k] == blob.references@[r]@;
        assert(protects(moved_on(blob, key, previous).references[k]));
    }
}

/// What is in use once the peer has moved on sums up what is picked from what
/// is in use now.
proof fn lemma_kept_sum(
    usage: Seq<MirroredBlobUsage>,
    key: Seq<u8>,
    previous: Option<Seq<u8>>,
    counts: spec_fn(UsageView) -> bool,
    picks: spec_fn(MirroredBlobUsage) -> bool,
)
    requires
        forall|blob: MirroredBlobUsage| #[trigger]
            picks(blob) <==> stays(key, previous)(blob) && counts(moved_on(blob, key, previous)),
    ensures
        plain_bytes_where(after_replacement(usage_views(usage), key, previous), counts)
            == crate::accounting::total_length(usage.filter(picks)),
    decreases usage.len(),
{
    reveal(Seq::filter);
    if usage.len() > 0 {
        let rest = usage.drop_last();
        let last = usage.last();
        lemma_kept_sum(rest, key, previous, counts, picks);
        lemma_stays(last, key, previous);
        assert(usage_views(usage).drop_last() =~= usage_views(rest));
        assert(usage_views(usage).last() == last@);
        let kept = after_replacement(usage_views(usage), key, previous);
        let before = after_replacement(usage_views(rest), key, previous);
        if stays(key, previous)(last) {
            assert(kept == before.push(moved_on(last, key, previous)));
            assert(kept.drop_last() =~= before);
        }
        assert(picks(last) <==> stays(key, previous)(last) && counts(
            moved_on(last, key, previous),
        ));
        if picks(last) {
            assert(usage.filter(picks).drop_last() =~= rest.filter(picks));
        }
    }
}

/// Every blob that is kept stood there before, and the other way round.
proof fn lemma_kept_blobs(usage: Seq<MirroredBlobUsage>, key: Seq<u8>, previous: Option<Seq<u8>>)
    ensures
        ({
            let kept = after_replacement(usage_views(usage), key, previous);
            &&& forall|k: int|
                0 <= k < kept.len() ==> kept_from(usage, key, previous, #[trigger] kept[k])
            &&& forall|i: int|
                0 <= i < usage.len() && stays(key, previous)(#[trigger] usage[i]) ==> kept.contains(
                    moved_on(usage[i], key, previous),
                )
            &&& distinct_blobs(usage) ==> forall|a: int, b: int|
                0 <= a < b < kept.len() ==> (#[trigger] kept[a]).content_id != (
                #[trigger] kept[b]).content_id
        }),
    decreases usage.len(),
{
    let kept = after_replacement(usage_views(usage), key, previous);
    if usage.len() > 0 {
        let rest = usage.drop_last();
        let last = usage.last();
        let end = usage.len() - 1;
        assert(usage[end] == last);
        lemma_kept_blobs(rest, key, previous);
        lemma_stays(last, key, previous);
        assert(usage_views(usage).drop_last() =~= usage_views(rest));
        assert(usage_views(usage).last() == last@);
        let before = after_replacement(usage_views(rest), key, previous);
        if stays(key, previous)(last) {
            assert(kept == before.push(moved_on(last, key, previous)));
        } else {
            assert(kept == before);
        }
        assert forall|k: int| 0 <= k < kept.len() implies kept_from(
            usage,
            key,
            previous,
            #[trigger] kept[k],
        ) by {
            if k < before.len() {
                assert(kept[k] == before[k]);
                assert(kept_from(rest, key, previous, before[k]));
                let i = choose|i: int|
                    0 <= i < rest.len() && stays(key, previous)(#[trigger] rest[i]) && before[k]
                        == moved_on(rest[i], key, previous);
                assert(usage[i] == rest[i]);
            } else {
                assert(kept[k] == moved_on(usage[end], key, previous));
            }
        }
        assert forall|i: int| 0 <= i < usage.len() && stays(key, previous)(#[trigger] usage[i])
            implies kept.contains(moved_on(usage[i], key, previous)) by {
            if i < end {
                assert(rest[i] == usage[i]);
                let k = choose|k: int|
                    0 <= k < before.len() && before[k] == moved_on(rest[i], key, previous);
                assert(kept[k] == moved_on(usage[i], key, previous));
            } else {
                assert(kept[before.len() as int] == moved_on(usage[i], key, previous));
            }
        }
        if distinct_blobs(usage) {
            assert forall|i: int, j: int| 0 <= i < j < rest.len() implies (
            #[trigger] rest[i]).content_id@ != (#[trigger] rest[j]).content_id@ by {
                assert(rest[i] == usage[i] && rest[j] == usage[j]);
            }
            assert(distinct_blobs(rest));
            assert forall|a: int, b: int| 0 <= a < b < kept.len() implies (
            #[trigger] kept[a]).content_id != (#[trigger] kept[b]).content_id by {
                assert(kept[a] == before[a]);
                if b < before.len() {
                    assert(kept[b] == before[b]);
                } else {
                    assert(kept_from(rest, key, previous, before[a]));
                    let i = choose|i: int|
                        0 <= i < rest.len() && stays(key, previous)(#[trigger] rest[i]) && before[a]
                            == moved_on(rest[i], key, previous);
                    assert(usage[i] == rest[i]);
                    assert(usage[i].content_id@ != usage[end].content_id@);
                }
            }
        }
    }
}

/// What is evictable has no equal content ids where nothing has.
proof fn lemma_evictable_distinct(usage: Seq<UsageView>)
    requires
        forall|a: int, b: int|
            0 <= a < b < usage.len() ==> (#[trigger] usage[a]).content_id != (
            #[trigger] usage[b]).content_id,
    ensures
        forall|a: int, b: int|
            0 <= a < b < evictable(usage).len() ==> (#[trigger] evictable(usage)[a]).content_id != (
            #[trigger] evictable(usage)[b]).content_id,
        forall|k: int|
            0 <= k < usage.len() && !usage_protected(#[trigger] usage[k]) ==> evictable(
                usage,
            ).contains(usage[k]),
    decreases usage.len(),
{
    if usage.len() > 0 {
        let rest = usage.drop_last();
        let end = usage.len() - 1;
        assert(usage[end] == usage.last());
        assert forall|a: int, b: int| 0 <= a < b < rest.len() implies (
        #[trigger] rest[a]).content_id != (#[trigger] rest[b]).content_id by {
            assert(rest[a] == usage[a] && rest[b] == usage[b]);
        }
        lemma_evictable_distinct(rest);
        let list = evictable(usage);
        let before = evictable(rest);
        assert forall|a: int, b: int| 0 <= a < b < list.len() implies (
        #[trigger] list[a]).content_id != (#[trigger] list[b]).content_id by {
            assert(list[a] == before[a]);
            if b < before.len() {
                assert(list[b] == before[b]);
            } else {
                lemma_evictable_member(rest, a);
                let k = choose|k: int| 0 <= k < rest.len() && #[trigger] rest[k] == before[a];
                assert(usage[k] == rest[k]);
                assert(usage[k].content_id != usage[end].content_id);
            }
        }
        assert forall|k: int| 0 <= k < usage.len() && !usage_protected(#[trigger] usage[k])
            implies list.contains(usage[k]) by {
            if k < end {
                assert(rest[k] == usage[k]);
                let a = choose|a: int| 0 <= a < before.len() && before[a] == rest[k];
                assert(list[a] == usage[k]);
            } else {
                assert(list[before.len() as int] == usage[k]);
            }
        }
    }
}

/// The bytes of the blobs that are not among `gone`.
spec fn bytes_without(usage: Seq<UsageView>, gone: Set<Seq<u8>>) -> int {
    plain_bytes_where(usage, |u: UsageView| !gone.contains(u.content_id))
}

/// One more blob that goes takes exactly its bytes with it.
proof fn lemma_one_more_goes(usage: Seq<UsageView>, gone: Set<Seq<u8>>, k: int)
    requires
        forall|a: int, b: int|
            0 <= a < b < usage.len() ==> (#[trigger] usage[a]).content_id != (
            #[trigger] usage[b]).content_id,
        0 <= k < usage.len(),
        !gone.contains(usage[k].content_id),
    ensures
        bytes_without(usage, gone.insert(usage[k].content_id)) == bytes_without(usage, gone)
            - usage[k].blob_len,
    decreases usage.len(),
{
    let rest = usage.drop_last();
    let end = usage.len() - 1;
    let id = usage[k].content_id;
    assert(usage[end] == usage.last());
    assert forall|a: int, b: int| 0 <= a < b < rest.len() implies (#[trigger] rest[a]).content_id
        != (#[trigger] rest[b]).content_id by {
        assert(rest[a] == usage[a] && rest[b] == usage[b]);
    }
    if k < end {
        assert(rest[k] == usage[k]);
        lemma_one_more_goes(rest, gone, k);
        assert(usage[k].content_id != usage[end].content_id);
    } else {
        lemma_absent_goes(rest, gone, id);
    }
}

/// A blob that is not there takes nothing with it.
proof fn lemma_absent_goes(usage: Seq<UsageView>, gone: Set<Seq<u8>>, id: Seq<u8>)
    requires
        forall|k: int| 0 <= k < usage.len() ==> (#[trigger] usage[k]).content_id != id,
    ensures
        bytes_without(usage, gone.insert(id)) == bytes_without(usage, gone),
    decreases usage.len(),
{
    if usage.len() > 0 {
        let rest = usage.drop_last();
        assert(usage[usage.len() - 1] == usage.last());
        assert forall|k: int| 0 <= k < rest.len() implies (#[trigger] rest[k]).content_id != id by {
            assert(rest[k] == usage[k]);
        }
        lemma_absent_goes(rest, gone, id);
    }
}

/// The content ids of the first `n` blobs of an order.
spec fn first_ids(candidates: Seq<UsageView>, order: Seq<usize>, n: nat) -> Set<Seq<u8>>
    decreases n,
{
    if n == 0 {
        Set::empty()
    } else {
        first_ids(candidates, order, (n - 1) as nat).insert(
            candidates[order[n - 1] as int].content_id,
        )
    }
}

/// What is used after evicting some blobs is what all others hold.
proof fn lemma_used_is_rest(kept: Seq<UsageView>, order: Seq<usize>, n: nat)
    requires
        lengths_valid(kept),
        forall|a: int, b: int|
            0 <= a < b < kept.len() ==> (#[trigger] kept[a]).content_id != (
            #[trigger] kept[b]).content_id,
        plain_bytes_where(kept, |u: UsageView| true) <= i64::MAX,
        stable_order(order, evictable(kept).len(), blob_order(evictable(kept))),
        n <= evictable(kept).len(),
    ensures
        used_after(total_bytes(kept), evictable(kept), order, n) == bytes_without(
            kept,
            first_ids(evictable(kept), order, n),
        ),
        forall|id: Seq<u8>| #[trigger]
            first_ids(evictable(kept), order, n).contains(id) <==> exists|m: int|
                0 <= m < n && evictable(kept)[#[trigger] order[m] as int].content_id == id,
        plain_bytes_where(kept, |u: UsageView| usage_protected(u)) <= used_after(
            total_bytes(kept),
            evictable(kept),
            order,
            n,
        ) <= i64::MAX,
    decreases n,
{
    let candidates = evictable(kept);
    lemma_evictable_lengths(kept);
    crate::accounting::lemma_bytes_where_is_capped_sum(kept, |u: UsageView| true);
    crate::accounting::lemma_bytes_where_is_capped_sum(kept, |u: UsageView| usage_protected(u));
    crate::accounting::lemma_bytes_where_is_capped_sum(candidates, |u: UsageView| true);
    lemma_load_splits(kept);
    lemma_plain_is_sum(candidates);
    lemma_used_after(total_bytes(kept), candidates, order, n);
    lemma_evictable_distinct(kept);
    if n == 0 {
        lemma_nothing_gone(kept);
    } else {
        lemma_used_is_rest(kept, order, (n - 1) as nat);
        lemma_used_after(total_bytes(kept), candidates, order, (n - 1) as nat);
        let below = |p: int| 0 <= p < candidates.len();
        let at = order[n - 1] as int;
        assert(below(at));
        let gone = first_ids(candidates, order, (n - 1) as nat);
        let id = candidates[at].content_id;
        assert(!gone.contains(id)) by {
            if gone.contains(id) {
                let m = choose|m: int|
                    0 <= m < n - 1 && candidates[#[trigger] order[m] as int].content_id == id;
                assert(below(order[m] as int));
                assert(crate::order::precedes(blob_order(candidates), order[m] as int, at));
                lemma_bytes_before_irreflexive(id);
                assert(order[m] as int != at);
                if (order[m] as int) < at {
                    assert(candidates[order[m] as int].content_id != candidates[at].content_id);
                } else {
                    assert(candidates[at].content_id != candidates[order[m] as int].content_id);
                }
            }
        }
        lemma_evictable_member(kept, at);
        let k = choose|k: int| 0 <= k < kept.len() && #[trigger] kept[k] == candidates[at];
        lemma_one_more_goes(kept, gone, k);
        let picked = order.map_values(|p: usize| lengths(candidates)[p as int]);
        assert(picked.take(n as int).drop_last() =~= picked.take(n - 1));
        assert(picked.take(n as int).last() == candidates[at].blob_len);
        let all = first_ids(candidates, order, n);
        assert forall|x: Seq<u8>| #[trigger] all.contains(x) <==> exists|m: int|
            0 <= m < n && candidates[#[trigger] order[m] as int].content_id == x by {
            if all.contains(x) {
                if x == id {
                    assert(candidates[order[n - 1] as int].content_id == x);
                } else {
                    assert(gone.contains(x));
                    let m = choose|m: int|
                        0 <= m < n - 1 && candidates[#[trigger] order[m] as int].content_id == x;
                    assert(0 <= m < n);
                }
            }
            if exists|m: int| 0 <= m < n && candidates[#[trigger] order[m] as int].content_id == x {
                let m = choose|m: int|
                    0 <= m < n && candidates[#[trigger] order[m] as int].content_id == x;
                if m < n - 1 {
                    assert(gone.contains(x));
                }
            }
        }
    }
}

/// Where nothing goes everything is left.
proof fn lemma_nothing_gone(usage: Seq<UsageView>)
    ensures
        bytes_without(usage, Set::empty()) == plain_bytes_where(usage, |u: UsageView| true),
    decreases usage.len(),
{
    if usage.len() > 0 {
        lemma_nothing_gone(usage.drop_last());
    }
}

/// Picks the blobs that stay in use and are not among `evicted`.
pub open spec fn stays_after(
    key: Seq<u8>,
    previous: Option<Seq<u8>>,
    evicted: Seq<Vec<u8>>,
) -> spec_fn(MirroredBlobUsage) -> bool {
    |blob: MirroredBlobUsage|
        stays(key, previous)(blob) && !exists|e: int|
            0 <= e < evicted.len() && (#[trigger] evicted[e])@ == blob.content_id@
}

/// What is in use counts as well once the peer has moved on.
proof fn lemma_kept_countable(
    usage: Seq<MirroredBlobUsage>,
    key: Seq<u8>,
    previous: Option<Seq<u8>>,
)
    requires
        crate::accounting::countable(usage),
    ensures
        lengths_valid(after_replacement(usage_views(usage), key, previous)),
        0 <= plain_bytes_where(
            after_replacement(usage_views(usage), key, previous),
            |u: UsageView| true,
        ) <= i64::MAX,
{
    let views = usage_views(usage);
    assert forall|i: int| 0 <= i < views.len() implies (#[trigger] views[i]).blob_len >= 0 by {
        assert(usage[i].blob_len >= 0);
    }
    lemma_replacement_lengths(views, key, previous);
    let kept = after_replacement(views, key, previous);
    crate::accounting::lemma_bytes_where_is_capped_sum(kept, |u: UsageView| true);
    lemma_kept_sum(usage, key, previous, |u: UsageView| true, stays(key, previous));
    crate::accounting::lemma_picked_no_more(usage, stays(key, previous));
}

/// A revision is stored exactly where protected blobs leave room for it.
pub proof fn lemma_protected_blobs_stand_in_the_way(
    usage: Seq<MirroredBlobUsage>,
    key: Seq<u8>,
    reserved: bool,
    moved: Option<Seq<u8>>,
    new_id: Seq<u8>,
    new_length: int,
    budget: i64,
    limits: Limits,
    outcome: Result<StorageAdmission, Status>,
)
    requires
        storage_rule(
            usage_views(usage),
            key,
            reserved,
            moved,
            new_id,
            new_length,
            budget as int,
            limits,
            outcome,
        ),
        crate::accounting::countable(usage),
        distinct_blobs(usage),
        budget < i64::MAX,
        limits.max_peer_content_bytes <= i64::MAX,
    ensures
        outcome is Ok <==> 0 < new_length <= limits.max_peer_content_bytes,
        outcome matches Ok(admission) ==> {
            let held = exists|i: int|
                0 <= i < usage.len() && (#[trigger] usage[i]).content_id@ == new_id;
            &&& admission is Store <==> held || crate::accounting::total_length(
                usage.filter(stays_protected(key, moved)),
            ) + limits.max_peer_content_bytes <= budget
            &&& held ==> (admission matches StorageAdmission::Store { evict_content_ids }
                && evict_content_ids@.len() == 0)
        },
{
    if let Ok(admission) = outcome {
        let views = usage_views(usage);
        let kept = after_replacement(views, key, moved);
        let candidates = evictable(kept);
        let full = limits.max_content();
        lemma_kept_countable(usage, key, moved);
        lemma_kept_blobs(usage, key, moved);
        crate::accounting::lemma_bytes_where_is_capped_sum(kept, |u: UsageView| true);
        crate::accounting::lemma_bytes_where_is_capped_sum(kept, |u: UsageView| usage_protected(u));
        lemma_load_splits(kept);
        lemma_evictable_lengths(kept);
        crate::accounting::lemma_bytes_where_is_capped_sum(candidates, |u: UsageView| true);
        assert forall|blob: MirroredBlobUsage| #[trigger] stays_protected(key, moved)(blob) <==> stays(
            key,
            moved,
        )(blob) && (|u: UsageView| usage_protected(u))(moved_on(blob, key, moved)) by {
            lemma_stays(blob, key, moved);
        }
        lemma_kept_sum(
            usage,
            key,
            moved,
            |u: UsageView| usage_protected(u),
            stays_protected(key, moved),
        );
        assert(holds_id(views, new_id) <==> exists|i: int|
            0 <= i < usage.len() && (#[trigger] usage[i]).content_id@ == new_id) by {
            if holds_id(views, new_id) {
                let i = choose|i: int|
                    0 <= i < views.len() && (#[trigger] views[i]).content_id == new_id;
                assert(usage[i].content_id@ == new_id);
            }
            if exists|i: int| 0 <= i < usage.len() && (#[trigger] usage[i]).content_id@ == new_id {
                let i = choose|i: int|
                    0 <= i < usage.len() && (#[trigger] usage[i]).content_id@ == new_id;
                assert(views[i].content_id == new_id);
            }
        }
        if !holds_id(views, new_id) && !(reserved && !fits(protected_bytes(kept), full, budget as int)) {
            let order = choose|order: Seq<usize>| #[trigger]
                stable_order(order, candidates.len(), blob_order(candidates)) && eviction_rule(
                    total_bytes(kept),
                    candidates,
                    order,
                    full,
                    budget as int,
                    admission,
                );
            match admission {
                StorageAdmission::Store { evict_content_ids } => {
                    lemma_used_is_rest(kept, order, evict_content_ids@.len());
                },
                StorageAdmission::TrackOnly => {
                    let n = candidates.len();
                    lemma_used_is_rest(kept, order, n);
                    lemma_all_evicted(kept, order);
                    assert(!fits(
                        used_after(total_bytes(kept), candidates, order, n),
                        full,
                        budget as int,
                    ));
                },
            }
        }
    }
}

/// A new revision of acceptable length is stored exactly when its blob is there
/// already, or when a full-size blob fits into the budget beside what pinned and
/// positively scored peers still refer to: then whatever else is in the way is
/// evicted. Otherwise the revision is only taken note of.
pub proof fn law_only_protected_blobs_stand_in_the_way(
    usage: &[MirroredBlobUsage],
    key: &[u8],
    pinned_by_us: bool,
    score: i64,
    previous: Option<&[u8]>,
    new_id: &[u8],
    new_length: i64,
    budget: i64,
    limits: &Limits,
    outcome: Result<StorageAdmission, Status>,
)
    requires
        call_ensures(
            plan_mirrored_blob_storage,
            (usage, key, pinned_by_us, score, previous, new_id, new_length, budget, limits),
            outcome,
        ),
        crate::accounting::countable(usage@),
        distinct_blobs(usage@),
        budget < i64::MAX,
        limits.max_peer_content_bytes <= i64::MAX,
    ensures
        outcome is Ok <==> 0 < new_length <= limits.max_peer_content_bytes,
        outcome matches Ok(admission) ==> {
            let moved: Option<Seq<u8>> = match previous {
                Some(id) => Some(id@),
                None => None,
            };
            let held = exists|i: int|
                0 <= i < usage@.len() && (#[trigger] usage@[i]).content_id@ == new_id@;
            &&& admission is Store <==> held || crate::accounting::total_length(
                usage@.filter(stays_protected(key@, moved)),
            ) + limits.max_peer_content_bytes <= budget
            &&& held ==> (admission matches StorageAdmission::Store { evict_content_ids }
                && evict_content_ids@.len() == 0)
        },
{
    let moved: Option<Seq<u8>> = match previous {
        Some(id) => Some(id@),
        None => None,
    };
    lemma_protected_blobs_stand_in_the_way(
        usage@,
        key@,
        is_reserved(pinned_by_us, score as int),
        moved,
        new_id@,
        new_length as int,
        budget,
        *limits,
        outcome,
    );
}

/// Once everything that can be evicted is gone, only what is protected is left.
proof fn lemma_all_evicted(kept: Seq<UsageView>, order: Seq<usize>)
    requires
        lengths_valid(kept),
        plain_bytes_where(kept, |u: UsageView| true) <= i64::MAX,
        stable_order(order, evictable(kept).len(), blob_order(evictable(kept))),
    ensures
        used_after(total_bytes(kept), evictable(kept), order, evictable(kept).len())
            == plain_bytes_where(kept, |u: UsageView| usage_protected(u)),
{
    let candidates = evictable(kept);
    let n = candidates.len();
    lemma_evictable_lengths(kept);
    crate::accounting::lemma_bytes_where_is_capped_sum(kept, |u: UsageView| true);
    crate::accounting::lemma_bytes_where_is_capped_sum(kept, |u: UsageView| usage_protected(u));
    lemma_load_splits(kept);
    lemma_plain_is_sum(candidates);
    lemma_used_after(total_bytes(kept), candidates, order, n);
    let picked = order.map_values(|at: usize| lengths(candidates)[at as int]);
    assert(picked.take(n as int) =~= picked);
    let below = |p: int| 0 <= p < candidates.len();
    assert forall|a: int| 0 <= a < order.len() implies (#[trigger] order[a]) < candidates.len() by {
        assert(below(order[a] as int));
    }
    assert forall|a: int, b: int| 0 <= a < b < order.len() implies #[trigger] order[a]
        != #[trigger] order[b] by {
        assert(crate::order::precedes(blob_order(candidates), order[a] as int, order[b] as int));
        lemma_bytes_before_irreflexive(candidates[order[a] as int].content_id);
    }
    lemma_picked_multiset(lengths(candidates), order);
    lemma_sum_permutation(picked, lengths(candidates));
}

/// Eviction makes room and no more than that.
pub proof fn lemma_evictions_just_make_room(
    usage: Seq<MirroredBlobUsage>,
    key: Seq<u8>,
    reserved: bool,
    moved: Option<Seq<u8>>,
    new_id: Seq<u8>,
    new_length: int,
    budget: i64,
    limits: Limits,
    evicted: Vec<Vec<u8>>,
)
    requires
        storage_rule(
            usage_views(usage),
            key,
            reserved,
            moved,
            new_id,
            new_length,
            budget as int,
            limits,
            Ok(StorageAdmission::Store { evict_content_ids: evicted }),
        ),
        crate::accounting::countable(usage),
        distinct_blobs(usage),
        budget < i64::MAX,
        limits.max_peer_content_bytes <= i64::MAX,
        forall|i: int| 0 <= i < usage.len() ==> (#[trigger] usage[i]).content_id@ != new_id,
    ensures
        ({
            &&& crate::accounting::total_length(
                usage.filter(stays_after(key, moved, evicted@)),
            ) + limits.max_peer_content_bytes <= budget
            &&& evicted@.len() > 0 ==> crate::accounting::total_length(
                usage.filter(stays_after(key, moved, evicted@.drop_last())),
            ) + limits.max_peer_content_bytes > budget
        }),
{
    let views = usage_views(usage);
    let kept = after_replacement(views, key, moved);
    let candidates = evictable(kept);
    let full = limits.max_content();
    let admission = StorageAdmission::Store { evict_content_ids: evicted };
    lemma_kept_countable(usage, key, moved);
    lemma_kept_blobs(usage, key, moved);
    crate::accounting::lemma_bytes_where_is_capped_sum(kept, |u: UsageView| true);
    assert(!holds_id(views, new_id)) by {
        if holds_id(views, new_id) {
            let i = choose|i: int| 0 <= i < views.len() && (#[trigger] views[i]).content_id == new_id;
            assert(usage[i].content_id@ == new_id);
        }
    }
    let order = choose|order: Seq<usize>| #[trigger]
        stable_order(order, candidates.len(), blob_order(candidates)) && eviction_rule(
            total_bytes(kept),
            candidates,
            order,
            full,
            budget as int,
            admission,
        );
    let n = evicted@.len();
    lemma_used_is_rest(kept, order, n);
    lemma_gone_sum(usage, key, moved, order, evicted@, n);
    if n > 0 {
        lemma_used_is_rest(kept, order, (n - 1) as nat);
        lemma_gone_sum(usage, key, moved, order, evicted@.drop_last(), (n - 1) as nat);
        assert(!fits(
            used_after(total_bytes(kept), candidates, order, (n - 1) as nat),
            full,
            budget as int,
        ));
    }
}

/// After eviction a full-size blob fits into the budget beside everything that
/// stays in use, and without the last eviction it would not: no more is evicted
/// than has to be.
pub proof fn law_evictions_just_make_room(
    usage: &[MirroredBlobUsage],
    key: &[u8],
    pinned_by_us: bool,
    score: i64,
    previous: Option<&[u8]>,
    new_id: &[u8],
    new_length: i64,
    budget: i64,
    limits: &Limits,
    evicted: Vec<Vec<u8>>,
)
    requires
        call_ensures(
            plan_mirrored_blob_storage,
            (usage, key, pinned_by_us, score, previous, new_id, new_length, budget, limits),
            Ok(StorageAdmission::Store { evict_content_ids: evicted }),
        ),
        crate::accounting::countable(usage@),
        distinct_blobs(usage@),
        budget < i64::MAX,
        limits.max_peer_content_bytes <= i64::MAX,
        forall|i: int| 0 <= i < usage@.len() ==> (#[trigger] usage@[i]).content_id@ != new_id@,
    ensures
        ({
            let moved: Option<Seq<u8>> = match previous {
                Some(id) => Some(id@),
                None => None,
            };
            &&& crate::accounting::total_length(
                usage@.filter(stays_after(key@, moved, evicted@)),
            ) + limits.max_peer_content_bytes <= budget
            &&& evicted@.len() > 0 ==> crate::accounting::total_length(
                usage@.filter(stays_after(key@, moved, evicted@.drop_last())),
            ) + limits.max_peer_content_bytes > budget
        }),
{
    let moved: Option<Seq<u8>> = match previous {
        Some(id) => Some(id@),
        None => None,
    };
    lemma_evictions_just_make_room(
        usage@,
        key@,
        is_reserved(pinned_by_us, score as int),
        moved,
        new_id@,
        new_length as int,
        budget,
        *limits,
        evicted,
    );
}

/// What is left without the first blobs of an order is what stays after evicting them.
proof fn lemma_gone_sum(
    usage: Seq<MirroredBlobUsage>,
    key: Seq<u8>,
    previous: Option<Seq<u8>>,
    order: Seq<usize>,
    evicted: Seq<Vec<u8>>,
    n: nat,
)
    requires
        evicted.len() == n,
        ({
            let candidates = evictable(after_replacement(usage_views(usage), key, previous));
            &&& forall|i: int|
                0 <= i < n ==> (#[trigger] evicted[i])@ == candidates[order[i] as int].content_id
            &&& forall|id: Seq<u8>| #[trigger]
                first_ids(candidates, order, n).contains(id) <==> exists|m: int|
                    0 <= m < n && candidates[#[trigger] order[m] as int].content_id == id
        }),
    ensures
        ({
            let kept = after_replacement(usage_views(usage), key, previous);
            bytes_without(kept, first_ids(evictable(kept), order, n))
                == crate::accounting::total_length(
                usage.filter(stays_after(key, previous, evicted)),
            )
        }),
{
    let kept = after_replacement(usage_views(usage), key, previous);
    let candidates = evictable(kept);
    let gone = first_ids(candidates, order, n);
    let counts = |u: UsageView| !gone.contains(u.content_id);
    assert forall|blob: MirroredBlobUsage| #[trigger] stays_after(key, previous, evicted)(blob)
        <==> stays(key, previous)(blob) && counts(moved_on(blob, key, previous)) by {
        let id = blob.content_id@;
        if gone.contains(id) {
            let m = choose|m: int|
                0 <= m < n && candidates[#[trigger] order[m] as int].content_id == id;
            assert(evicted[m]@ == id);
        }
        if exists|e: int| 0 <= e < evicted.len() && (#[trigger] evicted[e])@ == id {
            let e = choose|e: int| 0 <= e < evicted.len() && (#[trigger] evicted[e])@ == id;
            assert(candidates[order[e] as int].content_id == id);
        }
    }
    lemma_kept_sum(usage, key, previous, counts, stays_after(key, previous, evicted));
}

/// The best score is one of the scores and none is better.
proof fn lemma_best_score(references: Seq<ReferenceView>)
    requires
        references.len() > 0,
    ensures
        exists|k: int|
            0 <= k < references.len() && (#[trigger] references[k]).score_seconds == best_score(
                references,
            ),
        forall|k: int|
            0 <= k < references.len() ==> (#[trigger] references[k]).score_seconds <= best_score(
                references,
            ),
        exists|k: int|
            0 <= k < references.len() && (#[trigger] references[k]).score_measured_at
                == newest_measurement(references),
        forall|k: int|
            0 <= k < references.len() ==> (#[trigger] references[k]).score_measured_at
                <= newest_measurement(references),
    decreases references.len(),
{
    let end = references.len() - 1;
    assert(references[end] == references.last());
    if references.len() == 1 {
        assert(references[0].score_seconds == best_score(references));
        assert(references[0].score_measured_at == newest_measurement(references));
    } else {
        let rest = references.drop_last();
        lemma_best_score(rest);
        let a = choose|k: int|
            0 <= k < rest.len() && (#[trigger] rest[k]).score_seconds == best_score(rest);
        let b = choose|k: int|
            0 <= k < rest.len() && (#[trigger] rest[k]).score_measured_at == newest_measurement(rest);
        assert(references[a] == rest[a] && references[b] == rest[b]);
        assert forall|k: int| 0 <= k < references.len() implies (
        #[trigger] references[k]).score_seconds <= best_score(references)
            && references[k].score_measured_at <= newest_measurement(references) by {
            if k < end {
                assert(references[k] == rest[k]);
            }
        }
    }
}

/// The best score and the newest measurement of what remains, seen from the blob itself.
proof fn lemma_best_of_left(blob: MirroredBlobUsage, key: Seq<u8>, previous: Option<Seq<u8>>)
    requires
        stays(key, previous)(blob),
    ensures
        is_best(blob, key, previous, best_score(left_references(blob, key, previous))),
        is_latest(blob, key, previous, newest_measurement(left_references(blob, key, previous))),
{
    let left = left_references(blob, key, previous);
    lemma_stays(blob, key, previous);
    lemma_left_references(blob, key, previous);
    lemma_best_score(left);
    let a = choose|k: int|
        0 <= k < left.len() && (#[trigger] left[k]).score_seconds == best_score(left);
    assert(comes_from(blob, key, previous, left[a]));
    let r = choose|r: int| #[trigger]
        still_refers(blob, key, previous, r) && blob.references@[r]@ == left[a];
    assert(blob.references@[r].score_seconds == blob.references@[r]@.score_seconds);
    let b = choose|k: int|
        0 <= k < left.len() && (#[trigger] left[k]).score_measured_at == newest_measurement(left);
    assert(comes_from(blob, key, previous, left[b]));
    let q = choose|q: int| #[trigger]
        still_refers(blob, key, previous, q) && blob.references@[q]@ == left[b];
    assert(blob.references@[q].score_measured_at == blob.references@[q]@.score_measured_at);
    assert forall|r: int| #[trigger] still_refers(blob, key, previous, r) implies
        blob.references@[r].score_seconds <= best_score(left)
        && blob.references@[r].score_measured_at <= newest_measurement(left) by {
        let k = choose|k: int| 0 <= k < left.len() && left[k] == blob.references@[r]@;
        assert(left[k].score_seconds <= best_score(left));
        assert(left[k].score_measured_at <= newest_measurement(left));
    }
}

/// Only blobs that no pinned or positively scored peer still refers to are
/// evicted, and those with the lowest best score go first, then those measured
/// longest ago, then the shortest.
pub proof fn law_worst_blobs_go_first(
    usage: &[MirroredBlobUsage],
    key: &[u8],
    pinned_by_us: bool,
    score: i64,
    previous: Option<&[u8]>,
    new_id: &[u8],
    new_length: i64,
    budget: i64,
    limits: &Limits,
    evicted: Vec<Vec<u8>>,
    e: int,
    i: int,
    j: int,
)
    requires
        call_ensures(
            plan_mirrored_blob_storage,
            (usage, key, pinned_by_us, score, previous, new_id, new_length, budget, limits),
            Ok(StorageAdmission::Store { evict_content_ids: evicted }),
        ),
        crate::accounting::countable(usage@),
        distinct_blobs(usage@),
        0 <= e < evicted@.len(),
        0 <= i < usage@.len(),
        0 <= j < usage@.len(),
        usage@[i].content_id@ == evicted@[e]@,
    ensures
        ({
            let moved: Option<Seq<u8>> = match previous {
                Some(id) => Some(id@),
                None => None,
            };
            let gone = usage@[i];
            let left = usage@[j];
            &&& stays(key@, moved)(gone) && !stays_protected(key@, moved)(gone)
            &&& stays_after(key@, moved, evicted@)(left) && !stays_protected(key@, moved)(left)
                ==> forall|a: int, b: int, c: int, d: int| #[trigger]
                is_best(gone, key@, moved, a) && #[trigger] is_best(left, key@, moved, b)
                    && #[trigger] is_latest(gone, key@, moved, c) && #[trigger] is_latest(
                    left,
                    key@,
                    moved,
                    d,
                ) ==> a <= b && (a == b ==> c <= d) && (a == b && c == d ==> gone.blob_len
                    <= left.blob_len)
        }),
{
    let moved: Option<Seq<u8>> = match previous {
        Some(id) => Some(id@),
        None => None,
    };
    let views = usage_views(usage@);
    let kept = after_replacement(views, key@, moved);
    let candidates = evictable(kept);
    let gone = usage@[i];
    let left = usage@[j];
    let admission = StorageAdmission::Store { evict_content_ids: evicted };
    lemma_kept_blobs(usage@, key@, moved);
    lemma_evictable_distinct(kept);
    let order = choose|order: Seq<usize>| #[trigger]
        stable_order(order, candidates.len(), blob_order(candidates)) && eviction_rule(
            total_bytes(kept),
            candidates,
            order,
            limits.max_content(),
            budget as int,
            admission,
        );
    let below = |p: int| 0 <= p < candidates.len();
    let at = order[e] as int;
    assert(below(at));
    assert(evicted@[e]@ == candidates[at].content_id);
    lemma_evictable_member(kept, at);
    let k = choose|k: int| 0 <= k < kept.len() && #[trigger] kept[k] == candidates[at];
    assert(kept_from(usage@, key@, moved, kept[k]));
    let owner = choose|o: int|
        0 <= o < usage@.len() && stays(key@, moved)(#[trigger] usage@[o]) && kept[k] == moved_on(
            usage@[o],
            key@,
            moved,
        );
    assert(owner == i) by {
        if owner < i {
            assert(usage@[owner].content_id@ != usage@[i].content_id@);
        } else if i < owner {
            assert(usage@[i].content_id@ != usage@[owner].content_id@);
        }
    }
    lemma_stays(gone, key@, moved);
    lemma_stays(left, key@, moved);
    if stays_after(key@, moved, evicted@)(left) && !stays_protected(key@, moved)(left) {
        let view = moved_on(left, key@, moved);
        assert(kept.contains(view));
        let q = choose|q: int| 0 <= q < kept.len() && kept[q] == view;
        assert(!usage_protected(kept[q]));
        assert(candidates.contains(view));
        let p = choose|p: int| 0 <= p < candidates.len() && candidates[p] == view;
        assert(below(p));
        let b = choose|b: int| 0 <= b < order.len() && order[b] as int == p;
        assert(b >= evicted@.len()) by {
            if b < evicted@.len() {
                assert(evicted@[b]@ == candidates[order[b] as int].content_id);
            }
        }
        assert(crate::order::precedes(blob_order(candidates), at, p));
        lemma_best_of_left(gone, key@, moved);
        lemma_best_of_left(left, key@, moved);
        assert forall|w: int, x: int, y: int, z: int| #[trigger]
            is_best(gone, key@, moved, w) && #[trigger] is_best(left, key@, moved, x)
                && #[trigger] is_latest(gone, key@, moved, y) && #[trigger] is_latest(
                left,
                key@,
                moved,
                z,
            ) implies w <= x && (w == x ==> y <= z) && (w == x && y == z ==> gone.blob_len
            <= left.blob_len) by {
            lemma_best_unique(gone, key@, moved, w, best_score(candidates[at].references));
            lemma_best_unique(left, key@, moved, x, best_score(view.references));
            lemma_latest_unique(gone, key@, moved, y, newest_measurement(candidates[at].references));
            lemma_latest_unique(left, key@, moved, z, newest_measurement(view.references));
            crate::text::lemma_bytes_before_total(
                candidates[at].content_id,
                view.content_id,
            );
        }
    }
}

/// There is one best score.
proof fn lemma_best_unique(
    blob: MirroredBlobUsage,
    key: Seq<u8>,
    previous: Option<Seq<u8>>,
    a: int,
    b: int,
)
    requires
        is_best(blob, key, previous, a),
        is_best(blob, key, previous, b),
    ensures
        a == b,
{
}

/// There is one newest measurement.
proof fn lemma_latest_unique(
    blob: MirroredBlobUsage,
    key: Seq<u8>,
    previous: Option<Seq<u8>>,
    a: int,
    b: int,
)
    requires
        is_latest(blob, key, previous, a),
        is_latest(blob, key, previous, b),
    ensures
        a == b,
{
}

/// The largest revision that is still accepted is what the budget leaves beside
/// protected blobs, but no more than peers exchange and no less than nothing.
pub proof fn law_accepted_size_is_what_protection_leaves(
    usage: &[MirroredBlobUsage],
    budget: i64,
    limits: &Limits,
    accepted: i64,
)
    requires
        call_ensures(maximum_peer_content_accepted_bytes, (usage, budget, limits), accepted),
        crate::accounting::countable(usage@),
        0 <= budget,
        limits.max_peer_content_bytes <= i64::MAX,
    ensures
        ({
            let protected = crate::accounting::total_length(
                usage@.filter(
                    |blob: MirroredBlobUsage| !crate::accounting::has_no_protector()(blob),
                ),
            );
            &&& 0 <= accepted <= limits.max_peer_content_bytes
            &&& protected >= budget ==> accepted == 0
            &&& protected < budget ==> accepted == budget - protected || (accepted
                == limits.max_peer_content_bytes && accepted < budget - protected)
        }),
{
    let picks = |blob: MirroredBlobUsage| !crate::accounting::has_no_protector()(blob);
    crate::accounting::lemma_protected_bytes(usage@, picks);
}

/// What is in use is listed in one way only.
pub proof fn lemma_usage_is_unique(
    a: Seq<UsageView>,
    b: Seq<UsageView>,
    peers: Seq<PeerView>,
    reads: Seq<BlobRead>,
)
    requires
        is_usage_of(a, peers, reads),
        is_usage_of(b, peers, reads),
    ensures
        a == b,
{
    lemma_usage_prefix(a, b, peers, reads, a.len());
    lemma_usage_prefix(b, a, peers, reads, b.len());
    assert(a =~= b);
}

/// The first blobs of two lists of what is in use are the same.
proof fn lemma_usage_prefix(
    a: Seq<UsageView>,
    b: Seq<UsageView>,
    peers: Seq<PeerView>,
    reads: Seq<BlobRead>,
    n: nat,
)
    requires
        is_usage_of(a, peers, reads),
        is_usage_of(b, peers, reads),
        n <= a.len(),
    ensures
        n <= b.len(),
        forall|i: int| 0 <= i < n ==> #[trigger] a[i] == b[i],
    decreases n,
{
    if n > 0 {
        lemma_usage_prefix(a, b, peers, reads, (n - 1) as nat);
        let at = n - 1;
        let id = a[at].content_id;
        assert(held_for_some(peers, reads, id));
        let j = choose|j: int| 0 <= j < b.len() && (#[trigger] b[j]).content_id == id;
        lemma_bytes_before_irreflexive(id);
        if j < at {
            assert(a[j] == b[j]);
            assert(bytes_before(a[j].content_id, a[at].content_id));
        }
        if j > at {
            let other = b[at].content_id;
            assert(held_for_some(peers, reads, other));
            let m = choose|m: int| 0 <= m < a.len() && (#[trigger] a[m]).content_id == other;
            assert(bytes_before(b[at].content_id, b[j].content_id));
            lemma_bytes_before_irreflexive(other);
            if m < at {
                assert(a[m] == b[m]);
                assert(bytes_before(b[m].content_id, b[at].content_id));
            } else if m > at {
                assert(bytes_before(a[at].content_id, a[m].content_id));
                lemma_bytes_before_transitive(id, other, id);
            }
        }
        assert(a[at].references =~= b[at].references);
        assert(a[at] == b[at]);
    }
}

/// What is in use lists no blob twice.
pub proof fn lemma_usage_distinct(
    usage: Seq<MirroredBlobUsage>,
    peers: Seq<PeerView>,
    reads: Seq<BlobRead>,
)
    requires
        is_usage_of(usage_views(usage), peers, reads),
    ensures
        distinct_blobs(usage),
{
    let views = usage_views(usage);
    assert forall|i: int, j: int| 0 <= i < j < usage.len() implies (
    #[trigger] usage[i]).content_id@ != (#[trigger] usage[j]).content_id@ by {
        assert(bytes_before(views[i].content_id, views[j].content_id));
        lemma_bytes_before_irreflexive(views[i].content_id);
    }
}

/// Picks the peers whose cached revision is `id`.
pub open spec fn holds_revision(id: Seq<u8>) -> spec_fn(Peer) -> bool {
    |peer: Peer| peer.latest_cached_content matches Some(content) && content.content_id@ == id
}

/// The references to a blob are those of the peers that hold it.
proof fn lemma_references_are_holders(peers: Seq<Peer>, id: Seq<u8>)
    ensures
        references_to(peer_views(peers), id) == peers.filter(holds_revision(id)).map_values(
            |peer: Peer| reference_of(peer@),
        ),
    decreases peers.len(),
{
    reveal(Seq::filter);
    let build = |peer: Peer| reference_of(peer@);
    let holders = peers.filter(holds_revision(id));
    if peers.len() > 0 {
        let rest = peers.drop_last();
        lemma_references_are_holders(rest, id);
        assert(peer_views(peers).drop_last() =~= peer_views(rest));
        assert(peer_views(peers).last() == peers.last()@);
        let before = rest.filter(holds_revision(id));
        if holds_revision(id)(peers.last()) {
            assert(holders == before.push(peers.last()));
            assert(holders.map_values(build) =~= before.map_values(build).push(build(peers.last())));
        }
        assert(references_to(peer_views(peers), id) =~= holders.map_values(build));
    } else {
        assert(references_to(peer_views(peers), id) =~= holders.map_values(build));
    }
}

/// Where a peer is picked some are left.
proof fn lemma_someone_picked(peers: Seq<Peer>, picks: spec_fn(Peer) -> bool, k: int)
    requires
        0 <= k < peers.len(),
        picks(peers[k]),
    ensures
        peers.filter(picks).len() > 0,
    decreases peers.len(),
{
    reveal(Seq::filter);
    if k < peers.len() - 1 {
        assert(peers.drop_last()[k] == peers[k]);
        lemma_someone_picked(peers.drop_last(), picks, k);
    }
}

/// What is in use lists exactly the blobs that some peer's cached revision
/// names and of which bytes were read, each once, as long as it was read, with
/// one reference for each of the peers that name it, in their order.
pub proof fn law_usage_lists_what_peers_refer_to(
    peers: &[Peer],
    reads: &[BlobRead],
    usage: Vec<MirroredBlobUsage>,
    u: int,
    p: int,
    r: int,
)
    requires
        call_ensures(mirrored_blob_usage, (peers, reads), Ok(usage)),
    ensures
        distinct_blobs(usage@),
        0 <= u < usage@.len() ==> {
            let holders = peers@.filter(holds_revision(usage@[u].content_id@));
            &&& usage@[u].blob_len > 0
            &&& holders.len() > 0
            &&& usage@[u].references@.len() == holders.len()
            &&& forall|k: int|
                0 <= k < holders.len() ==> {
                    let reference = #[trigger] usage@[u].references@[k];
                    let holder = holders[k];
                    &&& reference.peer_public_key@ == holder.onion_pubkey@
                    &&& reference.pinned_by_us == holder.pinned_by_us
                    &&& reference.score_seconds == holder.score_seconds
                    &&& reference.score_measured_at == holder.score_measured_at
                }
            &&& crate::records::first_read(reads@, usage@[u].content_id@, r) ==> (reads@[r].outcome matches Ok(
                len,
            ) && (usage@[u].blob_len == len || len > i64::MAX))
        },
        0 <= p < peers@.len() && peers@[p].latest_cached_content is Some
            && crate::records::first_read(reads@, peers@[p].latest_cached_content->0.content_id@, r)
            ==> {
            &&& (reads@[r].outcome matches Ok(len) && len > 0) ==> exists|i: int|
                0 <= i < usage@.len() && (#[trigger] usage@[i]).content_id@
                    == peers@[p].latest_cached_content->0.content_id@
            &&& (reads@[r].outcome is Ok || reads@[r].outcome matches Err(StorageError::FileNotFound)
                || reads@[r].outcome matches Err(StorageError::RecoveryRequired(_)))
        },
{
    let views = peer_views(peers@);
    let listed = usage_views(usage@);
    lemma_usage_distinct(usage@, views, reads@);
    if 0 <= u < usage@.len() {
        let id = usage@[u].content_id@;
        let holders = peers@.filter(holds_revision(id));
        assert(listed[u] == usage@[u]@);
        assert(held_for_some(views, reads@, listed[u].content_id));
        lemma_references_are_holders(peers@, id);
        crate::records::lemma_first_read(reads@, id);
        assert(usage@[u]@.references == references_to(views, id));
        assert(usage@[u]@.references.len() == usage@[u].references@.len());
        assert forall|k: int| 0 <= k < holders.len() implies {
            let reference = #[trigger] usage@[u].references@[k];
            let holder = holders[k];
            &&& reference.peer_public_key@ == holder.onion_pubkey@
            &&& reference.pinned_by_us == holder.pinned_by_us
            &&& reference.score_seconds == holder.score_seconds
            &&& reference.score_measured_at == holder.score_measured_at
        } by {
            assert(usage@[u]@.references[k] == usage@[u].references@[k]@);
            assert(usage@[u]@.references[k] == reference_of(holders[k]@));
        }
        let k = choose|k: int| 0 <= k < views.len() && caches(#[trigger] views[k], id);
        assert(views[k] == peers@[k]@);
        assert(holds_revision(id)(peers@[k]));
        lemma_someone_picked(peers@, holds_revision(id), k);
    }
    if 0 <= p < peers@.len() && peers@[p].latest_cached_content is Some
        && crate::records::first_read(reads@, peers@[p].latest_cached_content->0.content_id@, r) {
        let id = peers@[p].latest_cached_content->0.content_id@;
        crate::records::lemma_first_read(reads@, id);
        assert(views[p] == peers@[p]@);
        assert(caches(views[p], id));
        lemma_no_read_failure(views, reads@);
        assert(read_failure(reads@, id) is None);
        if reads@[r].outcome matches Ok(len) && len > 0 {
            assert(held_for_some(views, reads@, id));
            let i = choose|i: int| 0 <= i < listed.len() && (#[trigger] listed[i]).content_id == id;
            assert(usage@[i].content_id@ == id);
        }
    }
}

/// Whether peer `p` refers to a blob whose first read, `reads[r]`, failed for
/// another reason than that the blob is missing or damaged.
pub open spec fn unreadable(peers: Seq<Peer>, reads: Seq<BlobRead>, p: int, r: int) -> bool {
    &&& 0 <= p < peers.len()
    &&& peers[p].latest_cached_content matches Some(content)
    &&& crate::records::first_read(reads, content.content_id@, r)
    &&& reads[r].outcome matches Err(error)
    &&& !(error is FileNotFound) && !(error is RecoveryRequired)
}

/// A blob that was read at all has a first read.
proof fn lemma_some_first_read(reads: Seq<BlobRead>, id: Seq<u8>, n: int)
    requires
        0 <= n <= reads.len(),
    ensures
        (forall|i: int| 0 <= i < n ==> (#[trigger] reads[i]).content_id@ != id) || exists|r: int| #[trigger]
            crate::records::first_read(reads, id, r),
    decreases n,
{
    if n > 0 {
        lemma_some_first_read(reads, id, n - 1);
        if (forall|i: int| 0 <= i < n - 1 ==> (#[trigger] reads[i]).content_id@ != id)
            && reads[n - 1].content_id@ == id {
            assert(crate::records::first_read(reads, id, n - 1));
        }
    }
}

/// Reading fails where some peer's blob cannot be read.
proof fn lemma_read_failure_found(peers: Seq<PeerView>, reads: Seq<BlobRead>)
    ensures
        first_read_failure(peers, reads) is Some <==> exists|p: int|
            0 <= p < peers.len() && (#[trigger] peers[p]).latest_cached_content is Some
                && read_failure(reads, peers[p].latest_cached_content->0.content_id) is Some,
    decreases peers.len(),
{
    if peers.len() > 0 {
        let rest = peers.drop_first();
        lemma_read_failure_found(rest, reads);
        if exists|p: int|
            0 <= p < peers.len() && (#[trigger] peers[p]).latest_cached_content is Some
                && read_failure(reads, peers[p].latest_cached_content->0.content_id) is Some {
            let p = choose|p: int|
                0 <= p < peers.len() && (#[trigger] peers[p]).latest_cached_content is Some
                    && read_failure(reads, peers[p].latest_cached_content->0.content_id) is Some;
            if p > 0 {
                assert(rest[p - 1] == peers[p]);
            }
        }
        if exists|p: int|
            0 <= p < rest.len() && (#[trigger] rest[p]).latest_cached_content is Some
                && read_failure(reads, rest[p].latest_cached_content->0.content_id) is Some {
            let p = choose|p: int|
                0 <= p < rest.len() && (#[trigger] rest[p]).latest_cached_content is Some
                    && read_failure(reads, rest[p].latest_cached_content->0.content_id) is Some;
            assert(peers[p + 1] == rest[p]);
        }
        assert(peers[0] == peers[0]);
    }
}

/// The accounting of mirrored blobs fails exactly where a blob that some peer
/// refers to is there but cannot be read. Missing and damaged blobs hold nothing
/// and stand in nobody's way.
pub proof fn law_only_unreadable_blobs_end_the_accounting(
    peers: &[Peer],
    reads: &[BlobRead],
    outcome: Result<Vec<MirroredBlobUsage>, Status>,
)
    requires
        call_ensures(mirrored_blob_usage, (peers, reads), outcome),
    ensures
        outcome is Err <==> exists|p: int, r: int| #[trigger] unreadable(peers@, reads@, p, r),
{
    let views = peer_views(peers@);
    lemma_read_failure_found(views, reads@);
    if outcome is Err {
        let p = choose|p: int|
            0 <= p < views.len() && (#[trigger] views[p]).latest_cached_content is Some
                && read_failure(reads@, views[p].latest_cached_content->0.content_id) is Some;
        assert(views[p] == peers@[p]@);
        let id = peers@[p].latest_cached_content->0.content_id@;
        crate::records::lemma_first_read(reads@, id);
        lemma_some_first_read(reads@, id, reads@.len() as int);
        let r = choose|r: int| #[trigger] crate::records::first_read(reads@, id, r);
        assert(unreadable(peers@, reads@, p, r));
    }
    if exists|p: int, r: int| #[trigger] unreadable(peers@, reads@, p, r) {
        let (p, r) = choose|p: int, r: int| #[trigger] unreadable(peers@, reads@, p, r);
        let id = peers@[p].latest_cached_content->0.content_id@;
        crate::records::lemma_first_read(reads@, id);
        assert(views[p] == peers@[p]@);
        assert(read_failure(reads@, views[p].latest_cached_content->0.content_id) is Some);
    }
}

} // verus!
