//! Recovering revisions that peers still hold from before this node was set up.

use crate::arith::{clamp_i64, i64_from_usize, saturating_add_i64};
use crate::collections::{contains_text, copy_texts, texts};
use crate::content::CurrentContent;
use crate::lineage::{
    in_window, key_before, key_less, key_time, key_timestamp, made_before, recovered_before,
    recovered_less, time_before, LineageWindow, ParsedRevision, PeerRevision, RevisionKey,
};
use crate::model::{ContentInfo, ProtoTimestamp, NANOS_PER_SECOND};
use crate::order::{sort_positions, stable_order, strict_weak_order};
use crate::status::{
    fails_with, invalid_argument, map_storage_error, plain_status, storage_status, Code, Status,
    StatusView, StorageError,
};
use crate::text::{bytes_before, bytes_copy, bytes_eq, bytes_less, lemma_bytes_before_asymmetric, lemma_bytes_before_irreflexive, lemma_bytes_before_total, lemma_bytes_before_transitive};
use crate::timestamps::proto_timestamp_from_parts;
use vstd::prelude::*;

verus! {

/// RecoveryCandidate is one peer-visible revision seen during recovery.
#[derive(Debug)]
pub struct RecoveryCandidate {
    /// key orders content revisions without downloading full bodies.
    pub key: RevisionKey,
    /// content_id is the recoverable encrypted revision identifier.
    pub content_id: Vec<u8>,
    /// content_length is the encrypted blob length advertised by peers.
    pub content_length: i64,
    /// peers are the peers that reported the same candidate revision.
    pub peers: Vec<String>,
}

/// CandidateView is the mathematical content of a `RecoveryCandidate`.
pub struct CandidateView {
    /// key orders content revisions.
    pub key: RevisionKey,
    /// content_id identifies the revision.
    pub content_id: Seq<u8>,
    /// content_length is the advertised blob length.
    pub content_length: i64,
    /// peers are the peers that reported the revision, in order.
    pub peers: Seq<Seq<char>>,
}

impl View for RecoveryCandidate {
    type V = CandidateView;

    open spec fn view(&self) -> CandidateView {
        CandidateView {
            key: self.key,
            content_id: self.content_id@,
            content_length: self.content_length,
            peers: texts(self.peers@),
        }
    }
}

impl Clone for RecoveryCandidate {
    fn clone(&self) -> (copy: Self)
        ensures
            copy@ == self@,
    {
        RecoveryCandidate {
            key: self.key,
            content_id: bytes_copy(self.content_id.as_slice()),
            content_length: self.content_length,
            peers: copy_texts(&self.peers),
        }
    }
}

/// Candidates maps content ids to the candidates that peers reported.
pub type Candidates = Map<Seq<u8>, CandidateView>;

/// `peers` with `peer` at the end, unless it is there already.
pub open spec fn with_peer(peers: Seq<Seq<char>>, peer: Seq<char>) -> Seq<Seq<char>> {
    if peers.contains(peer) {
        peers
    } else {
        peers.push(peer)
    }
}

/// The candidates after `peer` reported `content`: the first report fixes key
/// and length, and every peer is listed once.
pub open spec fn noted(
    candidates: Candidates,
    id: Seq<u8>,
    length: i64,
    key: RevisionKey,
    peer: Seq<char>,
) -> Candidates {
    if candidates.dom().contains(id) {
        candidates.insert(
            id,
            CandidateView { peers: with_peer(candidates[id].peers, peer), ..candidates[id] },
        )
    } else {
        candidates.insert(
            id,
            CandidateView { key, content_id: id, content_length: length, peers: seq![peer] },
        )
    }
}

/// CandidateSet holds at most one candidate for each content id.
#[derive(Debug)]
pub struct CandidateSet {
    items: Vec<RecoveryCandidate>,
}

impl CandidateSet {
    /// No two candidates share a content id.
    pub closed spec fn wf(&self) -> bool {
        forall|i: int, j: int|
            0 <= i < j < self.items@.len() ==> (#[trigger] self.items@[i]).content_id@ != (
            #[trigger] self.items@[j]).content_id@
    }

    /// Whether some candidate has content id `id`.
    spec fn has(&self, id: Seq<u8>) -> bool {
        exists|i: int| 0 <= i < self.items@.len() && (#[trigger] self.items@[i]).content_id@ == id
    }

    /// A position of the candidate with content id `id`.
    spec fn at(&self, id: Seq<u8>) -> int {
        choose|i: int| 0 <= i < self.items@.len() && (#[trigger] self.items@[i]).content_id@ == id
    }
}

impl View for CandidateSet {
    type V = Candidates;

    closed spec fn view(&self) -> Candidates {
        Map::new(|id: Seq<u8>| self.has(id), |id: Seq<u8>| self.items@[self.at(id)]@)
    }
}

impl CandidateSet {
    /// A candidate is found under its content id.
    proof fn lemma_entry(&self, i: int)
        requires
            self.wf(),
            0 <= i < self.items@.len(),
        ensures
            self@.dom().contains(self.items@[i].content_id@),
            self@[self.items@[i].content_id@] == self.items@[i]@,
    {
        let id = self.items@[i].content_id@;
        assert(self.has(id));
        let j = self.at(id);
        assert(0 <= j < self.items@.len() && self.items@[j].content_id@ == id);
        if i < j {
            assert(self.items@[i].content_id@ != self.items@[j].content_id@);
        } else if j < i {
            assert(self.items@[j].content_id@ != self.items@[i].content_id@);
        }
    }

    /// Every candidate carries the content id it is found under.
    proof fn lemma_ids(&self)
        requires
            self.wf(),
        ensures
            forall|id: Seq<u8>| #[trigger]
                self@.dom().contains(id) ==> self@[id].content_id == id,
            self@.dom().finite(),
            self@.dom().len() == self.items@.len(),
    {
        assert forall|id: Seq<u8>| #[trigger] self@.dom().contains(id) implies self@[id].content_id
            == id by {
            assert(self.has(id));
            self.lemma_entry(self.at(id));
        }
        let ids = self.items@.map_values(|c: RecoveryCandidate| c.content_id@);
        assert(ids.no_duplicates()) by {
            assert forall|i: int, j: int|
                0 <= i < ids.len() && 0 <= j < ids.len() && i != j implies ids[i] != ids[j] by {
                if i < j {
                    assert(self.items@[i].content_id@ != self.items@[j].content_id@);
                } else {
                    assert(self.items@[j].content_id@ != self.items@[i].content_id@);
                }
            }
        }
        ids.unique_seq_to_set();
        assert(ids.to_set() =~= self@.dom()) by {
            assert forall|id: Seq<u8>| ids.to_set().contains(id) <==> self@.dom().contains(id) by {
                if ids.contains(id) {
                    let i = choose|i: int| 0 <= i < ids.len() && ids[i] == id;
                    assert(self.items@[i].content_id@ == id);
                }
                if self.has(id) {
                    let i = self.at(id);
                    assert(ids[i] == id);
                }
            }
        }
    }

    /// Build the empty set.
    pub fn new() -> (set: Self)
        ensures
            set.wf(),
            set@ == Candidates::empty(),
    {
        let set = CandidateSet { items: Vec::new() };
        assert(set@ =~= Candidates::empty());
        set
    }

    /// Report how many candidates there are.
    pub fn count(&self) -> (n: i64)
        requires
            self.wf(),
        ensures
            n == clamp_i64(self@.dom().len() as int),
    {
        proof {
            self.lemma_ids();
        }
        i64_from_usize(self.items.len())
    }

    /// Find the candidate with content id `id`.
    fn position(&self, id: &[u8]) -> (found: Option<usize>)
        ensures
            match found {
                Some(i) => i < self.items@.len() && self.items@[i as int].content_id@ == id@,
                None => !self.has(id@),
            },
    {
        let mut i: usize = 0;
        while i < self.items.len()
            invariant
                i <= self.items.len(),
                forall|k: int| 0 <= k < i ==> (#[trigger] self.items@[k]).content_id@ != id@,
            decreases self.items.len() - i,
        {
            if bytes_eq(self.items[i].content_id.as_slice(), id) {
                return Some(i);
            }
            i += 1;
        }
        None
    }

    /// Add a candidate whose content id is not there yet.
    fn add_new(&mut self, candidate: RecoveryCandidate)
        requires
            old(self).wf(),
            !old(self).has(candidate.content_id@),
        ensures
            final(self).wf(),
            final(self)@ == old(self)@.insert(candidate.content_id@, candidate@),
    {
        let ghost id = candidate.content_id@;
        let ghost view = candidate@;
        let ghost before = *self;
        self.items.push(candidate);
        proof {
            assert forall|i: int, j: int| 0 <= i < j < self.items@.len() implies (
            #[trigger] self.items@[i]).content_id@ != (#[trigger] self.items@[j]).content_id@ by {
                assert(self.items@[i] == before.items@[i]);
                if j < before.items@.len() {
                    assert(self.items@[j] == before.items@[j]);
                }
            }
            assert forall|x: Seq<u8>| self@.dom().contains(x) <==> before@.insert(id, view).dom().contains(
                x,
            ) by {
                if self.has(x) {
                    let i = self.at(x);
                    if i < before.items@.len() {
                        assert(before.items@[i].content_id@ == x);
                    }
                }
                if before.has(x) {
                    let i = before.at(x);
                    assert(self.items@[i].content_id@ == x);
                }
                assert(self.items@[before.items@.len() as int].content_id@ == id);
            }
            assert forall|x: Seq<u8>| self@.dom().contains(x) implies self@[x] == before@.insert(
                id,
                view,
            )[x] by {
                let i = self.at(x);
                assert(self.has(x));
                self.lemma_entry(i);
                if i < before.items@.len() {
                    assert(self.items@[i] == before.items@[i]);
                    before.lemma_entry(i);
                    assert(x != id);
                }
            }
            assert(self@ =~= before@.insert(id, view));
        }
    }

    /// Take note that `peer` reported a revision.
    pub fn note(&mut self, content: &ContentInfo, key: RevisionKey, peer: &str)
        requires
            old(self).wf(),
        ensures
            final(self).wf(),
            final(self)@ == noted(
                old(self)@,
                content@.content_id,
                content.content_length,
                key,
                peer@,
            ),
    {
        let ghost before = *self;
        match self.position(content.content_id.as_slice()) {
            Some(at) => {
                proof {
                    before.lemma_entry(at as int);
                }
                let ghost id = content.content_id@;
                if !contains_text(&self.items[at].peers, peer) {
                    let mut candidate = self.items[at].clone();
                    let ghost listed = candidate.peers@;
                    candidate.peers.push(peer.to_owned());
                    assert(texts(candidate.peers@) =~= texts(listed).push(peer@));
                    let ghost view = candidate@;
                    self.items.set(at, candidate);
                    proof {
                        let expected = before@.insert(id, view);
                        assert forall|i: int, j: int| 0 <= i < j < self.items@.len() implies (
                        #[trigger] self.items@[i]).content_id@ != (
                        #[trigger] self.items@[j]).content_id@ by {
                            assert(before.items@[i].content_id@ != before.items@[j].content_id@);
                        }
                        assert forall|x: Seq<u8>| self@.dom().contains(x) <==> expected.dom().contains(
                            x,
                        ) by {
                            if self.has(x) {
                                let i = self.at(x);
                                assert(before.items@[i].content_id@ == x);
                            }
                            if before.has(x) {
                                let i = before.at(x);
                                assert(self.items@[i].content_id@ == x);
                            }
                        }
                        assert forall|x: Seq<u8>| self@.dom().contains(x) implies self@[x]
                            == expected[x] by {
                            assert(self.has(x));
                            let i = self.at(x);
                            self.lemma_entry(i);
                            if i != at {
                                assert(self.items@[i] == before.items@[i]);
                                before.lemma_entry(i);
                                if x == id {
                                    self.lemma_entry(at as int);
                                    if i < at {
                                        assert(self.items@[i].content_id@
                                            != self.items@[at as int].content_id@);
                                    } else {
                                        assert(self.items@[at as int].content_id@
                                            != self.items@[i].content_id@);
                                    }
                                }
                            }
                        }
                        assert(self@ =~= expected);
                    }
                } else {
                    assert(self@ =~= before@.insert(id, before@[id]));
                }
            },
            None => {
                let mut peers: Vec<String> = Vec::new();
                peers.push(peer.to_owned());
                assert(texts(peers@) =~= seq![peer@]);
                self.add_new(
                    RecoveryCandidate {
                        key,
                        content_id: bytes_copy(content.content_id.as_slice()),
                        content_length: content.content_length,
                        peers,
                    },
                );
            },
        }
    }

    /// Find the newest candidate.
    pub fn newest(&self) -> (candidate: Option<RecoveryCandidate>)
        requires
            self.wf(),
        ensures
            match candidate {
                None => self@.dom() =~= Set::<Seq<u8>>::empty(),
                Some(found) => is_newest(self@, found@),
            },
    {
        if self.items.len() == 0 {
            assert forall|id: Seq<u8>| !self@.dom().contains(id) by {
                assert(!self.has(id));
            }
            return None;
        }
        let mut best: usize = 0;
        let mut i: usize = 1;
        while i < self.items.len()
            invariant
                1 <= i <= self.items.len(),
                best < i,
                forall|k: int|
                    0 <= k < i && k != best ==> ranks_below(
                        (#[trigger] self.items@[k])@,
                        self.items@[best as int]@,
                    ),
                self.wf(),
            decreases self.items.len() - i,
        {
            let newer = candidate_ranks_below(&self.items[best], &self.items[i]);
            proof {
                assert(self.items@[best as int].content_id@ != self.items@[i as int].content_id@);
                lemma_ranks_below(
                    self.items@[best as int]@,
                    self.items@[i as int]@,
                    self.items@[best as int]@,
                );
                assert forall|k: int| 0 <= k < i && k != best && newer implies ranks_below(
                    (#[trigger] self.items@[k])@,
                    self.items@[i as int]@,
                ) by {
                    lemma_ranks_below(
                        self.items@[k]@,
                        self.items@[best as int]@,
                        self.items@[i as int]@,
                    );
                }
            }
            if newer {
                best = i;
            }
            i += 1;
        }
        let found = self.items[best].clone();
        proof {
            self.lemma_entry(best as int);
            assert forall|id: Seq<u8>| #[trigger]
                self@.dom().contains(id) && id != found@.content_id implies ranks_below(
                self@[id],
                found@,
            ) by {
                assert(self.has(id));
                let k = self.at(id);
                self.lemma_entry(k);
            }
        }
        Some(found)
    }

    /// List the candidates in timestamp order.
    pub fn oldest_first(&self) -> (list: Vec<RecoveryCandidate>)
        requires
            self.wf(),
        ensures
            lists_oldest_first(candidate_views(list@), self@),
    {
        let ghost items = self.items@;
        let ghost before = |i: int, j: int| older_first(items[i]@, items[j]@);
        proof {
            let n = items.len();
            assert forall|i: int| 0 <= i < n implies !#[trigger] before(i, i) by {
                lemma_older_first(items[i]@, items[i]@, items[i]@);
            }
            assert forall|i: int, j: int, k: int|
                0 <= i < n && 0 <= j < n && 0 <= k < n && #[trigger] before(i, j)
                    && #[trigger] before(j, k) implies before(i, k) by {
                lemma_older_first(items[i]@, items[j]@, items[k]@);
            }
            assert forall|i: int, j: int, k: int|
                0 <= i < n && 0 <= j < n && 0 <= k < n && #[trigger] before(i, k)
                implies #[trigger] before(i, j) || before(j, k) by {
                lemma_older_first(items[i]@, items[j]@, items[k]@);
                lemma_older_first(items[j]@, items[i]@, items[k]@);
                lemma_older_first(items[j]@, items[k]@, items[k]@);
            }
            assert(strict_weak_order(n, before));
        }
        let vector = &self.items;
        let less = |i: usize, j: usize| -> (r: bool)
            requires
                i < vector@.len(),
                j < vector@.len(),
            ensures
                r == older_first(vector@[i as int]@, vector@[j as int]@),
            { candidate_older(&vector[i], &vector[j]) };
        let order = sort_positions(vector.len(), less, Ghost(before));
        let mut list: Vec<RecoveryCandidate> = Vec::new();
        let mut next: usize = 0;
        while next < order.len()
            invariant
                next <= order.len(),
                items == vector@,
                stable_order(order@, items.len(), before),
                list@.len() == next,
                forall|k: int| 0 <= k < next ==> (#[trigger] list@[k])@ == items[order@[k] as int]@,
            decreases order.len() - next,
        {
            let ghost listed = list@;
            list.push(vector[order[next]].clone());
            next += 1;
            assert forall|k: int| 0 <= k < next implies (#[trigger] list@[k])@
                == items[order@[k] as int]@ by {
                if k < listed.len() {
                    assert(list@[k] == listed[k]);
                }
            }
        }
        proof {
            let views = candidate_views(list@);
            let below = |i: int| 0 <= i < items.len();
            assert forall|a: int| 0 <= a < views.len() implies self@.dom().contains(
                (#[trigger] views[a]).content_id,
            ) && self@[views[a].content_id] == views[a] by {
                assert(below(order@[a] as int));
                assert(views[a] == list@[a]@);
                self.lemma_entry(order@[a] as int);
            }
            assert forall|a: int, b: int| 0 <= a < b < views.len() implies older_first(
                #[trigger] views[a],
                #[trigger] views[b],
            ) by {
                assert(below(order@[a] as int) && below(order@[b] as int));
                assert(views[a] == list@[a]@ && views[b] == list@[b]@);
                let x = order@[a] as int;
                let y = order@[b] as int;
                assert(crate::order::precedes(before, x, y));
                if !before(x, y) {
                    assert(x < y);
                    assert(items[x].content_id@ != items[y].content_id@);
                    lemma_older_first(items[x]@, items[y]@, items[x]@);
                }
            }
            assert forall|id: Seq<u8>| #[trigger] self@.dom().contains(id) implies exists|a: int|
                0 <= a < views.len() && (#[trigger] views[a]).content_id == id by {
                assert(self.has(id));
                let i = self.at(id);
                assert(below(i));
                let a = choose|a: int| 0 <= a < order@.len() && order@[a] as int == i;
                assert(views[a] == list@[a]@);
            }
        }
        list
    }

    /// Add every candidate of `other` whose content id is not there yet.
    pub fn add_missing(&mut self, other: &CandidateSet)
        requires
            old(self).wf(),
            other.wf(),
        ensures
            final(self).wf(),
            final(self)@ == other@.union_prefer_right(old(self)@),
    {
        let ghost before = self@;
        let mut i: usize = 0;
        let ghost mut added: Candidates = Map::empty();
        assert(self@ =~= added.union_prefer_right(before));
        while i < other.items.len()
            invariant
                i <= other.items.len(),
                self.wf(),
                other.wf(),
                self@ == added.union_prefer_right(before),
                forall|x: Seq<u8>| #[trigger]
                    added.dom().contains(x) <==> exists|k: int|
                        0 <= k < i && (#[trigger] other.items@[k]).content_id@ == x,
                forall|x: Seq<u8>| #[trigger]
                    added.dom().contains(x) ==> other@.dom().contains(x) && added[x] == other@[x],
            decreases other.items.len() - i,
        {
            let candidate = &other.items[i];
            let ghost id = candidate.content_id@;
            let ghost earlier = added;
            proof {
                other.lemma_entry(i as int);
                if earlier.dom().contains(id) {
                    let k = choose|k: int|
                        0 <= k < i && (#[trigger] other.items@[k]).content_id@ == id;
                    assert(other.items@[k].content_id@ != other.items@[i as int].content_id@);
                }
                added = earlier.insert(id, candidate@);
            }
            match self.position(candidate.content_id.as_slice()) {
                Some(at) => {
                    proof {
                        self.lemma_entry(at as int);
                        assert(before.dom().contains(id));
                        assert(self@ =~= added.union_prefer_right(before));
                    }
                },
                None => {
                    proof {
                        assert(!self@.dom().contains(id));
                        assert(!before.dom().contains(id));
                    }
                    self.add_new(candidate.clone());
                    proof {
                        assert(self@ =~= added.union_prefer_right(before));
                    }
                },
            }
            i += 1;
            proof {
                assert forall|x: Seq<u8>| #[trigger] added.dom().contains(x) <==> exists|k: int|
                    0 <= k < i && (#[trigger] other.items@[k]).content_id@ == x by {
                    if added.dom().contains(x) {
                        if x == id {
                            assert(other.items@[i - 1].content_id@ == x);
                        } else {
                            assert(earlier.dom().contains(x));
                        }
                    }
                    if exists|k: int| 0 <= k < i && (#[trigger] other.items@[k]).content_id@ == x {
                        let k = choose|k: int|
                            0 <= k < i && (#[trigger] other.items@[k]).content_id@ == x;
                        if k < i - 1 {
                            assert(earlier.dom().contains(x));
                        }
                    }
                }
            }
        }
        proof {
            assert forall|x: Seq<u8>| added.dom().contains(x) <==> other@.dom().contains(x) by {
                if other@.dom().contains(x) {
                    assert(other.has(x));
                    let k = other.at(x);
                    assert(other.items@[k].content_id@ == x);
                }
            }
            assert(added =~= other@);
        }
    }

    /// Copy the set.
    fn copy(&self) -> (copy: CandidateSet)
        requires
            self.wf(),
        ensures
            copy.wf(),
            copy@ == self@,
    {
        let mut copy = CandidateSet::new();
        copy.add_missing(self);
        assert(copy@ =~= self@);
        copy
    }
}

/// Whether candidate `a` is applied before candidate `b`: in timestamp order,
/// where ties go by rank and then by content id.
pub open spec fn older_first(a: CandidateView, b: CandidateView) -> bool {
    recovered_before(a.key, b.key) || (a.key == b.key && bytes_before(a.content_id, b.content_id))
}

/// Whether candidate `a` ranks below candidate `b`, where ties go by content id.
pub open spec fn ranks_below(a: CandidateView, b: CandidateView) -> bool {
    key_before(a.key, b.key) || (a.key == b.key && bytes_before(a.content_id, b.content_id))
}

/// Report whether candidate `a` is applied before candidate `b`.
fn candidate_older(a: &RecoveryCandidate, b: &RecoveryCandidate) -> (older: bool)
    ensures
        older == older_first(a@, b@),
{
    if recovered_less(a.key, b.key) {
        return true;
    }
    a.key == b.key && bytes_less(a.content_id.as_slice(), b.content_id.as_slice())
}

/// Report whether candidate `a` ranks below candidate `b`.
fn candidate_ranks_below(a: &RecoveryCandidate, b: &RecoveryCandidate) -> (below: bool)
    ensures
        below == ranks_below(a@, b@),
{
    if key_less(a.key, b.key) {
        return true;
    }
    a.key == b.key && bytes_less(a.content_id.as_slice(), b.content_id.as_slice())
}

/// Content ids are strictly and totally ordered.
proof fn lemma_id_order(a: Seq<u8>, b: Seq<u8>, c: Seq<u8>)
    ensures
        !bytes_before(a, a),
        bytes_before(a, b) ==> !bytes_before(b, a),
        bytes_before(a, b) && bytes_before(b, c) ==> bytes_before(a, c),
        bytes_before(a, c) ==> bytes_before(a, b) || bytes_before(b, c),
        a != b ==> bytes_before(a, b) || bytes_before(b, a),
{
    lemma_bytes_before_irreflexive(a);
    if bytes_before(a, b) {
        lemma_bytes_before_asymmetric(a, b);
        if bytes_before(b, c) {
            lemma_bytes_before_transitive(a, b, c);
        }
    }
    lemma_bytes_before_total(a, b);
    if bytes_before(b, a) && bytes_before(a, c) {
        lemma_bytes_before_transitive(b, a, c);
    }
}

/// The order of application is a strict order, total on candidates with different ids.
proof fn lemma_older_first(a: CandidateView, b: CandidateView, c: CandidateView)
    ensures
        !older_first(a, a),
        older_first(a, b) ==> !older_first(b, a),
        older_first(a, b) && older_first(b, c) ==> older_first(a, c),
        older_first(a, c) ==> older_first(a, b) || older_first(b, c),
        a.content_id != b.content_id ==> older_first(a, b) || older_first(b, a),
{
    lemma_id_order(a.content_id, b.content_id, c.content_id);
}

/// The ranking is a strict order, total on candidates with different ids.
proof fn lemma_ranks_below(a: CandidateView, b: CandidateView, c: CandidateView)
    ensures
        !ranks_below(a, a),
        ranks_below(a, b) ==> !ranks_below(b, a),
        ranks_below(a, b) && ranks_below(b, c) ==> ranks_below(a, c),
        a.content_id != b.content_id ==> ranks_below(a, b) || ranks_below(b, a),
{
    lemma_id_order(a.content_id, b.content_id, c.content_id);
}

/// Whether `candidate` is the newest of `candidates`: all others rank below it.
pub open spec fn is_newest(candidates: Candidates, candidate: CandidateView) -> bool {
    &&& candidates.dom().contains(candidate.content_id)
    &&& candidates[candidate.content_id] == candidate
    &&& forall|id: Seq<u8>| #[trigger]
        candidates.dom().contains(id) && id != candidate.content_id ==> ranks_below(
            candidates[id],
            candidate,
        )
}

/// The contents of a list of candidates.
pub open spec fn candidate_views(list: Seq<RecoveryCandidate>) -> Seq<CandidateView> {
    list.map_values(|c: RecoveryCandidate| c@)
}

/// Whether `list` holds every one of `candidates`, in timestamp order.
pub open spec fn lists_oldest_first(list: Seq<CandidateView>, candidates: Candidates) -> bool {
    &&& forall|a: int|
        0 <= a < list.len() ==> candidates.dom().contains((#[trigger] list[a]).content_id)
            && candidates[list[a].content_id] == list[a]
    &&& forall|a: int, b: int|
        0 <= a < b < list.len() ==> older_first(#[trigger] list[a], #[trigger] list[b])
    &&& forall|id: Seq<u8>| #[trigger]
        candidates.dom().contains(id) ==> exists|a: int|
            0 <= a < list.len() && (#[trigger] list[a]).content_id == id
}

/// Whether the active revision is `id` and its blob is missing, as looking for
/// the blob told.
pub open spec fn needs_restore(
    id: Seq<u8>,
    current: Option<CurrentContent>,
    blob: Result<(), StorageError>,
) -> bool {
    &&& current matches Some(content)
    &&& content.content_id@ == id
    &&& blob matches Err(error)
    &&& error is FileNotFound
}

/// The failure of looking for the blob of the active revision `id`.
pub open spec fn restore_failure(
    id: Seq<u8>,
    current: Option<CurrentContent>,
    blob: Result<(), StorageError>,
) -> Option<StatusView> {
    match current {
        None => None,
        Some(content) => if content.content_id@ != id {
            None
        } else {
            match blob {
                Ok(()) => None,
                Err(StorageError::FileNotFound) => None,
                Err(error) => Some(storage_status(error)),
            }
        },
    }
}

/// Report whether the active local revision matches one peer-advertised
/// content id but its encrypted blob is currently missing.
pub fn current_content_needs_restore_from_peer(
    content_id: &[u8],
    current: &Option<CurrentContent>,
    current_blob: &Result<(), StorageError>,
) -> (outcome: Result<bool, Status>)
    ensures
        match restore_failure(content_id@, *current, *current_blob) {
            Some(failure) => fails_with(outcome, failure),
            None => outcome matches Ok(missing) && missing == needs_restore(
                content_id@,
                *current,
                *current_blob,
            ),
        },
{
    match current {
        None => Ok(false),
        Some(content) => {
            if !bytes_eq(content.content_id.as_slice(), content_id) {
                return Ok(false);
            }
            match current_blob {
                Ok(()) => Ok(false),
                Err(StorageError::FileNotFound) => Ok(true),
                Err(error) => Err(map_storage_error(error.clone())),
            }
        },
    }
}

/// RecoveryScan collects what peers report about our revisions.
#[derive(Debug)]
pub struct RecoveryScan {
    known: CandidateSet,
    older_lineage: CandidateSet,
    recoverable: CandidateSet,
    current_restore: CandidateSet,
    peers_with_any_versions: i64,
}

/// ScanView is the mathematical content of a `RecoveryScan`.
pub struct ScanView {
    /// known holds every revision that some peer reported.
    pub known: Candidates,
    /// older_lineage holds those that are still to be recovered.
    pub older_lineage: Candidates,
    /// recoverable holds those of them that some peer can return.
    pub recoverable: Candidates,
    /// current_restore holds the active revision where its blob is missing and some peer can return it.
    pub current_restore: Candidates,
    /// peers_with_any_versions counts the peers that reported anything.
    pub peers_with_any_versions: int,
}

impl View for RecoveryScan {
    type V = ScanView;

    closed spec fn view(&self) -> ScanView {
        ScanView {
            known: self.known@,
            older_lineage: self.older_lineage@,
            recoverable: self.recoverable@,
            current_restore: self.current_restore@,
            peers_with_any_versions: self.peers_with_any_versions as int,
        }
    }
}

/// `candidates` after `peer` reported `revision`, where it counts and its
/// identifier encodes a key.
pub open spec fn noted_if(
    candidates: Candidates,
    counts: bool,
    revision: ParsedRevision,
    peer: Seq<char>,
) -> Candidates {
    match revision.key {
        Ok(key) => if counts {
            noted(
                candidates,
                revision.content@.content_id,
                revision.content.content_length,
                key,
                peer,
            )
        } else {
            candidates
        },
        Err(_) => candidates,
    }
}

/// Whether a revision is still to be recovered, as its identifier tells.
pub open spec fn parsed_in_window(revision: ParsedRevision, window: Option<LineageWindow>) -> bool {
    revision.key matches Ok(key) && in_window(key, window)
}

/// The scan after `peer` reported that it knows of `revision`.
pub open spec fn after_report(
    scan: ScanView,
    peer: Seq<char>,
    revision: ParsedRevision,
    window: Option<LineageWindow>,
) -> ScanView {
    ScanView {
        known: noted_if(scan.known, true, revision, peer),
        older_lineage: noted_if(
            scan.older_lineage,
            parsed_in_window(revision, window),
            revision,
            peer,
        ),
        ..scan
    }
}

/// Whether the revision that the peer can return is another one than the one
/// that it knows of.
pub open spec fn stored_differs(revision: PeerRevision) -> bool {
    &&& revision.latest_stored is Some
    &&& revision.latest_known matches Some(known) ==> known.content@.content_id
        != revision.latest_stored->0.content@.content_id
}

/// Whether the peer reported any revision whose identifier encodes a key.
pub open spec fn reports_any(revision: PeerRevision) -> bool {
    ||| revision.latest_known matches Some(known) && known.key is Ok
    ||| stored_differs(revision) && revision.latest_stored->0.key is Ok
}

/// Why a peer's report ends the whole pass, if it does: the revision that it
/// says it can return cannot be looked up or has a malformed identifier.
pub open spec fn scan_failure(
    revision: PeerRevision,
    current: Option<CurrentContent>,
    blob: Result<(), StorageError>,
) -> Option<StatusView> {
    match revision.latest_stored {
        None => None,
        Some(stored) => match restore_failure(stored.content@.content_id, current, blob) {
            Some(failure) => Some(failure),
            None => match stored.key {
                Ok(_) => None,
                Err(error) => Some(storage_status(error)),
            },
        },
    }
}

/// The scan after a peer's report on what it knows of and what it can return.
pub open spec fn after_known(
    scan: ScanView,
    peer: Seq<char>,
    revision: PeerRevision,
    window: Option<LineageWindow>,
) -> ScanView {
    let first = match revision.latest_known {
        Some(known) => after_report(scan, peer, known, window),
        None => scan,
    };
    if stored_differs(revision) {
        after_report(first, peer, revision.latest_stored->0, window)
    } else {
        first
    }
}

/// The scan after a peer's whole report.
pub open spec fn after_peer(
    scan: ScanView,
    peer: Seq<char>,
    revision: PeerRevision,
    window: Option<LineageWindow>,
    current: Option<CurrentContent>,
    blob: Result<(), StorageError>,
) -> ScanView {
    let next = after_known(scan, peer, revision, window);
    let stored = revision.latest_stored;
    ScanView {
        recoverable: match stored {
            Some(parsed) => noted_if(
                next.recoverable,
                parsed_in_window(parsed, window),
                parsed,
                peer,
            ),
            None => next.recoverable,
        },
        current_restore: match stored {
            Some(parsed) => noted_if(
                next.current_restore,
                needs_restore(parsed.content@.content_id, current, blob),
                parsed,
                peer,
            ),
            None => next.current_restore,
        },
        peers_with_any_versions: if reports_any(revision) {
            clamp_i64(scan.peers_with_any_versions + 1)
        } else {
            scan.peers_with_any_versions
        },
        ..next
    }
}

/// The scan before any peer has reported.
pub open spec fn empty_scan() -> ScanView {
    ScanView {
        known: Candidates::empty(),
        older_lineage: Candidates::empty(),
        recoverable: Candidates::empty(),
        current_restore: Candidates::empty(),
        peers_with_any_versions: 0,
    }
}

impl RecoveryScan {
    /// Every candidate set is well formed.
    pub closed spec fn wf(&self) -> bool {
        self.known.wf() && self.older_lineage.wf() && self.recoverable.wf()
            && self.current_restore.wf()
    }

    /// Begin a scan.
    pub fn new() -> (scan: Self)
        ensures
            scan.wf(),
            scan@ == empty_scan(),
    {
        RecoveryScan {
            known: CandidateSet::new(),
            older_lineage: CandidateSet::new(),
            recoverable: CandidateSet::new(),
            current_restore: CandidateSet::new(),
            peers_with_any_versions: 0,
        }
    }

    /// Take note of one revision that a peer reported, and tell whether its
    /// identifier encodes a key.
    fn note_report(
        &mut self,
        peer_onion: &str,
        revision: &ParsedRevision,
        window: &Option<LineageWindow>,
    ) -> (valid: bool)
        requires
            old(self).wf(),
        ensures
            final(self).wf(),
            final(self)@ == after_report(old(self)@, peer_onion@, *revision, *window),
            valid == (revision.key is Ok),
    {
        match &revision.key {
            Err(_) => false,
            Ok(key) => {
                self.known.note(&revision.content, *key, peer_onion);
                if key_in_window(*key, window) {
                    self.older_lineage.note(&revision.content, *key, peer_onion);
                }
                true
            },
        }
    }

    /// Take note of what one peer reports about our revisions.
    ///
    /// `current` is the active local revision, and `current_blob` what looking
    /// for its blob gave. A failure ends the whole pass.
    pub fn observe_peer(
        &mut self,
        peer_onion: &str,
        revision: &PeerRevision,
        window: &Option<LineageWindow>,
        current: &Option<CurrentContent>,
        current_blob: &Result<(), StorageError>,
    ) -> (outcome: Result<(), Status>)
        requires
            old(self).wf(),
        ensures
            final(self).wf(),
            match scan_failure(*revision, *current, *current_blob) {
                Some(failure) => fails_with(outcome, failure),
                None => outcome is Ok && final(self)@ == after_peer(
                    old(self)@,
                    peer_onion@,
                    *revision,
                    *window,
                    *current,
                    *current_blob,
                ),
            },
    {
        let mut had_versions = false;
        if let Some(known) = &revision.latest_known {
            had_versions = self.note_report(peer_onion, known, window);
        }
        if let Some(stored) = &revision.latest_stored {
            let differs = match &revision.latest_known {
                Some(known) => !bytes_eq(
                    known.content.content_id.as_slice(),
                    stored.content.content_id.as_slice(),
                ),
                None => true,
            };
            if differs {
                let valid = self.note_report(peer_onion, stored, window);
                had_versions = had_versions || valid;
            }
            let restores = match current_content_needs_restore_from_peer(
                stored.content.content_id.as_slice(),
                current,
                current_blob,
            ) {
                Ok(restores) => restores,
                Err(status) => return Err(status),
            };
            let key = match &stored.key {
                Ok(key) => *key,
                Err(error) => return Err(map_storage_error(error.clone())),
            };
            if key_in_window(key, window) {
                self.recoverable.note(&stored.content, key, peer_onion);
            }
            if restores {
                self.current_restore.note(&stored.content, key, peer_onion);
            }
        }
        if had_versions {
            self.peers_with_any_versions = saturating_add_i64(self.peers_with_any_versions, 1);
        }
        Ok(())
    }

    /// List what is to be applied, in timestamp order: all that is recoverable, and the active revision where it is to be restored.
    pub fn candidates_to_apply(&self) -> (list: Vec<RecoveryCandidate>)
        requires
            self.wf(),
        ensures
            lists_oldest_first(candidate_views(list@), applicable(self@)),
    {
        let mut all = self.recoverable.copy();
        all.add_missing(&self.current_restore);
        all.oldest_first()
    }

    /// Begin to account for what is applied.
    pub fn accumulator(&self) -> (summary: RecoveryPassAccumulator)
        requires
            self.wf(),
        ensures
            starts_from(summary, self@),
    {
        RecoveryPassAccumulator {
            total_versions_found: self.known.count(),
            peers_with_any_versions: self.peers_with_any_versions,
            older_lineage_versions_found: self.older_lineage.count(),
            older_lineage_recoverable_versions_found: self.recoverable.count(),
            applied_versions: 0,
            downloaded_bytes: 0,
            added_files: 0,
            renamed_files: 0,
            unchanged_files: 0,
            newest_found: self.known.newest(),
            latest_applied: None,
        }
    }
}

/// Report whether a revision with `key` is still to be recovered.
fn key_in_window(key: RevisionKey, window: &Option<LineageWindow>) -> (found: bool)
    ensures
        found == in_window(key, *window),
{
    match window {
        None => false,
        Some(bounds) => crate::lineage::timestamp_requires_recovery(
            key_timestamp(key),
            bounds.node_initialized_at,
            bounds.recovery_watermark,
        ),
    }
}

/// The candidates to apply: those recoverable, and the active revision where
/// it is to be restored.
pub open spec fn applicable(scan: ScanView) -> Candidates {
    scan.current_restore.union_prefer_right(scan.recoverable)
}

/// RecoveryPassAccumulator accumulates one automatic recovery pass before the
/// final operator-facing summary is rendered.
#[derive(Debug)]
pub struct RecoveryPassAccumulator {
    /// total_versions_found is the number of unique requester revisions peers reported.
    pub total_versions_found: i64,
    /// peers_with_any_versions is the number of peers that reported any requester revision.
    pub peers_with_any_versions: i64,
    /// older_lineage_versions_found is the number of unique older-lineage revisions in scope.
    pub older_lineage_versions_found: i64,
    /// older_lineage_recoverable_versions_found is the number of unique older-lineage revisions
    /// that at least one peer could actually serve.
    pub older_lineage_recoverable_versions_found: i64,
    /// applied_versions is the number of recovered revisions merged locally.
    pub applied_versions: i64,
    /// downloaded_bytes is the total encrypted bytes fetched during recovery.
    pub downloaded_bytes: i64,
    /// added_files is the number of recovered files added under their original names.
    pub added_files: i64,
    /// renamed_files is the number of recovered files added under recovered names.
    pub renamed_files: i64,
    /// unchanged_files is the number of recovered files skipped as identical.
    pub unchanged_files: i64,
    /// newest_found is the newest requester revision observed from any peer.
    pub newest_found: Option<RecoveryCandidate>,
    /// latest_applied is the newest older-lineage revision that was merged locally.
    pub latest_applied: Option<RecoveryCandidate>,
}

/// Whether `summary` counts what `scan` found, with nothing applied yet.
pub open spec fn starts_from(summary: RecoveryPassAccumulator, scan: ScanView) -> bool {
    &&& summary.total_versions_found == clamp_i64(scan.known.dom().len() as int)
    &&& summary.peers_with_any_versions == scan.peers_with_any_versions
    &&& summary.older_lineage_versions_found == clamp_i64(scan.older_lineage.dom().len() as int)
    &&& summary.older_lineage_recoverable_versions_found == clamp_i64(
        scan.recoverable.dom().len() as int,
    )
    &&& summary.applied_versions == 0
    &&& summary.downloaded_bytes == 0
    &&& summary.added_files == 0
    &&& summary.renamed_files == 0
    &&& summary.unchanged_files == 0
    &&& match summary.newest_found {
        None => scan.known.dom() =~= Set::<Seq<u8>>::empty(),
        Some(candidate) => is_newest(scan.known, candidate@),
    }
    &&& summary.latest_applied is None
}

/// RecoveryMergeOutcome counts what merging one revision did.
#[derive(Clone, Copy, Debug, PartialEq, Eq, Structural)]
pub struct RecoveryMergeOutcome {
    /// added_files counts files added under their original names.
    pub added_files: i64,
    /// renamed_files counts files added under recovered names.
    pub renamed_files: i64,
    /// unchanged_files counts files skipped as identical.
    pub unchanged_files: i64,
}

/// The content of an optional candidate.
pub open spec fn candidate_view(candidate: Option<RecoveryCandidate>) -> Option<CandidateView> {
    match candidate {
        Some(found) => Some(found@),
        None => None,
    }
}

/// Whether `after` is `before` with one more revision applied.
pub open spec fn counts_applied(
    before: RecoveryPassAccumulator,
    after: RecoveryPassAccumulator,
    candidate: CandidateView,
    merged: RecoveryMergeOutcome,
    downloaded: int,
) -> bool {
    &&& after.applied_versions == clamp_i64(before.applied_versions + 1)
    &&& after.downloaded_bytes == clamp_i64(before.downloaded_bytes + downloaded)
    &&& after.added_files == clamp_i64(before.added_files + merged.added_files)
    &&& after.renamed_files == clamp_i64(before.renamed_files + merged.renamed_files)
    &&& after.unchanged_files == clamp_i64(before.unchanged_files + merged.unchanged_files)
    &&& candidate_view(after.latest_applied) == Some(candidate)
    &&& after.total_versions_found == before.total_versions_found
    &&& after.peers_with_any_versions == before.peers_with_any_versions
    &&& after.older_lineage_versions_found == before.older_lineage_versions_found
    &&& after.older_lineage_recoverable_versions_found
        == before.older_lineage_recoverable_versions_found
    &&& after.newest_found == before.newest_found
}

/// RecoveryPassSummary reports one automatic recovery pass and its result.
#[derive(Debug)]
pub struct RecoveryPassSummary {
    /// total_versions_found is the number of unique requester revisions peers reported.
    pub total_versions_found: i64,
    /// peers_with_any_versions is the number of peers that reported any requester revision.
    pub peers_with_any_versions: i64,
    /// older_lineage_versions_found is the number of unique older-lineage revisions in scope.
    pub older_lineage_versions_found: i64,
    /// older_lineage_recoverable_versions_found is the number of unique older-lineage revisions
    /// that at least one peer could actually serve.
    pub older_lineage_recoverable_versions_found: i64,
    /// applied_versions is the number of recovered revisions merged locally.
    pub applied_versions: i64,
    /// downloaded_bytes is the total encrypted bytes fetched during recovery.
    pub downloaded_bytes: i64,
    /// added_files is the number of recovered files added under their original names.
    pub added_files: i64,
    /// renamed_files is the number of recovered files added under recovered names.
    pub renamed_files: i64,
    /// unchanged_files is the number of recovered files skipped as identical.
    pub unchanged_files: i64,
    /// newest_found_content_id is the newest requester revision observed from any peer.
    pub newest_found_content_id: Vec<u8>,
    /// newest_found_ts is newest_found_content_id's authenticated timestamp in Unix seconds.
    pub newest_found_ts: i64,
    /// newest_found_ts_ns is newest_found_content_id's authenticated sub-second nanoseconds.
    pub newest_found_ts_ns: i64,
    /// latest_applied_content_id is the newest older-lineage revision merged locally.
    pub latest_applied_content_id: Vec<u8>,
    /// latest_applied_ts is latest_applied_content_id's authenticated timestamp in Unix seconds.
    pub latest_applied_ts: i64,
    /// latest_applied_ts_ns is latest_applied_content_id's authenticated sub-second nanoseconds.
    pub latest_applied_ts_ns: i64,
    /// publication_blocked_reason explains why recovered local state still cannot publish.
    pub publication_blocked_reason: String,
}

/// The content id and time of an optional candidate; empty and zero for none.
pub open spec fn candidate_summary(candidate: Option<CandidateView>) -> (Seq<u8>, (i64, i64)) {
    match candidate {
        Some(found) => (found.content_id, key_time(found.key)),
        None => (Seq::<u8>::empty(), (0, 0)),
    }
}

/// Whether `summary` reports `pass` and why publication is still blocked.
pub open spec fn reports_pass(
    summary: RecoveryPassSummary,
    pass: RecoveryPassAccumulator,
    blocked: Option<Seq<char>>,
) -> bool {
    &&& summary.total_versions_found == pass.total_versions_found
    &&& summary.peers_with_any_versions == pass.peers_with_any_versions
    &&& summary.older_lineage_versions_found == pass.older_lineage_versions_found
    &&& summary.older_lineage_recoverable_versions_found
        == pass.older_lineage_recoverable_versions_found
    &&& summary.applied_versions == pass.applied_versions
    &&& summary.downloaded_bytes == pass.downloaded_bytes
    &&& summary.added_files == pass.added_files
    &&& summary.renamed_files == pass.renamed_files
    &&& summary.unchanged_files == pass.unchanged_files
    &&& (
        summary.newest_found_content_id@,
        (summary.newest_found_ts, summary.newest_found_ts_ns),
    ) == candidate_summary(candidate_view(pass.newest_found))
    &&& (
        summary.latest_applied_content_id@,
        (summary.latest_applied_ts, summary.latest_applied_ts_ns),
    ) == candidate_summary(candidate_view(pass.latest_applied))
    &&& summary.publication_blocked_reason@ == match blocked {
        Some(reason) => reason,
        None => Seq::<char>::empty(),
    }
}

/// Return the content id and time of an optional candidate.
fn summarise_candidate(candidate: &Option<RecoveryCandidate>) -> (summary: (Vec<u8>, (i64, i64)))
    ensures
        (summary.0@, summary.1) == candidate_summary(candidate_view(*candidate)),
{
    match candidate {
        Some(found) => (bytes_copy(found.content_id.as_slice()), key_timestamp(found.key)),
        None => {
            let empty: Vec<u8> = Vec::new();
            assert(empty@ =~= Seq::<u8>::empty());
            (empty, (0, 0))
        },
    }
}

impl RecoveryPassAccumulator {
    /// Account for one revision that was restored or merged.
    pub fn note_applied(
        &mut self,
        candidate: &RecoveryCandidate,
        merged: RecoveryMergeOutcome,
        downloaded_bytes: i64,
    )
        ensures
            counts_applied(*old(self), *final(self), candidate@, merged, downloaded_bytes as int),
    {
        self.applied_versions = saturating_add_i64(self.applied_versions, 1);
        self.downloaded_bytes = saturating_add_i64(self.downloaded_bytes, downloaded_bytes);
        self.added_files = saturating_add_i64(self.added_files, merged.added_files);
        self.renamed_files = saturating_add_i64(self.renamed_files, merged.renamed_files);
        self.unchanged_files = saturating_add_i64(self.unchanged_files, merged.unchanged_files);
        self.latest_applied = Some(candidate.clone());
    }

    /// Render the operator-facing summary of the pass.
    pub fn summary(&self, publication_blocked_reason: Option<String>) -> (summary:
        RecoveryPassSummary)
        ensures
            reports_pass(
                summary,
                *self,
                match publication_blocked_reason {
                    Some(reason) => Some(reason@),
                    None => None,
                },
            ),
    {
        let newest = summarise_candidate(&self.newest_found);
        let latest = summarise_candidate(&self.latest_applied);
        let reason = match publication_blocked_reason {
            Some(reason) => reason,
            None => String::new(),
        };
        RecoveryPassSummary {
            total_versions_found: self.total_versions_found,
            peers_with_any_versions: self.peers_with_any_versions,
            older_lineage_versions_found: self.older_lineage_versions_found,
            older_lineage_recoverable_versions_found: self.older_lineage_recoverable_versions_found,
            applied_versions: self.applied_versions,
            downloaded_bytes: self.downloaded_bytes,
            added_files: self.added_files,
            renamed_files: self.renamed_files,
            unchanged_files: self.unchanged_files,
            newest_found_content_id: newest.0,
            newest_found_ts: newest.1.0,
            newest_found_ts_ns: newest.1.1,
            latest_applied_content_id: latest.0,
            latest_applied_ts: latest.1.0,
            latest_applied_ts_ns: latest.1.1,
            publication_blocked_reason: reason,
        }
    }
}

/// RecoveryApplication tells how one candidate is applied.
#[derive(Clone, Copy, Debug, PartialEq, Eq, Structural)]
pub enum RecoveryApplication {
    /// MergeLocal merges the files of the active blob, which is there.
    MergeLocal,
    /// RestoreCurrent fetches the missing blob of the active revision.
    RestoreCurrent,
    /// MergeDownloaded fetches an older revision and merges its files.
    MergeDownloaded,
}

/// Decide how one recovery candidate is applied: by restoring the missing
/// active blob or by merging one older-lineage revision into the active files.
pub fn apply_recovery_candidate(
    candidate: &RecoveryCandidate,
    current: &Option<CurrentContent>,
    current_blob: &Result<(), StorageError>,
) -> (outcome: Result<RecoveryApplication, Status>)
    ensures
        match restore_failure(candidate@.content_id, *current, *current_blob) {
            Some(failure) => fails_with(outcome, failure),
            None => outcome matches Ok(application) && application == if !(*current matches Some(
                content,
            ) && content.content_id@ == candidate@.content_id) {
                RecoveryApplication::MergeDownloaded
            } else if needs_restore(candidate@.content_id, *current, *current_blob) {
                RecoveryApplication::RestoreCurrent
            } else {
                RecoveryApplication::MergeLocal
            },
        },
{
    let is_current = match current {
        Some(content) => bytes_eq(
            content.content_id.as_slice(),
            candidate.content_id.as_slice(),
        ),
        None => false,
    };
    if !is_current {
        return Ok(RecoveryApplication::MergeDownloaded);
    }
    match current_content_needs_restore_from_peer(
        candidate.content_id.as_slice(),
        current,
        current_blob,
    ) {
        Err(status) => Err(status),
        Ok(true) => Ok(RecoveryApplication::RestoreCurrent),
        Ok(false) => Ok(RecoveryApplication::MergeLocal),
    }
}

/// RecoveredRevision is the record of one merged older revision.
#[derive(Debug, PartialEq, Eq)]
pub struct RecoveredRevision {
    /// content_id identifies the revision.
    pub content_id: Vec<u8>,
    /// created_at is when the revision was made.
    pub created_at: Option<ProtoTimestamp>,
}

/// Build the record of a merged candidate.
pub fn recovered_revision(candidate: &RecoveryCandidate) -> (outcome: Result<
    RecoveredRevision,
    Status,
>)
    ensures
        if candidate.key.created_at_nanos < NANOS_PER_SECOND {
            outcome matches Ok(record) && record.content_id@ == candidate@.content_id
                && record.created_at == Some(
                ProtoTimestamp {
                    seconds: key_time(candidate.key).0,
                    nanos: candidate.key.created_at_nanos as i32,
                },
            )
        } else {
            fails_with(
                outcome,
                invalid_argument("timestamp nanoseconds must be below one second"@),
            )
        },
{
    let timestamp = key_timestamp(candidate.key);
    match proto_timestamp_from_parts(timestamp.0, timestamp.1) {
        Err(status) => Err(status),
        Ok(created_at) => Ok(
            RecoveredRevision {
                content_id: bytes_copy(candidate.content_id.as_slice()),
                created_at: Some(created_at),
            },
        ),
    }
}

/// RecoveryDownload tries the peers of one candidate in turn.
#[derive(Debug)]
pub struct RecoveryDownload {
    peers: Vec<String>,
    next: usize,
    last_error: Option<Status>,
}

/// RecoveryDownloadStep is what to do next for a recovery download.
#[derive(Debug)]
pub enum RecoveryDownloadStep {
    /// TryPeer asks the named peer for the blob.
    TryPeer(String),
    /// GiveUp ends the download with a failure.
    GiveUp(Status),
}

impl RecoveryDownload {
    /// The peers that have not been tried yet.
    pub closed spec fn untried(&self) -> Seq<Seq<char>> {
        texts(self.peers@).skip(self.next as int)
    }

    /// The failure of the peer that was tried last.
    pub closed spec fn last_failure(&self) -> Option<StatusView> {
        match self.last_error {
            Some(status) => Some(status@),
            None => None,
        }
    }

    /// Only listed peers are tried.
    pub closed spec fn wf(&self) -> bool {
        self.next <= self.peers@.len()
    }

    /// Begin to download a candidate from any peer that still serves it.
    pub fn download_recovery_candidate_blob(candidate: &RecoveryCandidate) -> (download: Self)
        ensures
            download.wf(),
            download.untried() == candidate@.peers,
            download.last_failure() is None,
    {
        let download = RecoveryDownload {
            peers: copy_texts(&candidate.peers),
            next: 0,
            last_error: None,
        };
        assert(download.untried() =~= candidate@.peers);
        download
    }

    /// Tell what to do next.
    pub fn step(&self) -> (step: RecoveryDownloadStep)
        requires
            self.wf(),
        ensures
            if self.untried().len() > 0 {
                step matches RecoveryDownloadStep::TryPeer(peer) && peer@ == self.untried()[0]
            } else {
                step matches RecoveryDownloadStep::GiveUp(status) && status@
                    == match self.last_failure() {
                    Some(failure) => failure,
                    None => plain_status(
                        Code::NotFound,
                        "no peer could serve the requested recovery revision"@,
                    ),
                }
            },
    {
        if self.next < self.peers.len() {
            return RecoveryDownloadStep::TryPeer(self.peers[self.next].clone());
        }
        RecoveryDownloadStep::GiveUp(
            match &self.last_error {
                Some(status) => status.clone(),
                None => Status::with_text(
                    Code::NotFound,
                    "no peer could serve the requested recovery revision",
                ),
            },
        )
    }

    /// Take note that the peer tried last failed.
    pub fn fail(&mut self, error: Status)
        requires
            old(self).wf(),
            old(self).untried().len() > 0,
        ensures
            final(self).wf(),
            final(self).untried() == old(self).untried().drop_first(),
            final(self).last_failure() == Some(error@),
    {
        assert(self.next < self.peers.len());
        self.next = self.next + 1;
        self.last_error = Some(error);
        assert(self.untried() =~= old(self).untried().drop_first());
    }
}

/// Whether everything recoverable is older lineage, and all that, and what is
/// to be restored, is known.
pub open spec fn nested(scan: ScanView) -> bool {
    &&& forall|id: Seq<u8>| #[trigger]
        scan.recoverable.dom().contains(id) ==> scan.older_lineage.dom().contains(id)
    &&& forall|id: Seq<u8>| #[trigger]
        scan.older_lineage.dom().contains(id) ==> scan.known.dom().contains(id)
    &&& forall|id: Seq<u8>| #[trigger]
        scan.current_restore.dom().contains(id) ==> scan.known.dom().contains(id)
}

/// Whether equal content identifiers encode equal keys.
pub open spec fn keys_consistent(revision: PeerRevision) -> bool {
    match (revision.latest_known, revision.latest_stored) {
        (Some(known), Some(stored)) => known.content@.content_id == stored.content@.content_id
            ==> known.key == stored.key,
        _ => true,
    }
}

/// A scan finds no more recoverable revisions than older-lineage ones, and no
/// more of those than revisions at all: every report keeps it so.
pub proof fn law_scan_sets_nest(
    scan: ScanView,
    peer: Seq<char>,
    revision: PeerRevision,
    window: Option<LineageWindow>,
    current: Option<CurrentContent>,
    blob: Result<(), StorageError>,
)
    requires
        nested(scan),
        keys_consistent(revision),
    ensures
        nested(empty_scan()),
        nested(after_peer(scan, peer, revision, window, current, blob)),
{
}

/// What is applied comes in timestamp order, no revision comes twice, and each
/// is either recoverable or the active revision.
pub proof fn law_applied_in_order(scan: ScanView, list: Seq<CandidateView>, a: int, b: int)
    requires
        lists_oldest_first(list, applicable(scan)),
        0 <= a < b < list.len(),
    ensures
        !made_before(list[b].key, list[a].key),
        list[b].key.created_at_secs <= i64::MAX ==> !time_before(
            key_time(list[b].key),
            key_time(list[a].key),
        ),
        list[a].content_id != list[b].content_id,
        scan.recoverable.dom().contains(list[a].content_id)
            || scan.current_restore.dom().contains(list[a].content_id),
{
    assert(older_first(list[a], list[b]));
    assert(applicable(scan).dom().contains(list[a].content_id));
    if list[a].content_id == list[b].content_id {
        assert(applicable(scan)[list[a].content_id] == list[a]);
        assert(applicable(scan)[list[b].content_id] == list[b]);
        lemma_older_first(list[a], list[a], list[a]);
    }
}

/// The revision that is applied last is the newest of all that are applied, so
/// a watermark at its time lies at or past every one of them.
pub proof fn law_last_applied_is_newest(scan: ScanView, list: Seq<CandidateView>, a: int)
    requires
        lists_oldest_first(list, applicable(scan)),
        0 <= a < list.len(),
    ensures
        !made_before(list.last().key, list[a].key),
        list.last().key.created_at_secs <= i64::MAX ==> !time_before(
            key_time(list.last().key),
            key_time(list[a].key),
        ),
{
    if a < list.len() - 1 {
        law_applied_in_order(scan, list, a, list.len() - 1);
    }
}

/// Scanning a peer again changes no candidate, as long as it reports the same.
pub proof fn law_repeated_report_adds_nothing(
    candidates: Candidates,
    id: Seq<u8>,
    length: i64,
    key: RevisionKey,
    peer: Seq<char>,
)
    ensures
        noted(noted(candidates, id, length, key, peer), id, length, key, peer) == noted(
            candidates,
            id,
            length,
            key,
            peer,
        ),
{
    let once = noted(candidates, id, length, key, peer);
    assert(once[id].peers.contains(peer)) by {
        if candidates.dom().contains(id) {
            if !candidates[id].peers.contains(peer) {
                let n = candidates[id].peers.len() as int;
                assert(candidates[id].peers.push(peer)[n] == peer);
            }
        } else {
            assert(seq![peer][0] == peer);
        }
    }
    assert(noted(once, id, length, key, peer) =~= once);
}

/// A candidate that is not the active revision is downloaded and merged. The
/// active one is fetched and restored if its blob is missing, merged from the
/// blob if that is there, and fails otherwise.
pub proof fn law_missing_active_blob_is_restored(
    candidate: &RecoveryCandidate,
    current: &Option<CurrentContent>,
    blob: &Result<(), StorageError>,
    outcome: Result<RecoveryApplication, Status>,
)
    requires
        call_ensures(apply_recovery_candidate, (candidate, current, blob), outcome),
    ensures
        ({
            let active = *current is Some && current->0.content_id@ == candidate.content_id@;
            &&& (outcome matches Ok(RecoveryApplication::MergeDownloaded)) <==> !active
            &&& (outcome matches Ok(RecoveryApplication::MergeLocal)) <==> active && *blob is Ok
            &&& (outcome matches Ok(RecoveryApplication::RestoreCurrent)) <==> active && (
            *blob matches Err(StorageError::FileNotFound))
            &&& outcome is Err <==> active && *blob is Err && !(*blob matches Err(
                StorageError::FileNotFound,
            ))
        }),
{
}

/// The active revision needs to be restored exactly when it is the one in
/// question and its blob does not exist.
pub proof fn law_restore_needs_a_missing_active_blob(
    content_id: &[u8],
    current: &Option<CurrentContent>,
    blob: &Result<(), StorageError>,
    outcome: Result<bool, Status>,
)
    requires
        call_ensures(current_content_needs_restore_from_peer, (content_id, current, blob), outcome),
    ensures
        outcome matches Ok(needed) ==> (needed <==> *current is Some && current->0.content_id@
            == content_id@ && (*blob matches Err(StorageError::FileNotFound))),
        outcome is Err ==> *current is Some && current->0.content_id@ == content_id@,
{
}

/// The record of a merged revision names it and tells when it was made.
pub proof fn law_recovered_record_names_the_revision(
    candidate: &RecoveryCandidate,
    outcome: Result<RecoveredRevision, Status>,
)
    requires
        call_ensures(recovered_revision, (candidate,), outcome),
    ensures
        outcome is Ok <==> candidate.key.created_at_nanos < 1_000_000_000,
        outcome matches Ok(record) ==> record.content_id@ == candidate.content_id@ && (
        record.created_at matches Some(at) && at.nanos == candidate.key.created_at_nanos && (
        candidate.key.created_at_secs <= i64::MAX ==> at.seconds == candidate.key.created_at_secs)),
{
}

/// One more applied revision counts once, adds its bytes and files, and becomes
/// the latest one; what was found stays as it was.
pub proof fn law_applied_revision_is_added_up(
    before: RecoveryPassAccumulator,
    after: RecoveryPassAccumulator,
    candidate: RecoveryCandidate,
    merged: RecoveryMergeOutcome,
    downloaded: i64,
)
    requires
        counts_applied(before, after, candidate@, merged, downloaded as int),
        before.applied_versions < i64::MAX,
        i64::MIN <= before.downloaded_bytes + downloaded <= i64::MAX,
        i64::MIN <= before.added_files + merged.added_files <= i64::MAX,
        i64::MIN <= before.renamed_files + merged.renamed_files <= i64::MAX,
        i64::MIN <= before.unchanged_files + merged.unchanged_files <= i64::MAX,
    ensures
        after.applied_versions == before.applied_versions + 1,
        after.downloaded_bytes == before.downloaded_bytes + downloaded,
        after.added_files == before.added_files + merged.added_files,
        after.renamed_files == before.renamed_files + merged.renamed_files,
        after.unchanged_files == before.unchanged_files + merged.unchanged_files,
        after.latest_applied matches Some(latest) && latest.content_id@ == candidate.content_id@
            && latest.key == candidate.key,
        after.total_versions_found == before.total_versions_found,
        after.older_lineage_versions_found == before.older_lineage_versions_found,
        after.older_lineage_recoverable_versions_found
            == before.older_lineage_recoverable_versions_found,
        after.peers_with_any_versions == before.peers_with_any_versions,
{
}

/// The summary repeats the account of the pass, with the newest revision found
/// and the latest one applied by identifier and time.
pub proof fn law_pass_summary_repeats_the_account(
    pass: &RecoveryPassAccumulator,
    reason: Option<String>,
    summary: RecoveryPassSummary,
)
    requires
        call_ensures(RecoveryPassAccumulator::summary, (pass, reason), summary),
    ensures
        summary.total_versions_found == pass.total_versions_found,
        summary.peers_with_any_versions == pass.peers_with_any_versions,
        summary.older_lineage_versions_found == pass.older_lineage_versions_found,
        summary.older_lineage_recoverable_versions_found
            == pass.older_lineage_recoverable_versions_found,
        summary.applied_versions == pass.applied_versions,
        summary.downloaded_bytes == pass.downloaded_bytes,
        summary.added_files == pass.added_files,
        summary.renamed_files == pass.renamed_files,
        summary.unchanged_files == pass.unchanged_files,
        pass.newest_found matches Some(newest) ==> summary.newest_found_content_id@
            == newest.content_id@ && summary.newest_found_ts_ns == newest.key.created_at_nanos && (
        newest.key.created_at_secs <= i64::MAX ==> summary.newest_found_ts
            == newest.key.created_at_secs),
        pass.newest_found is None ==> summary.newest_found_content_id@.len() == 0
            && summary.newest_found_ts == 0 && summary.newest_found_ts_ns == 0,
        pass.latest_applied matches Some(latest) ==> summary.latest_applied_content_id@
            == latest.content_id@ && summary.latest_applied_ts_ns == latest.key.created_at_nanos && (
        latest.key.created_at_secs <= i64::MAX ==> summary.latest_applied_ts
            == latest.key.created_at_secs),
        pass.latest_applied is None ==> summary.latest_applied_content_id@.len() == 0
            && summary.latest_applied_ts == 0 && summary.latest_applied_ts_ns == 0,
        reason matches Some(text) ==> summary.publication_blocked_reason@ == text@,
        reason is None ==> summary.publication_blocked_reason@.len() == 0,
{
}

/// A pass starts with the numbers of distinct revisions that were found and
/// with nothing applied, and no revision found has a higher sequence than the
/// newest one, nor a later time with the same sequence.
pub proof fn law_pass_starts_from_what_was_found(
    account: RecoveryPassAccumulator,
    scan: ScanView,
    id: Seq<u8>,
)
    requires
        starts_from(account, scan),
        scan.known.dom().len() <= i64::MAX,
        scan.older_lineage.dom().len() <= i64::MAX,
        scan.recoverable.dom().len() <= i64::MAX,
    ensures
        account.total_versions_found == scan.known.dom().len(),
        account.older_lineage_versions_found == scan.older_lineage.dom().len(),
        account.older_lineage_recoverable_versions_found == scan.recoverable.dom().len(),
        account.peers_with_any_versions == scan.peers_with_any_versions,
        account.applied_versions == 0 && account.downloaded_bytes == 0 && account.added_files == 0
            && account.renamed_files == 0 && account.unchanged_files == 0
            && account.latest_applied is None,
        scan.known.dom().contains(id) ==> (account.newest_found matches Some(newest)
            && scan.known.dom().contains(newest.content_id@) && scan.known[id].key.sequence
            <= newest.key.sequence && (scan.known[id].key.sequence == newest.key.sequence
            ==> scan.known[id].key.created_at_secs <= newest.key.created_at_secs)),
{
    if scan.known.dom().contains(id) {
        if let Some(newest) = account.newest_found {
            if id != newest.content_id@ {
                assert(ranks_below(scan.known[id], newest@));
            }
        }
    }
}

/// Whether key `a` stands for a revision no newer in its lineage than `b`: by
/// sequence, then by time, then by metadata length.
pub open spec fn no_newer(a: RevisionKey, b: RevisionKey) -> bool {
    ||| a.sequence < b.sequence
    ||| a.sequence == b.sequence && a.created_at_secs < b.created_at_secs
    ||| a.sequence == b.sequence && a.created_at_secs == b.created_at_secs && a.created_at_nanos
        < b.created_at_nanos
    ||| a.sequence == b.sequence && a.created_at_secs == b.created_at_secs && a.created_at_nanos
        == b.created_at_nanos && a.metadata_ciphertext_len <= b.metadata_ciphertext_len
}

/// Whether key `a` stands for a revision made no later than `b`, where ties go
/// by sequence and metadata length.
pub open spec fn no_later(a: RevisionKey, b: RevisionKey) -> bool {
    ||| a.created_at_secs < b.created_at_secs
    ||| a.created_at_secs == b.created_at_secs && a.created_at_nanos < b.created_at_nanos
    ||| a.created_at_secs == b.created_at_secs && a.created_at_nanos == b.created_at_nanos
        && a.sequence < b.sequence
    ||| a.created_at_secs == b.created_at_secs && a.created_at_nanos == b.created_at_nanos
        && a.sequence == b.sequence && a.metadata_ciphertext_len <= b.metadata_ciphertext_len
}

/// The newest candidate is one of the set, as it is there, and none of the set
/// is newer; an empty set has none.
pub proof fn law_newest_candidate_is_the_newest(
    set: &CandidateSet,
    found: Option<RecoveryCandidate>,
    id: Seq<u8>,
)
    requires
        call_ensures(CandidateSet::newest, (set,), found),
    ensures
        found is None ==> !set@.dom().contains(id),
        found matches Some(candidate) ==> {
            &&& set@.dom().contains(candidate.content_id@)
            &&& set@[candidate.content_id@] == candidate@
            &&& set@.dom().contains(id) ==> no_newer(set@[id].key, candidate.key)
        },
{
    if found is None {
        assert(set@.dom() =~= Set::<Seq<u8>>::empty());
    }
}

/// All candidates of the set are listed, each once, and none after one that was
/// made later.
pub proof fn law_candidates_are_listed_by_time(
    set: &CandidateSet,
    list: Vec<RecoveryCandidate>,
    id: Seq<u8>,
    a: int,
    b: int,
)
    requires
        call_ensures(CandidateSet::oldest_first, (set,), list),
    ensures
        set@.dom().contains(id) <==> exists|k: int|
            0 <= k < list@.len() && (#[trigger] list@[k]).content_id@ == id,
        0 <= a < list@.len() ==> set@[list@[a].content_id@] == list@[a]@,
        0 <= a < b < list@.len() ==> no_later(list@[a].key, list@[b].key) && list@[a].content_id@
            != list@[b].content_id@,
{
    let views = candidate_views(list@);
    assert(views.len() == list@.len());
    if set@.dom().contains(id) {
        let k = choose|k: int| 0 <= k < views.len() && (#[trigger] views[k]).content_id == id;
        assert(list@[k].content_id@ == id);
    }
    if exists|k: int| 0 <= k < list@.len() && (#[trigger] list@[k]).content_id@ == id {
        let k = choose|k: int| 0 <= k < list@.len() && (#[trigger] list@[k]).content_id@ == id;
        assert(views[k] == list@[k]@);
    }
    if 0 <= a < list@.len() {
        assert(views[a] == list@[a]@);
    }
    if 0 <= a < b < list@.len() {
        assert(views[a] == list@[a]@ && views[b] == list@[b]@);
        assert(older_first(views[a], views[b]));
        lemma_older_first(views[a], views[b], views[a]);
    }
}

/// A report adds its revision if it is new, with the key and length that came
/// with it, and its peer once if that is new; the first key and length stay, and
/// so do all other candidates and all peers.
pub proof fn law_first_report_fixes_the_candidate(
    candidates: Candidates,
    id: Seq<u8>,
    length: i64,
    key: RevisionKey,
    peer: Seq<char>,
    other: Seq<u8>,
    another: Seq<char>,
)
    ensures
        ({
            let after = noted(candidates, id, length, key, peer);
            &&& after.dom() == candidates.dom().insert(id)
            &&& other != id && candidates.dom().contains(other) ==> after[other]
                == candidates[other]
            &&& after[id].peers.contains(peer)
            &&& candidates.dom().contains(id) ==> {
                &&& after[id].key == candidates[id].key
                &&& after[id].content_length == candidates[id].content_length
                &&& after[id].content_id == candidates[id].content_id
                &&& candidates[id].peers.is_prefix_of(after[id].peers)
                &&& candidates[id].peers.contains(peer) ==> after[id].peers == candidates[id].peers
                &&& !candidates[id].peers.contains(peer) ==> after[id].peers.len()
                    == candidates[id].peers.len() + 1
            }
            &&& !candidates.dom().contains(id) ==> after[id].key == key && after[id].content_length
                == length && after[id].content_id == id && after[id].peers.len() == 1
            &&& noted(after, id, length, key, peer) == after
        }),
{
    let after = noted(candidates, id, length, key, peer);
    assert(after.dom() =~= candidates.dom().insert(id));
    if candidates.dom().contains(id) {
        let peers = candidates[id].peers;
        if !peers.contains(peer) {
            assert(peers.push(peer)[peers.len() as int] == peer);
        }
    } else {
        assert(seq![peer][0] == peer);
    }
    assert(after[id].peers.contains(peer));
    assert(noted(after, id, length, key, peer) =~= after);
}

/// A report ends the whole pass exactly when the revision that the peer can
/// return has a malformed identifier, or is the active one and looking for its
/// blob failed in another way than by not finding it.
pub proof fn law_only_unreadable_reports_end_a_pass(
    revision: PeerRevision,
    current: Option<CurrentContent>,
    blob: Result<(), StorageError>,
)
    ensures
        scan_failure(revision, current, blob) is Some <==> (revision.latest_stored matches Some(
            stored,
        ) && (stored.key is Err || (current matches Some(content) && content.content_id@
            == stored.content.content_id@ && (blob matches Err(error) && !(error is FileNotFound))))),
{
}

/// The peers of a candidate are tried in order, each as long as none has
/// served it; when none is left the last failure is told, or that there was
/// nobody to ask.
pub proof fn law_recovery_download_tries_each_peer(
    candidate: &RecoveryCandidate,
    download: RecoveryDownload,
    later: &RecoveryDownload,
    step: RecoveryDownloadStep,
)
    requires
        call_ensures(RecoveryDownload::download_recovery_candidate_blob, (candidate,), download),
        call_ensures(RecoveryDownload::step, (later,), step),
    ensures
        download.untried() == candidate.peers@.map_values(|peer: String| peer@),
        download.last_failure() is None,
        step is TryPeer <==> later.untried().len() > 0,
        step matches RecoveryDownloadStep::TryPeer(peer) ==> peer@ == later.untried()[0],
        step matches RecoveryDownloadStep::GiveUp(status) ==> {
            &&& later.last_failure() matches Some(failure) ==> status@ == failure
            &&& later.last_failure() is None ==> status.code == Code::NotFound
        },
{
    assert(candidate.peers@.map_values(|peer: String| peer@) =~= texts(candidate.peers@));
}

/// Whether `after` describes the revision as `revision` does where `before` knew
/// nothing of it, and otherwise as `before` did.
pub open spec fn describes_as_reported(
    before: Candidates,
    after: Candidates,
    revision: ParsedRevision,
) -> bool {
    let id = revision.content.content_id@;
    after.dom().contains(id) ==> {
        &&& after[id].content_id == id || before.dom().contains(id)
        &&& !before.dom().contains(id) ==> after[id].content_length
            == revision.content.content_length && (revision.key matches Ok(key) && after[id].key
            == key)
        &&& before.dom().contains(id) ==> after[id].content_length == before[id].content_length
            && after[id].key == before[id].key && after[id].content_id == before[id].content_id
    }
}

/// A revision that was not heard of before is described as the peer that can
/// return it reported it, by length and key; one that was heard of before keeps
/// its description, and so does every revision that the report does not name.
pub proof fn law_reports_describe_new_revisions(
    scan: ScanView,
    peer: Seq<char>,
    revision: PeerRevision,
    window: Option<LineageWindow>,
    current: Option<CurrentContent>,
    blob: Result<(), StorageError>,
    other: Seq<u8>,
)
    ensures
        ({
            let after = after_peer(scan, peer, revision, window, current, blob);
            &&& revision.latest_stored matches Some(stored) ==> {
                &&& describes_as_reported(scan.recoverable, after.recoverable, stored)
                &&& describes_as_reported(scan.current_restore, after.current_restore, stored)
                &&& (revision.latest_known matches Some(known) ==> known.content.content_id@
                    != stored.content.content_id@) ==> describes_as_reported(
                    scan.known,
                    after.known,
                    stored,
                ) && describes_as_reported(scan.older_lineage, after.older_lineage, stored)
            }
            &&& revision.latest_known matches Some(known) ==> describes_as_reported(
                scan.known,
                after.known,
                known,
            ) && describes_as_reported(scan.older_lineage, after.older_lineage, known)
            &&& !(revision.latest_stored matches Some(stored) && stored.content.content_id@ == other)
                ==> {
                &&& after.recoverable.dom().contains(other) <==> scan.recoverable.dom().contains(
                    other,
                )
                &&& after.recoverable[other] == scan.recoverable[other]
                    || !scan.recoverable.dom().contains(other)
                &&& after.current_restore.dom().contains(other)
                    <==> scan.current_restore.dom().contains(other)
                &&& after.current_restore[other] == scan.current_restore[other]
                    || !scan.current_restore.dom().contains(other)
            }
        }),
{
}

} // verus!
