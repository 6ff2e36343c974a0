//! Ordered sets and maps keyed by text.
//!
//! Keys are kept in strictly ascending text order, so walking one of these
//! collections always gives the same order for the same keys.

use crate::text::{lemma_text_order, text_before, text_eq, text_less};
use vstd::prelude::*;

verus! {

/// The contents of a list of strings.
pub open spec fn texts(items: Seq<String>) -> Seq<Seq<char>> {
    items.map_values(|item: String| item@)
}

/// Whether `items` stands in strictly ascending text order.
pub open spec fn strictly_ascending(items: Seq<Seq<char>>) -> bool {
    forall|i: int, j: int| 0 <= i < j < items.len() ==> text_before(#[trigger] items[i], #[trigger] items[j])
}

/// A strictly ascending list holds nothing twice.
pub proof fn lemma_ascending_distinct(items: Seq<Seq<char>>, i: int, j: int)
    requires
        strictly_ascending(items),
        0 <= i < items.len(),
        0 <= j < items.len(),
        items[i] == items[j],
    ensures
        i == j,
{
    lemma_text_order(items[i], items[j], items[i]);
}

/// A strictly ascending list has no duplicates.
pub proof fn lemma_ascending_no_duplicates(items: Seq<Seq<char>>)
    requires
        strictly_ascending(items),
    ensures
        items.no_duplicates(),
{
    assert forall|i: int, j: int|
        0 <= i < items.len() && 0 <= j < items.len() && i != j implies items[i] != items[j] by {
        if items[i] == items[j] {
            lemma_ascending_distinct(items, i, j);
        }
    }
}

/// Two strictly ascending lists of the same texts are the same list.
pub proof fn law_ascending_listing_is_unique(a: Seq<Seq<char>>, b: Seq<Seq<char>>)
    requires
        strictly_ascending(a),
        strictly_ascending(b),
        forall|t: Seq<char>| a.contains(t) <==> b.contains(t),
    ensures
        a == b,
    decreases a.len() + b.len(),
{
    if a.len() == 0 {
        if b.len() > 0 {
            assert(b.contains(b[0]));
            assert(a.contains(b[0]));
        }
        assert(a =~= b);
    } else if b.len() == 0 {
        assert(a.contains(a[0]));
        assert(b.contains(a[0]));
    } else {
        let la = a.last();
        let lb = b.last();
        assert(a.contains(la));
        assert(b.contains(lb));
        assert(b.contains(la));
        assert(a.contains(lb));
        let i = choose|i: int| 0 <= i < b.len() && b[i] == la;
        let j = choose|j: int| 0 <= j < a.len() && a[j] == lb;
        lemma_text_order(la, lb, la);
        assert(la == lb);
        let ra = a.drop_last();
        let rb = b.drop_last();
        assert forall|t: Seq<char>| ra.contains(t) <==> rb.contains(t) by {
            if ra.contains(t) {
                let k = choose|k: int| 0 <= k < ra.len() && ra[k] == t;
                assert(a[k] == t);
                assert(a.contains(t));
                let m = choose|m: int| 0 <= m < b.len() && b[m] == t;
                lemma_text_order(a[k], la, la);
                assert(m != b.len() - 1);
                assert(rb[m] == t);
            }
            if rb.contains(t) {
                let k = choose|k: int| 0 <= k < rb.len() && rb[k] == t;
                assert(b[k] == t);
                assert(b.contains(t));
                let m = choose|m: int| 0 <= m < a.len() && a[m] == t;
                lemma_text_order(b[k], lb, lb);
                assert(m != a.len() - 1);
                assert(ra[m] == t);
            }
        }
        law_ascending_listing_is_unique(ra, rb);
        assert(a =~= ra.push(la));
        assert(b =~= rb.push(lb));
    }
}

/// Copy a list of texts.
pub fn copy_texts(items: &Vec<String>) -> (copy: Vec<String>)
    ensures
        texts(copy@) == texts(items@),
{
    let mut copy: Vec<String> = Vec::new();
    let mut i: usize = 0;
    while i < items.len()
        invariant
            i <= items.len(),
            texts(copy@) =~= texts(items@).take(i as int),
        decreases items.len() - i,
    {
        copy.push(items[i].clone());
        assert(texts(items@).take(i + 1) =~= texts(items@).take(i as int).push(items@[i as int]@));
        i += 1;
    }
    assert(texts(copy@) =~= texts(items@));
    copy
}

/// Report whether `items` holds `item`.
pub fn contains_text(items: &Vec<String>, item: &str) -> (found: bool)
    ensures
        found == texts(items@).contains(item@),
{
    let ghost views = texts(items@);
    let mut i: usize = 0;
    while i < items.len()
        invariant
            i <= items.len(),
            views == texts(items@),
            forall|k: int| 0 <= k < i ==> #[trigger] views[k] != item@,
        decreases items.len() - i,
    {
        assert(views[i as int] == items@[i as int]@);
        if text_eq(items[i].as_str(), item) {
            return true;
        }
        i += 1;
    }
    false
}

/// Find the first position whose key does not stand before `key`.
fn lower_bound(keys: &Vec<String>, key: &str) -> (at: usize)
    requires
        strictly_ascending(texts(keys@)),
    ensures
        at <= keys.len(),
        forall|i: int| 0 <= i < at ==> text_before(#[trigger] keys@[i]@, key@),
        forall|i: int| at <= i < keys.len() ==> !text_before(#[trigger] keys@[i]@, key@),
{
    let mut at: usize = 0;
    while at < keys.len() && text_less(keys[at].as_str(), key)
        invariant
            at <= keys.len(),
            forall|i: int| 0 <= i < at ==> text_before(#[trigger] keys@[i]@, key@),
        decreases keys.len() - at,
    {
        at += 1;
    }
    proof {
        assert forall|i: int| at <= i < keys.len() implies !text_before(
            #[trigger] keys@[i]@,
            key@,
        ) by {
            if i > at {
                assert(text_before(texts(keys@)[at as int], texts(keys@)[i]));
                lemma_text_order(keys@[at as int]@, keys@[i]@, key@);
            }
        }
    }
    at
}

/// TextSet is an ordered set of texts.
#[derive(Debug)]
pub struct TextSet {
    items: Vec<String>,
}

impl TextSet {
    /// Members stand in strictly ascending order.
    pub closed spec fn wf(&self) -> bool {
        strictly_ascending(texts(self.items@))
    }
}

impl View for TextSet {
    type V = Set<Seq<char>>;

    closed spec fn view(&self) -> Set<Seq<char>> {
        texts(self.items@).to_set()
    }
}

impl TextSet {
    /// Build the empty set.
    pub fn new() -> (set: Self)
        ensures
            set.wf(),
            set@ == Set::<Seq<char>>::empty(),
    {
        let set = TextSet { items: Vec::new() };
        assert(set@ =~= Set::<Seq<char>>::empty());
        set
    }

    /// Report how many members the set has.
    pub fn len(&self) -> (n: usize)
        requires
            self.wf(),
        ensures
            n == self@.len(),
            self@.finite(),
    {
        proof {
            lemma_ascending_no_duplicates(texts(self.items@));
            texts(self.items@).unique_seq_to_set();
        }
        self.items.len()
    }

    /// Report whether `item` is a member.
    pub fn contains(&self, item: &str) -> (found: bool)
        requires
            self.wf(),
        ensures
            found == self@.contains(item@),
    {
        let at = lower_bound(&self.items, item);
        if at < self.items.len() && text_eq(self.items[at].as_str(), item) {
            assert(texts(self.items@)[at as int] == item@);
            return true;
        }
        proof {
            if self@.contains(item@) {
                let i = choose|i: int| 0 <= i < self.items@.len() && texts(self.items@)[i] == item@;
                assert(self.items@[i]@ == item@);
                lemma_text_order(item@, item@, item@);
                assert(i >= at);
                assert(i != at);
                assert(text_before(texts(self.items@)[at as int], texts(self.items@)[i]));
                assert(!text_before(self.items@[at as int]@, item@));
            }
        }
        false
    }

    /// Add `item` to the set.
    pub fn insert(&mut self, item: String)
        requires
            old(self).wf(),
        ensures
            final(self).wf(),
            final(self)@ == old(self)@.insert(item@),
    {
        let at = lower_bound(&self.items, item.as_str());
        if at < self.items.len() && text_eq(self.items[at].as_str(), item.as_str()) {
            proof {
                assert(texts(self.items@)[at as int] == item@);
                assert(self@.contains(item@));
                assert(self@ =~= self@.insert(item@));
            }
            return;
        }
        let ghost before = texts(self.items@);
        let ghost value = item@;
        self.items.insert(at, item);
        proof {
            let after = texts(self.items@);
            assert(after =~= before.insert(at as int, value));
            assert forall|i: int, j: int| 0 <= i < j < after.len() implies text_before(
                #[trigger] after[i],
                #[trigger] after[j],
            ) by {
                let bi = if i < at { i } else { i - 1 };
                let bj = if j < at { j } else { j - 1 };
                if i == at {
                    lemma_text_order(value, before[bj], value);
                    if bj > at {
                        assert(text_before(before[at as int], before[bj]));
                        lemma_text_order(before[at as int], before[bj], value);
                    }
                    assert(!text_before(old(self).items@[bj]@, value));
                    assert(before[bj] != value);
                } else if j == at {
                    assert(text_before(old(self).items@[bi]@, value));
                } else {
                    assert(text_before(before[bi], before[bj]));
                }
            }
            assert forall|t: Seq<char>| self@.contains(t) <==> old(self)@.insert(value).contains(
                t,
            ) by {
                if after.contains(t) {
                    let i = choose|i: int| 0 <= i < after.len() && after[i] == t;
                    if i != at {
                        let bi = if i < at { i } else { i - 1 };
                        assert(before[bi] == t);
                    }
                }
                if before.contains(t) {
                    let i = choose|i: int| 0 <= i < before.len() && before[i] == t;
                    let ai = if i < at { i } else { i + 1 };
                    assert(after[ai] == t);
                }
                assert(after[at as int] == value);
            }
            assert(self@ =~= old(self)@.insert(value));
        }
    }

    /// Remove `item` from the set.
    pub fn remove(&mut self, item: &str)
        requires
            old(self).wf(),
        ensures
            final(self).wf(),
            final(self)@ == old(self)@.remove(item@),
    {
        let at = lower_bound(&self.items, item);
        if at < self.items.len() && text_eq(self.items[at].as_str(), item) {
            let ghost before = texts(self.items@);
            self.items.remove(at);
            proof {
                let after = texts(self.items@);
                assert(after =~= before.remove(at as int));
                assert forall|i: int, j: int| 0 <= i < j < after.len() implies text_before(
                    #[trigger] after[i],
                    #[trigger] after[j],
                ) by {
                    let bi = if i < at { i } else { i + 1 };
                    let bj = if j < at { j } else { j + 1 };
                    assert(text_before(before[bi], before[bj]));
                }
                assert forall|t: Seq<char>| self@.contains(t) <==> old(self)@.remove(
                    item@,
                ).contains(t) by {
                    if after.contains(t) {
                        let i = choose|i: int| 0 <= i < after.len() && after[i] == t;
                        let bi = if i < at { i } else { i + 1 };
                        assert(before[bi] == t);
                        if t == item@ {
                            lemma_ascending_distinct(before, bi, at as int);
                        }
                    }
                    if before.contains(t) && t != item@ {
                        let i = choose|i: int| 0 <= i < before.len() && before[i] == t;
                        let ai = if i < at { i } else { i - 1 };
                        assert(after[ai] == t);
                    }
                }
                assert(self@ =~= old(self)@.remove(item@));
            }
            return;
        }
        proof {
            if self@.contains(item@) {
                let i = choose|i: int| 0 <= i < self.items@.len() && texts(self.items@)[i] == item@;
                assert(self.items@[i]@ == item@);
                lemma_text_order(item@, item@, item@);
                assert(i > at);
                assert(text_before(texts(self.items@)[at as int], texts(self.items@)[i]));
                assert(!text_before(self.items@[at as int]@, item@));
            }
            assert(self@ =~= self@.remove(item@));
        }
    }

    /// Return the members in ascending order.
    pub fn to_vec(&self) -> (members: Vec<String>)
        requires
            self.wf(),
        ensures
            strictly_ascending(texts(members@)),
            texts(members@).to_set() == self@,
    {
        copy_texts(&self.items)
    }
}

/// TextMap is an ordered map from text to values.
#[derive(Debug)]
pub struct TextMap<V> {
    keys: Vec<String>,
    values: Vec<V>,
}

impl<V> TextMap<V> {
    /// The keys in ascending order.
    pub closed spec fn ordered(&self) -> Seq<Seq<char>> {
        texts(self.keys@)
    }

    /// Keys stand in strictly ascending order, each with its value.
    pub closed spec fn wf(&self) -> bool {
        &&& strictly_ascending(texts(self.keys@))
        &&& self.keys@.len() == self.values@.len()
    }
}

impl<V> View for TextMap<V> {
    type V = Map<Seq<char>, V>;

    closed spec fn view(&self) -> Map<Seq<char>, V> {
        Map::new(
            |key: Seq<char>| texts(self.keys@).contains(key),
            |key: Seq<char>| self.values@[texts(self.keys@).index_of(key)],
        )
    }
}

/// The entries of a map whose value is kept.
pub open spec fn retained<V>(map: Map<Seq<char>, V>, kept: spec_fn(V) -> bool) -> Map<Seq<char>, V> {
    Map::new(|key: Seq<char>| map.dom().contains(key) && kept(map[key]), |key: Seq<char>| map[key])
}

/// The entries of a map whose value is kept or whose key is among `keys`.
spec fn retained_or<V>(
    map: Map<Seq<char>, V>,
    kept: spec_fn(V) -> bool,
    keys: Seq<Seq<char>>,
) -> Map<Seq<char>, V> {
    Map::new(
        |key: Seq<char>| map.dom().contains(key) && (kept(map[key]) || keys.contains(key)),
        |key: Seq<char>| map[key],
    )
}

impl<V> TextMap<V> {
    /// A key's value is the one beside it.
    proof fn lemma_entry(&self, i: int)
        requires
            self.wf(),
            0 <= i < self.keys@.len(),
        ensures
            self@.dom().contains(self.keys@[i]@),
            self@[self.keys@[i]@] == self.values@[i],
    {
        let keys = texts(self.keys@);
        assert(keys[i] == self.keys@[i]@);
        assert(keys.contains(keys[i]));
        lemma_ascending_distinct(keys, keys.index_of(keys[i]), i);
    }

    /// The keys in order are the domain, without repetition.
    pub proof fn lemma_ordered(&self)
        requires
            self.wf(),
        ensures
            strictly_ascending(self.ordered()),
            self.ordered().no_duplicates(),
            self.ordered().to_set() == self@.dom(),
            self@.dom().finite(),
            self@.dom().len() == self.ordered().len(),
    {
        let keys = texts(self.keys@);
        lemma_ascending_no_duplicates(keys);
        assert(keys.to_set() =~= self@.dom());
        keys.unique_seq_to_set();
    }

    /// Build the empty map.
    pub fn new() -> (map: Self)
        ensures
            map.wf(),
            map@ == Map::<Seq<char>, V>::empty(),
    {
        let map = TextMap { keys: Vec::new(), values: Vec::new() };
        assert(map@ =~= Map::<Seq<char>, V>::empty());
        map
    }

    /// Report how many keys the map has.
    pub fn len(&self) -> (n: usize)
        requires
            self.wf(),
        ensures
            n == self.ordered().len(),
            n == self@.dom().len(),
            self@.dom().finite(),
    {
        proof {
            self.lemma_ordered();
        }
        self.keys.len()
    }

    /// Find `key`'s position.
    fn position(&self, key: &str) -> (at: Option<usize>)
        requires
            self.wf(),
        ensures
            match at {
                Some(i) => i < self.keys.len() && self.keys@[i as int]@ == key@ && self@.dom().contains(
                    key@,
                ) && self@[key@] == self.values@[i as int],
                None => !self@.dom().contains(key@),
            },
    {
        let mut i: usize = 0;
        while i < self.keys.len()
            invariant
                i <= self.keys.len(),
                self.wf(),
                forall|j: int| 0 <= j < i ==> #[trigger] self.keys@[j]@ != key@,
            decreases self.keys.len() - i,
        {
            if text_eq(self.keys[i].as_str(), key) {
                proof {
                    self.lemma_entry(i as int);
                }
                return Some(i);
            }
            i += 1;
        }
        proof {
            if self@.dom().contains(key@) {
                let j = choose|j: int| 0 <= j < self.keys@.len() && texts(self.keys@)[j] == key@;
                assert(self.keys@[j]@ == key@);
            }
        }
        None
    }

    /// Return the value stored under `key`.
    pub fn get(&self, key: &str) -> (value: Option<&V>)
        requires
            self.wf(),
        ensures
            match value {
                Some(v) => self@.dom().contains(key@) && *v == self@[key@],
                None => !self@.dom().contains(key@),
            },
    {
        match self.position(key) {
            Some(i) => Some(&self.values[i]),
            None => None,
        }
    }

    /// Return the key at one position of the ascending order.
    pub fn key_at(&self, at: usize) -> (key: &String)
        requires
            self.wf(),
            at < self.ordered().len(),
        ensures
            key@ == self.ordered()[at as int],
            self@.dom().contains(key@),
    {
        proof {
            self.lemma_entry(at as int);
        }
        &self.keys[at]
    }

    /// Return the value at one position of the ascending order.
    pub fn value_at(&self, at: usize) -> (value: &V)
        requires
            self.wf(),
            at < self.ordered().len(),
        ensures
            self@.dom().contains(self.ordered()[at as int]),
            *value == self@[self.ordered()[at as int]],
    {
        proof {
            self.lemma_entry(at as int);
        }
        &self.values[at]
    }

    /// Store `value` under `key`, replacing what was there.
    pub fn insert(&mut self, key: String, value: V)
        requires
            old(self).wf(),
        ensures
            final(self).wf(),
            final(self)@ == old(self)@.insert(key@, value),
    {
        let ghost keys = texts(self.keys@);
        let ghost name = key@;
        let at = lower_bound(&self.keys, key.as_str());
        if at < self.keys.len() && text_eq(self.keys[at].as_str(), key.as_str()) {
            self.values.set(at, value);
            proof {
                assert(texts(self.keys@) == keys);
                assert(keys[at as int] == name);
                assert forall|k: Seq<char>| self@.dom().contains(k) <==> old(self)@.insert(
                    name,
                    value,
                ).dom().contains(k) by {
                    assert(keys.contains(name));
                }
                assert forall|k: Seq<char>| self@.dom().contains(k) implies self@[k] == old(
                    self,
                )@.insert(name, value)[k] by {
                    let i = choose|i: int| 0 <= i < keys.len() && keys[i] == k;
                    assert(self.keys@[i]@ == k);
                    assert(old(self).keys@[i]@ == k);
                    self.lemma_entry(i);
                    old(self).lemma_entry(i);
                    if k == name {
                        lemma_ascending_distinct(keys, i, at as int);
                    }
                }
                assert(self@ =~= old(self)@.insert(name, value));
            }
            return;
        }
        self.keys.insert(at, key);
        self.values.insert(at, value);
        proof {
            let after = texts(self.keys@);
            assert(after =~= keys.insert(at as int, name));
            assert forall|i: int, j: int| 0 <= i < j < after.len() implies text_before(
                #[trigger] after[i],
                #[trigger] after[j],
            ) by {
                let bi = if i < at { i } else { i - 1 };
                let bj = if j < at { j } else { j - 1 };
                if i == at {
                    lemma_text_order(name, keys[bj], name);
                    if bj > at {
                        assert(text_before(keys[at as int], keys[bj]));
                        lemma_text_order(keys[at as int], keys[bj], name);
                    }
                    assert(!text_before(old(self).keys@[bj]@, name));
                    assert(keys[bj] != name);
                } else if j == at {
                    assert(text_before(old(self).keys@[bi]@, name));
                } else {
                    assert(text_before(keys[bi], keys[bj]));
                }
            }
            assert(self.wf());
            assert(self.keys@[at as int]@ == name);
            self.lemma_entry(at as int);
            assert forall|k: Seq<char>| self@.dom().contains(k) <==> old(self)@.insert(
                name,
                value,
            ).dom().contains(k) by {
                if after.contains(k) {
                    let i = choose|i: int| 0 <= i < after.len() && after[i] == k;
                    if i != at {
                        let bi = if i < at { i } else { i - 1 };
                        assert(keys[bi] == k);
                    }
                }
                if keys.contains(k) {
                    let i = choose|i: int| 0 <= i < keys.len() && keys[i] == k;
                    let ai = if i < at { i } else { i + 1 };
                    assert(after[ai] == k);
                }
            }
            assert forall|k: Seq<char>| self@.dom().contains(k) implies self@[k] == old(
                self,
            )@.insert(name, value)[k] by {
                let i = choose|i: int| 0 <= i < after.len() && after[i] == k;
                assert(self.keys@[i]@ == k);
                self.lemma_entry(i);
                if i != at {
                    let bi = if i < at { i } else { i - 1 };
                    assert(old(self).keys@[bi]@ == k);
                    old(self).lemma_entry(bi);
                    if k == name {
                        lemma_ascending_distinct(after, i, at as int);
                    }
                }
            }
            assert(self@ =~= old(self)@.insert(name, value));
        }
    }

    /// Drop the entry at one position of the ascending order.
    pub fn remove_at(&mut self, at: usize)
        requires
            old(self).wf(),
            at < old(self).ordered().len(),
        ensures
            final(self).wf(),
            final(self)@ == old(self)@.remove(old(self).ordered()[at as int]),
            final(self).ordered() == old(self).ordered().remove(at as int),
    {
        let ghost keys = texts(self.keys@);
        self.keys.remove(at);
        self.values.remove(at);
        proof {
            let after = texts(self.keys@);
            assert(after =~= keys.remove(at as int));
            assert forall|i: int, j: int| 0 <= i < j < after.len() implies text_before(
                #[trigger] after[i],
                #[trigger] after[j],
            ) by {
                let bi = if i < at { i } else { i + 1 };
                let bj = if j < at { j } else { j + 1 };
                assert(text_before(keys[bi], keys[bj]));
            }
            assert(self.wf());
            let gone = keys[at as int];
            assert forall|k: Seq<char>| self@.dom().contains(k) <==> old(self)@.remove(
                gone,
            ).dom().contains(k) by {
                if after.contains(k) {
                    let i = choose|i: int| 0 <= i < after.len() && after[i] == k;
                    let bi = if i < at { i } else { i + 1 };
                    assert(keys[bi] == k);
                    if k == gone {
                        lemma_ascending_distinct(keys, bi, at as int);
                    }
                }
                if keys.contains(k) && k != gone {
                    let i = choose|i: int| 0 <= i < keys.len() && keys[i] == k;
                    let ai = if i < at { i } else { i - 1 };
                    assert(after[ai] == k);
                }
            }
            assert forall|k: Seq<char>| self@.dom().contains(k) implies self@[k] == old(
                self,
            )@.remove(gone)[k] by {
                let i = choose|i: int| 0 <= i < after.len() && after[i] == k;
                let bi = if i < at { i } else { i + 1 };
                assert(self.keys@[i]@ == k);
                assert(old(self).keys@[bi]@ == k);
                self.lemma_entry(i);
                old(self).lemma_entry(bi);
            }
            assert(self@ =~= old(self)@.remove(gone));
        }
    }

    /// Drop every entry whose value `keep` refuses.
    pub(crate) fn retain<F: Fn(&V) -> bool>(
        &mut self,
        keep: F,
        Ghost(kept): Ghost<spec_fn(V) -> bool>,
    )
        requires
            old(self).wf(),
            forall|v: &V| call_requires(keep, (v,)),
            forall|v: &V, r: bool| call_ensures(keep, (v,), r) ==> r == kept(*v),
        ensures
            final(self).wf(),
            final(self)@ == retained(old(self)@, kept),
    {
        let ghost all = self@;
        let ghost keys = self.ordered();
        let mut i: usize = self.keys.len();
        proof {
            self.lemma_ordered();
            assert(keys.take(i as int) =~= keys);
            assert(self@ =~= retained_or(all, kept, keys.take(i as int)));
        }
        while i > 0
            invariant
                i <= keys.len(),
                self.wf(),
                keys.len() <= usize::MAX,
                i <= self.ordered().len(),
                self.ordered().take(i as int) == keys.take(i as int),
                keys.no_duplicates(),
                keys.to_set() == all.dom(),
                self@ == retained_or(all, kept, keys.take(i as int)),
                forall|v: &V| call_requires(keep, (v,)),
                forall|v: &V, r: bool| call_ensures(keep, (v,), r) ==> r == kept(*v),
            decreases i,
        {
            i = i - 1;
            let ghost key = keys[i as int];
            proof {
                assert(self.ordered()[i as int] == self.ordered().take(i + 1)[i as int]);
                assert(keys.take(i + 1)[i as int] == key);
                assert(keys.contains(key));
                assert(all.dom().contains(key));
            }
            let keep_it = keep(self.value_at(i));
            assert(self@[key] == all[key]);
            let ghost before = self.ordered();
            if !keep_it {
                self.remove_at(i);
                assert(self.ordered().take(i as int) =~= before.take(i as int));
            }
            proof {
                assert(before.take(i as int) =~= before.take(i + 1).take(i as int));
                assert(keys.take(i as int) =~= keys.take(i + 1).take(i as int));
                let now = keys.take(i as int);
                let prior = keys.take(i + 1);
                assert forall|k: Seq<char>| prior.contains(k) <==> now.contains(k) || k == key by {
                    if prior.contains(k) {
                        let a = choose|a: int| 0 <= a < prior.len() && prior[a] == k;
                        if a < i {
                            assert(now[a] == k);
                        }
                    }
                    if now.contains(k) {
                        let a = choose|a: int| 0 <= a < now.len() && now[a] == k;
                        assert(prior[a] == k);
                    }
                    assert(prior[i as int] == key);
                }
                assert(!now.contains(key)) by {
                    if now.contains(key) {
                        let a = choose|a: int| 0 <= a < now.len() && now[a] == key;
                        assert(keys[a] == keys[i as int]);
                    }
                }
                assert(self@ =~= retained_or(all, kept, now));
            }
        }
        assert(self@ =~= retained(all, kept));
    }

    /// Drop the entry stored under `key`, if there is one.
    pub fn remove(&mut self, key: &str)
        requires
            old(self).wf(),
        ensures
            final(self).wf(),
            final(self)@ == old(self)@.remove(key@),
    {
        match self.position(key) {
            Some(at) => {
                assert(texts(self.keys@)[at as int] == key@);
                self.remove_at(at);
            },
            None => {
                assert(self@ =~= self@.remove(key@));
            },
        }
    }
}

} // verus!
