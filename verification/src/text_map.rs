//! Ordered collections that are keyed by text: every key occurs once, and keys come in the
//! lexicographic order of their code points.
use crate::text::{self, text_before, text_eq};
use vstd::prelude::*;

verus! {

/// Strictly ascending texts: ordered and without duplicates.
pub open spec fn ascending(s: Seq<Seq<char>>) -> bool {
    forall|i: int, j: int| 0 <= i < j < s.len() ==> #[trigger] text::text_lt(s[i], s[j])
}

/// A map from text to values, ordered by key.
#[derive(Debug, PartialEq, Eq)]
pub struct TextMap<V> {
    entries: Vec<(String, V)>,
}

/// The keys of a list of entries, in their order.
spec fn entry_keys<V>(entries: Seq<(String, V)>) -> Seq<Seq<char>> {
    Seq::new(entries.len(), |i: int| entries[i].0@)
}

impl<V> TextMap<V> {
    #[verifier::type_invariant]
    spec fn inv(self) -> bool {
        ascending(entry_keys(self.entries@))
    }

    /// The keys in ascending order.
    pub closed spec fn keys(self) -> Seq<Seq<char>> {
        entry_keys(self.entries@)
    }
}

impl<V> View for TextMap<V> {
    type V = Map<Seq<char>, V>;

    closed spec fn view(&self) -> Map<Seq<char>, V> {
        Map::new(
            |k: Seq<char>| self.keys().contains(k),
            |k: Seq<char>| self.entries@[self.keys().index_of(k)].1,
        )
    }
}

impl<V: DeepView> DeepView for TextMap<V> {
    type V = Map<Seq<char>, V::V>;

    open spec fn deep_view(&self) -> Map<Seq<char>, V::V> {
        self@.map_values(|v: V| v.deep_view())
    }
}

/// In an ascending sequence an element is found at its own position.
proof fn lemma_index_of(s: Seq<Seq<char>>, i: int)
    requires
        ascending(s),
        0 <= i < s.len(),
    ensures
        s.contains(s[i]),
        s.index_of(s[i]) == i,
{
    let j = s.index_of(s[i]);
    assert(s[j] == s[i]);
    if i < j {
        text::text_lt_irreflexive(s[i]);
        assert(text::text_lt(s[i], s[j]));
    } else if j < i {
        text::text_lt_irreflexive(s[i]);
        assert(text::text_lt(s[j], s[i]));
    }
}

/// Two ascending sequences with the same elements are the same sequence.
pub proof fn ascending_is_unique(a: Seq<Seq<char>>, b: Seq<Seq<char>>)
    requires
        ascending(a),
        ascending(b),
        a.to_set() == b.to_set(),
    ensures
        a == b,
    decreases a.len(),
{
    if a.len() == 0 {
        if b.len() > 0 {
            assert(b.to_set().contains(b[0]));
            assert(a.contains(b[0]));
        }
        assert(a =~= b);
    } else {
        assert(a.to_set().contains(a.last()));
        assert(b.contains(a.last()));
        assert(b.to_set().contains(b.last()));
        assert(a.contains(b.last()));
        let i = a.index_of(b.last());
        let j = b.index_of(a.last());
        if i < a.len() - 1 && j < b.len() - 1 {
            assert(text::text_lt(a[i], a[a.len() - 1]));
            assert(text::text_lt(b[j], b[b.len() - 1]));
            text::text_lt_transitive(a.last(), b.last(), a.last());
            text::text_lt_irreflexive(a.last());
        }
        assert(a.last() == b.last());
        let x = a.drop_last();
        let y = b.drop_last();
        assert(ascending(x)) by {
            assert forall|p: int, q: int| 0 <= p < q < x.len() implies #[trigger]
                text::text_lt(x[p], x[q]) by {
                assert(text::text_lt(a[p], a[q]));
            }
        }
        assert(ascending(y)) by {
            assert forall|p: int, q: int| 0 <= p < q < y.len() implies #[trigger]
                text::text_lt(y[p], y[q]) by {
                assert(text::text_lt(b[p], b[q]));
            }
        }
        assert(x.to_set() =~= y.to_set()) by {
            assert forall|k: Seq<char>| x.contains(k) <==> y.contains(k) by {
                text::text_lt_irreflexive(k);
                if x.contains(k) {
                    let p = x.index_of(k);
                    assert(text::text_lt(a[p], a[a.len() - 1]));
                    assert(a.to_set().contains(a[p]));
                    let q = b.index_of(k);
                    assert(b.contains(k));
                    assert(q < b.len() - 1);
                    assert(y[q] == k);
                }
                if y.contains(k) {
                    let q = y.index_of(k);
                    assert(text::text_lt(b[q], b[b.len() - 1]));
                    assert(b.to_set().contains(b[q]));
                    let p = a.index_of(k);
                    assert(a.contains(k));
                    assert(p < a.len() - 1);
                    assert(x[p] == k);
                }
            }
        }
        ascending_is_unique(x, y);
        assert(a =~= x.push(a.last()));
        assert(b =~= y.push(b.last()));
    }
}

impl<V> TextMap<V> {
    /// An empty map.
    pub fn new() -> (r: Self)
        ensures
            r@ == Map::<Seq<char>, V>::empty(),
            r.keys() == Seq::<Seq<char>>::empty(),
    {
        let r = TextMap { entries: Vec::new() };
        assert(r.keys() =~= Seq::<Seq<char>>::empty());
        assert(r@ =~= Map::<Seq<char>, V>::empty());
        r
    }

    /// The number of keys.
    pub fn len(&self) -> (r: usize)
        ensures
            r == self.keys().len(),
    {
        self.entries.len()
    }

    /// The key at a position, in ascending order.
    pub fn key_at(&self, i: usize) -> (r: &str)
        requires
            i < self.keys().len(),
        ensures
            r@ == self.keys()[i as int],
    {
        self.entries[i].0.as_str()
    }

    /// The first position whose key does not come before `key`.
    fn position(&self, key: &str) -> (r: usize)
        ensures
            r <= self.entries@.len(),
            forall|i: int|
                0 <= i < r ==> #[trigger] text::text_lt(self.entries@[i].0@, key@),
            r < self.entries@.len() ==> !text::text_lt(self.entries@[r as int].0@, key@),
    {
        let mut i: usize = 0;
        while i < self.entries.len() && text_before(self.entries[i].0.as_str(), key)
            invariant
                i <= self.entries@.len(),
                forall|j: int|
                    0 <= j < i ==> #[trigger] text::text_lt(self.entries@[j].0@, key@),
            decreases self.entries@.len() - i,
        {
            i += 1;
        }
        i
    }

    /// The value under `key`.
    pub fn get(&self, key: &str) -> (r: Option<&V>)
        ensures
            match r {
                Some(v) => self@.contains_key(key@) && *v == self@[key@],
                None => !self@.contains_key(key@),
            },
    {
        proof {
            use_type_invariant(self);
        }
        let p = self.position(key);
        if p < self.entries.len() && text_eq(self.entries[p].0.as_str(), key) {
            proof {
                lemma_index_of(self.keys(), p as int);
                assert(self.keys()[p as int] == key@);
            }
            Some(&self.entries[p].1)
        } else {
            proof {
                if self.keys().contains(key@) {
                    let i = self.keys().index_of(key@);
                    text::text_lt_irreflexive(key@);
                    if p < i {
                        assert(text::text_lt(self.keys()[p as int], self.keys()[i]));
                    }
                    assert(self.keys()[i] == self.entries@[i].0@);
                }
            }
            None
        }
    }

    /// Whether `key` is in the map.
    pub fn contains_key(&self, key: &str) -> (r: bool)
        ensures
            r == self@.contains_key(key@),
    {
        self.get(key).is_some()
    }

    /// Puts `value` under `key`, in place of what was there.
    pub fn insert(&mut self, key: String, value: V)
        ensures
            final(self)@ == old(self)@.insert(key@, value),
    {
        proof {
            use_type_invariant(&*self);
        }
        let ghost before = self.entries@;
        let ghost keys = entry_keys(before);
        let p = self.position(key.as_str());
        let present = p < self.entries.len() && text_eq(self.entries[p].0.as_str(), key.as_str());
        let mut entries: Vec<(String, V)> = Vec::new();
        std::mem::swap(&mut entries, &mut self.entries);
        let ghost k = key@;
        if present {
            entries[p] = (key, value);
            proof {
                assert(entry_keys(entries@) =~= keys);
            }
        } else {
            entries.insert(p, (key, value));
            proof {
                let after = entry_keys(entries@);
                assert(after =~= keys.insert(p as int, k));
                if p < before.len() {
                    text::text_lt_total(keys[p as int], k);
                    assert(text::text_lt(k, keys[p as int]));
                }
                assert forall|i: int, j: int| 0 <= i < j < after.len() implies #[trigger]
                    text::text_lt(after[i], after[j]) by {
                    if j < p {
                        assert(text::text_lt(keys[i], keys[j]));
                    } else if j == p {
                        assert(text::text_lt(before[i].0@, k));
                    } else if i < p {
                        assert(text::text_lt(keys[i], keys[j - 1]));
                    } else if i == p {
                        if j - 1 > p {
                            assert(text::text_lt(keys[p as int], keys[j - 1]));
                            text::text_lt_transitive(k, keys[p as int], keys[j - 1]);
                        }
                    } else {
                        assert(text::text_lt(keys[i - 1], keys[j - 1]));
                    }
                }
            }
        }
        let ghost after = entry_keys(entries@);
        proof {
            assert(after[p as int] == k);
            let map_before = old(self)@;
            assert forall|x: Seq<char>| after.contains(x) <==> x == k || keys.contains(x) by {
                if after.contains(x) {
                    let i = after.index_of(x);
                    if !present && i > p {
                        assert(keys[i - 1] == x);
                    } else if i != p {
                        assert(keys[i] == x);
                    }
                }
                if keys.contains(x) {
                    let i = keys.index_of(x);
                    if !present && i >= p {
                        assert(after[i + 1] == x);
                    } else {
                        assert(after[i] == x);
                    }
                }
            }
            assert forall|x: Seq<char>| after.contains(x) implies entries@[after.index_of(x)].1
                == (#[trigger] map_before.insert(k, value)[x]) by {
                let i = after.index_of(x);
                if x == k {
                    lemma_index_of(after, p as int);
                } else {
                    lemma_index_of(after, i);
                    if !present && i > p {
                        lemma_index_of(keys, i - 1);
                        assert(keys[i - 1] == x);
                    } else {
                        lemma_index_of(keys, i);
                        assert(keys[i] == x);
                    }
                }
            }
        }
        self.entries = entries;
        assert(self.keys() == after);
        assert(self@ =~= old(self)@.insert(k, value));
    }

    /// The keys in ascending order.
    pub fn into_keys(self) -> (r: Vec<String>)
        ensures
            r.deep_view() == self.keys(),
            ascending(self.keys()),
            self.keys().to_set() == self@.dom(),
    {
        proof {
            use_type_invariant(&self);
            assert(self.keys().to_set() =~= self@.dom());
        }
        let mut keys: Vec<String> = Vec::new();
        let mut i: usize = 0;
        while i < self.entries.len()
            invariant
                i <= self.entries@.len(),
                keys@.len() == i,
                forall|j: int| 0 <= j < i ==> #[trigger] keys@[j] == self.entries@[j].0,
            decreases self.entries@.len() - i,
        {
            keys.push(self.entries[i].0.clone());
            i += 1;
        }
        assert(keys.deep_view() =~= self.keys());
        keys
    }

    /// The values in the order of their keys.
    pub fn into_values(self) -> (r: Vec<V>)
        ensures
            ascending(self.keys()),
            self.keys().to_set() == self@.dom(),
            r@ == self.keys().map_values(|k: Seq<char>| self@[k]),
    {
        proof {
            use_type_invariant(&self);
            assert(self.keys().to_set() =~= self@.dom());
        }
        let ghost whole = self.entries@;
        let ghost map = self;
        let mut rest = self.entries;
        let mut values: Vec<V> = Vec::new();
        while rest.len() > 0
            invariant
                values@.len() + rest@.len() == whole.len(),
                forall|i: int| 0 <= i < values@.len() ==> values@[i] == (#[trigger] whole[i]).1,
                forall|i: int|
                    0 <= i < rest@.len() ==> rest@[i] == #[trigger] whole[i + values@.len()],
            decreases rest@.len(),
        {
            let ghost done = values@.len() as int;
            let ghost left = rest@;
            let (_, value) = rest.remove(0);
            values.push(value);
            proof {
                assert(left[0] == whole[0 + done]);
                assert forall|i: int| 0 <= i < rest@.len() implies rest@[i] == #[trigger] whole[i
                    + values@.len()] by {
                    assert(left[i + 1] == whole[(i + 1) + done]);
                }
            }
        }
        proof {
            assert forall|i: int| 0 <= i < values@.len() implies values@[i] == map@[map.keys()[i]] by {
                lemma_index_of(map.keys(), i);
                assert(values@[i] == whole[i].1);
            }
            assert(values@ =~= map.keys().map_values(|k: Seq<char>| map@[k]));
        }
        values
    }
}

/// The elements of a set in ascending order.
pub open spec fn sorted(set: Set<Seq<char>>) -> Seq<Seq<char>> {
    choose|s: Seq<Seq<char>>| ascending(s) && s.to_set() == set
}

/// An ascending sequence is the set of its elements in ascending order.
pub proof fn ascending_is_sorted(s: Seq<Seq<char>>)
    requires
        ascending(s),
    ensures
        sorted(s.to_set()) == s,
{
    let t = sorted(s.to_set());
    assert(ascending(t) && t.to_set() == s.to_set());
    ascending_is_unique(s, t);
}

/// The elements of a finite set can be put in ascending order.
pub proof fn sorted_is_ascending(set: Set<Seq<char>>)
    requires
        set.finite(),
    ensures
        ascending(sorted(set)),
        sorted(set).to_set() == set,
{
    let s = lemma_sortable(set);
    assert(ascending(s) && s.to_set() == set);
}

proof fn lemma_sortable(set: Set<Seq<char>>) -> (s: Seq<Seq<char>>)
    requires
        set.finite(),
    ensures
        ascending(s),
        s.to_set() == set,
    decreases set.len(),
{
    if set.len() == 0 {
        let s = Seq::<Seq<char>>::empty();
        assert(s.to_set() =~= set);
        s
    } else {
        let x = set.choose();
        let rest = lemma_sortable(set.remove(x));
        assert(!rest.to_set().contains(x));
        let s = lemma_insert_sorted(rest, x);
        assert(s.to_set() =~= set);
        s
    }
}

proof fn lemma_insert_sorted(r: Seq<Seq<char>>, x: Seq<char>) -> (s: Seq<Seq<char>>)
    requires
        ascending(r),
        !r.contains(x),
    ensures
        ascending(s),
        forall|y: Seq<char>| #[trigger] s.contains(y) <==> y == x || r.contains(y),
    decreases r.len(),
{
    if r.len() == 0 {
        let s = seq![x];
        assert(s[0] == x);
        s
    } else {
        let last = r.last();
        let front = r.drop_last();
        assert(r[r.len() - 1] == last);
        assert forall|y: Seq<char>| #[trigger] r.contains(y) <==> y == last || front.contains(y) by {
            if r.contains(y) {
                let i = r.index_of(y);
                if i < front.len() {
                    assert(front[i] == y);
                }
            }
            if front.contains(y) {
                let i = front.index_of(y);
                assert(r[i] == y);
            }
        }
        assert(ascending(front)) by {
            assert forall|p: int, q: int| 0 <= p < q < front.len() implies #[trigger]
                text::text_lt(front[p], front[q]) by {
                assert(text::text_lt(r[p], r[q]));
            }
        }
        text::text_lt_total(last, x);
        let start = if text::text_lt(last, x) {
            r
        } else {
            lemma_insert_sorted(front, x)
        };
        let end = if text::text_lt(last, x) {
            x
        } else {
            last
        };
        let s = start.push(end);
        assert forall|p: int, q: int| 0 <= p < q < s.len() implies #[trigger] text::text_lt(
            s[p],
            s[q],
        ) by {
            if q < start.len() {
                assert(text::text_lt(start[p], start[q]));
            } else if text::text_lt(last, x) {
                if p < r.len() - 1 {
                    assert(text::text_lt(r[p], r[r.len() - 1]));
                    text::text_lt_transitive(r[p], last, x);
                }
            } else {
                assert(start.contains(start[p]));
                if start[p] != x {
                    let i = front.index_of(start[p]);
                    assert(text::text_lt(r[i], r[r.len() - 1]));
                }
            }
        }
        assert forall|y: Seq<char>| #[trigger] s.contains(y) <==> y == x || r.contains(y) by {
            if s.contains(y) {
                let i = s.index_of(y);
                if i < start.len() {
                    assert(start[i] == y);
                    assert(start.contains(y));
                }
            }
            if start.contains(y) {
                let i = start.index_of(y);
                assert(s[i] == y);
            }
            assert(s[s.len() - 1] == end);
        }
        s
    }
}

/// A set of texts, ordered.
#[derive(Debug, PartialEq, Eq)]
pub struct TextSet {
    map: TextMap<()>,
}

impl View for TextSet {
    type V = Set<Seq<char>>;

    closed spec fn view(&self) -> Set<Seq<char>> {
        self.map@.dom()
    }
}

impl TextSet {
    /// An empty set.
    pub fn new() -> (r: Self)
        ensures
            r@ == Set::<Seq<char>>::empty(),
    {
        let r = TextSet { map: TextMap::new() };
        assert(r@ =~= Set::<Seq<char>>::empty());
        r
    }

    /// Puts `text` into the set.
    pub fn insert(&mut self, text: String)
        ensures
            final(self)@ == old(self)@.insert(text@),
    {
        self.map.insert(text, ());
        assert(self@ =~= old(self)@.insert(text@));
    }

    /// Whether `text` is in the set.
    pub fn contains(&self, text: &str) -> (r: bool)
        ensures
            r == self@.contains(text@),
    {
        self.map.contains_key(text)
    }

    /// The number of elements.
    pub fn len(&self) -> (r: usize)
        ensures
            r == sorted(self@).len(),
    {
        proof {
            use_type_invariant(&self.map);
            assert(self.map.keys().to_set() =~= self@);
            ascending_is_sorted(self.map.keys());
        }
        self.map.len()
    }

    /// The elements in ascending order.
    pub fn into_vec(self) -> (r: Vec<String>)
        ensures
            ascending(r.deep_view()),
            r.deep_view().to_set() == self@,
            r.deep_view() == sorted(self@),
    {
        let ghost set = self@;
        let keys = self.map.into_keys();
        proof {
            ascending_is_sorted(keys.deep_view());
            assert(keys.deep_view().to_set() =~= set);
        }
        keys
    }
}

} // verus!
