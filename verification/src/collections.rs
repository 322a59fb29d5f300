//! String-keyed maps and stable ordering.
use vstd::prelude::*;
use crate::text::{str_eq, str_lt};
#[allow(unused_imports)]
use crate::text::text_lt;

verus! {

// ---------------------------------------------------------------------------
// Maps keyed by strings
// ---------------------------------------------------------------------------

/// The map that results from inserting the pairs of a list one after another.
pub open spec fn map_of<B>(s: Seq<(Seq<char>, B)>) -> Map<Seq<char>, B>
    decreases s.len(),
{
    if s.len() == 0 {
        Map::empty()
    } else {
        map_of(s.drop_last()).insert(s.last().0, s.last().1)
    }
}

/// Whether no key occurs twice.
pub open spec fn keys_distinct<B>(s: Seq<(Seq<char>, B)>) -> bool {
    forall|i: int, j: int| 0 <= i < j < s.len() ==> (#[trigger] s[i]).0 != (#[trigger] s[j]).0
}

/// Whether a list holds each entry of a map exactly once.
pub open spec fn lists<B>(s: Seq<(Seq<char>, B)>, m: Map<Seq<char>, B>) -> bool {
    keys_distinct(s) && map_of(s) == m
}

/// A key is in the map of a list exactly if it is in the list, and has its value there.
pub proof fn lemma_map_of<B>(s: Seq<(Seq<char>, B)>)
    requires
        keys_distinct(s),
    ensures
        forall|i: int|
            0 <= i < s.len() ==> map_of(s).contains_key((#[trigger] s[i]).0) && map_of(s)[s[i].0]
                == s[i].1,
        forall|k: Seq<char>| #[trigger]
            map_of(s).contains_key(k) ==> exists|i: int| 0 <= i < s.len() && (#[trigger] s[i]).0
                == k,
    decreases s.len(),
{
    if s.len() > 0 {
        let t = s.drop_last();
        lemma_map_of(t);
        assert forall|i: int| 0 <= i < s.len() implies map_of(s).contains_key((#[trigger] s[i]).0)
            && map_of(s)[s[i].0] == s[i].1 by {
            if i < s.len() - 1 {
                assert(t[i] == s[i]);
            }
        }
        assert forall|k: Seq<char>| #[trigger] map_of(s).contains_key(k) implies exists|i: int|
            0 <= i < s.len() && (#[trigger] s[i]).0 == k by {
            if k == s.last().0 {
                assert(s[s.len() - 1].0 == k);
            } else {
                assert(map_of(t).contains_key(k));
                let i = choose|i: int| 0 <= i < t.len() && (#[trigger] t[i]).0 == k;
                assert(s[i].0 == k);
            }
        }
    }
}

proof fn lemma_map_of_update<B>(s: Seq<(Seq<char>, B)>, i: int, v: B)
    requires
        keys_distinct(s),
        0 <= i < s.len(),
    ensures
        keys_distinct(s.update(i, (s[i].0, v))),
        map_of(s.update(i, (s[i].0, v))) == map_of(s).insert(s[i].0, v),
{
    let t = s.update(i, (s[i].0, v));
    assert forall|a: int, b: int| 0 <= a < b < t.len() implies (#[trigger] t[a]).0 != (
    #[trigger] t[b]).0 by {
        assert(t[a].0 == s[a].0);
        assert(t[b].0 == s[b].0);
    }
    lemma_map_of(s);
    lemma_map_of(t);
    assert(map_of(t) =~= map_of(s).insert(s[i].0, v)) by {
        assert forall|k: Seq<char>| map_of(t).contains_key(k) == map_of(s).insert(
            s[i].0,
            v,
        ).contains_key(k) by {
            if map_of(t).contains_key(k) {
                let j = choose|j: int| 0 <= j < t.len() && (#[trigger] t[j]).0 == k;
                assert(s[j].0 == k);
            }
            if map_of(s).contains_key(k) {
                let j = choose|j: int| 0 <= j < s.len() && (#[trigger] s[j]).0 == k;
                assert(t[j].0 == k);
            }
            assert(t[i].0 == s[i].0);
        }
        assert forall|k: Seq<char>| map_of(t).contains_key(k) implies map_of(t)[k] == map_of(
            s,
        ).insert(s[i].0, v)[k] by {
            let j = choose|j: int| 0 <= j < t.len() && (#[trigger] t[j]).0 == k;
            assert(s[j].0 == k);
        }
    }
}

proof fn lemma_map_of_remove<B>(s: Seq<(Seq<char>, B)>, i: int)
    requires
        keys_distinct(s),
        0 <= i < s.len(),
    ensures
        keys_distinct(s.remove(i)),
        map_of(s.remove(i)) == map_of(s).remove(s[i].0),
{
    let t = s.remove(i);
    assert forall|a: int, b: int| 0 <= a < b < t.len() implies (#[trigger] t[a]).0 != (
    #[trigger] t[b]).0 by {
        let x = if a < i { a } else { a + 1 };
        let y = if b < i { b } else { b + 1 };
        assert(t[a] == s[x]);
        assert(t[b] == s[y]);
    }
    lemma_map_of(s);
    lemma_map_of(t);
    assert(map_of(t) =~= map_of(s).remove(s[i].0)) by {
        assert forall|k: Seq<char>| map_of(t).contains_key(k) == map_of(s).remove(
            s[i].0,
        ).contains_key(k) by {
            if map_of(t).contains_key(k) {
                let j = choose|j: int| 0 <= j < t.len() && (#[trigger] t[j]).0 == k;
                let x = if j < i { j } else { j + 1 };
                assert(t[j] == s[x]);
            }
            if map_of(s).contains_key(k) && k != s[i].0 {
                let j = choose|j: int| 0 <= j < s.len() && (#[trigger] s[j]).0 == k;
                let x = if j < i { j } else { j - 1 };
                assert(t[x] == s[j]);
            }
        }
        assert forall|k: Seq<char>| map_of(t).contains_key(k) implies map_of(t)[k] == map_of(
            s,
        ).remove(s[i].0)[k] by {
            let j = choose|j: int| 0 <= j < t.len() && (#[trigger] t[j]).0 == k;
            let x = if j < i { j } else { j + 1 };
            assert(t[j] == s[x]);
        }
    }
}

/// A map from strings to values, kept in insertion order.
#[derive(Debug)]
pub struct StrMap<V: DeepView> {
    entries: Vec<(String, V)>,
}

impl<V: DeepView> DeepView for StrMap<V> {
    type V = Map<Seq<char>, V::V>;

    open spec fn deep_view(&self) -> Map<Seq<char>, V::V> {
        map_of(self.items())
    }
}

impl<V: DeepView> StrMap<V> {
    /// The entries in insertion order.
    pub closed spec fn items(&self) -> Seq<(Seq<char>, V::V)> {
        self.entries.deep_view()
    }

    #[verifier::type_invariant]
    spec fn inv(&self) -> bool {
        keys_distinct(self.entries.deep_view())
    }

    /// An empty map.
    pub fn new() -> (r: Self)
        ensures
            r.items() == Seq::<(Seq<char>, V::V)>::empty(),
            r.deep_view() == Map::<Seq<char>, V::V>::empty(),
    {
        let entries: Vec<(String, V)> = Vec::new();
        assert(entries.deep_view() =~= Seq::<(Seq<char>, V::V)>::empty());
        StrMap { entries }
    }

    /// The number of entries.
    pub fn len(&self) -> (r: usize)
        ensures
            r == self.items().len(),
            lists(self.items(), self.deep_view()),
    {
        proof {
            use_type_invariant(self);
        }
        self.entries.len()
    }

    /// Whether there are no entries.
    pub fn is_empty(&self) -> (r: bool)
        ensures
            r == (self.deep_view() =~= Map::<Seq<char>, V::V>::empty()),
    {
        proof {
            use_type_invariant(self);
            lemma_map_of(self.items());
            if self.items().len() > 0 {
                assert(self.deep_view().contains_key(self.items()[0].0));
            }
        }
        self.entries.len() == 0
    }

    /// The key of the entry at position `i`.
    pub fn key_at(&self, i: usize) -> (r: &String)
        requires
            i < self.items().len(),
        ensures
            r@ == self.items()[i as int].0,
            lists(self.items(), self.deep_view()),
    {
        proof {
            use_type_invariant(self);
        }
        &self.entries[i].0
    }

    /// The value of the entry at position `i`.
    pub fn value_at(&self, i: usize) -> (r: &V)
        requires
            i < self.items().len(),
        ensures
            r.deep_view() == self.items()[i as int].1,
            lists(self.items(), self.deep_view()),
    {
        proof {
            use_type_invariant(self);
        }
        &self.entries[i].1
    }

    fn position(&self, key: &str) -> (r: Option<usize>)
        ensures
            keys_distinct(self.items()),
            match r {
                Some(i) => i < self.items().len() && self.items()[i as int].0 == key@
                    && self.deep_view().contains_key(key@),
                None => !self.deep_view().contains_key(key@),
            },
    {
        proof {
            use_type_invariant(self);
            lemma_map_of(self.items());
        }
        let mut i: usize = 0;
        while i < self.entries.len()
            invariant
                i <= self.entries@.len(),
                keys_distinct(self.items()),
                forall|k: Seq<char>| #[trigger]
                    self.deep_view().contains_key(k) ==> exists|i: int|
                        0 <= i < self.items().len() && (#[trigger] self.items()[i]).0 == k,
                forall|j: int|
                    0 <= j < self.items().len() ==> self.deep_view().contains_key(
                        (#[trigger] self.items()[j]).0,
                    ),
                forall|j: int| 0 <= j < i ==> (#[trigger] self.items()[j]).0 != key@,
            decreases self.entries@.len() - i,
        {
            assert(self.items()[i as int].0 == self.entries@[i as int].0@);
            if str_eq(self.entries[i].0.as_str(), key) {
                return Some(i);
            }
            i = i + 1;
        }
        None
    }

    /// Looks up a key.
    pub fn get(&self, key: &str) -> (r: Option<&V>)
        ensures
            match r {
                Some(v) => self.deep_view().contains_key(key@) && v.deep_view()
                    == self.deep_view()[key@],
                None => !self.deep_view().contains_key(key@),
            },
    {
        match self.position(key) {
            Some(i) => {
                proof {
                    lemma_map_of(self.items());
                    assert(self.items()[i as int].1 == self.entries@[i as int].1.deep_view());
                }
                Some(&self.entries[i].1)
            },
            None => None,
        }
    }

    /// Whether a key is present.
    pub fn contains_key(&self, key: &str) -> (r: bool)
        ensures
            r == self.deep_view().contains_key(key@),
    {
        self.position(key).is_some()
    }

    /// Sets the value of a key.
    pub fn insert(&mut self, key: String, value: V)
        ensures
            final(self).deep_view() == old(self).deep_view().insert(key@, value.deep_view()),
    {
        let at: Option<usize> = self.position(key.as_str());
        let mut entries: Vec<(String, V)> = Vec::new();
        let ghost before = self.items();
        proof {
            assert(entries.deep_view() =~= Seq::<(Seq<char>, V::V)>::empty());
        }
        std::mem::swap(&mut entries, &mut self.entries);
        match at {
            Some(i) => {
                let ghost k = key@;
                let ghost v = value.deep_view();
                entries.set(i, (key, value));
                proof {
                    assert(entries.deep_view() =~= before.update(i as int, (k, v)));
                    lemma_map_of_update(before, i as int, v);
                }
            },
            None => {
                let ghost k = key@;
                let ghost v = value.deep_view();
                proof {
                    lemma_map_of(before);
                }
                entries.push((key, value));
                proof {
                    assert(entries.deep_view() =~= before.push((k, v)));
                    assert(before.push((k, v)).drop_last() =~= before);
                }
            },
        }
        self.entries = entries;
    }

    /// Removes a key and hands out its value.
    pub fn remove(&mut self, key: &str) -> (r: Option<V>)
        ensures
            final(self).deep_view() == old(self).deep_view().remove(key@),
            match r {
                Some(v) => old(self).deep_view().contains_key(key@) && v.deep_view() == old(
                    self,
                ).deep_view()[key@],
                None => !old(self).deep_view().contains_key(key@),
            },
    {
        let at: Option<usize> = self.position(key);
        match at {
            Some(i) => {
                let mut entries: Vec<(String, V)> = Vec::new();
                let ghost before = self.items();
                proof {
                    assert(entries.deep_view() =~= Seq::<(Seq<char>, V::V)>::empty());
                    lemma_map_of(before);
                }
                std::mem::swap(&mut entries, &mut self.entries);
                let e: (String, V) = entries.remove(i);
                proof {
                    assert(entries.deep_view() =~= before.remove(i as int));
                    lemma_map_of_remove(before, i as int);
                }
                self.entries = entries;
                Some(e.1)
            },
            None => {
                assert(self.deep_view().remove(key@) =~= self.deep_view());
                None
            },
        }
    }
}

/// String labels.
pub type Labels = StrMap<String>;

/// A copy of a set of labels.
pub fn clone_labels(l: &Labels) -> (r: Labels)
    ensures
        r.deep_view() == l.deep_view(),
{
    let mut out: Labels = StrMap::new();
    let n: usize = l.len();
    let mut i: usize = 0;
    assert(l.items().take(0) =~= Seq::<(Seq<char>, Seq<char>)>::empty());
    while i < n
        invariant
            i <= n,
            n == l.items().len(),
            out.deep_view() == map_of(l.items().take(i as int)),
        decreases n - i,
    {
        out.insert(l.key_at(i).clone(), l.value_at(i).clone());
        assert(l.items().take(i + 1).drop_last() =~= l.items().take(i as int));
        i = i + 1;
    }
    assert(l.items().take(n as int) =~= l.items());
    out
}

/// Whether every entry of `selector` is among `labels`.
pub open spec fn selects(selector: Map<Seq<char>, Seq<char>>, labels: Map<Seq<char>, Seq<char>>) -> bool {
    forall|k: Seq<char>| #[trigger]
        selector.contains_key(k) ==> labels.contains_key(k) && labels[k] == selector[k]
}

/// Checks whether the labels match all entries of the selector.
pub fn matches_selector(labels: &Labels, selector: &Labels) -> (r: bool)
    ensures
        r == selects(selector.deep_view(), labels.deep_view()),
{
    let n: usize = selector.len();
    proof {
        lemma_map_of(selector.items());
    }
    let mut i: usize = 0;
    while i < n
        invariant
            i <= n,
            n == selector.items().len(),
            forall|j: int|
                0 <= j < i ==> labels.deep_view().contains_key((#[trigger] selector.items()[j]).0)
                    && labels.deep_view()[selector.items()[j].0] == selector.items()[j].1,
            forall|j: int|
                0 <= j < n ==> selector.deep_view().contains_key((#[trigger] selector.items()[j]).0)
                    && selector.deep_view()[selector.items()[j].0] == selector.items()[j].1,
        decreases n - i,
    {
        let ok: bool = match labels.get(selector.key_at(i).as_str()) {
            Some(v) => str_eq(v.as_str(), selector.value_at(i).as_str()),
            None => false,
        };
        if !ok {
            assert(selector.deep_view().contains_key(selector.items()[i as int].0));
            return false;
        }
        i = i + 1;
    }
    true
}

// ---------------------------------------------------------------------------
// Maps in the order of their keys
// ---------------------------------------------------------------------------

/// The order of texts is transitive.
pub proof fn lemma_text_lt_transitive(a: Seq<char>, b: Seq<char>, c: Seq<char>)
    requires
        text_lt(a, b),
        text_lt(b, c),
    ensures
        text_lt(a, c),
    decreases a.len(),
{
    if a.len() > 0 && b.len() > 0 && c.len() > 0 && a[0] == b[0] && b[0] == c[0] {
        lemma_text_lt_transitive(a.drop_first(), b.drop_first(), c.drop_first());
    }
}

/// No text comes before itself, and of two different texts exactly one comes
/// before the other.
pub proof fn lemma_text_lt_total(a: Seq<char>, b: Seq<char>)
    ensures
        a == b ==> !text_lt(a, b),
        a != b ==> text_lt(a, b) != text_lt(b, a),
    decreases a.len(),
{
    if a.len() > 0 && b.len() > 0 && a[0] == b[0] {
        lemma_text_lt_total(a.drop_first(), b.drop_first());
        if a.drop_first() == b.drop_first() {
            assert(a =~= seq![a[0]] + a.drop_first());
            assert(b =~= seq![b[0]] + b.drop_first());
        }
    } else if a.len() == 0 && b.len() == 0 {
        assert(a =~= b);
    }
}

/// Whether the keys of a list ascend.
pub open spec fn ascending<B>(s: Seq<(Seq<char>, B)>) -> bool {
    forall|i: int, j: int|
        0 <= i < j < s.len() ==> text_lt((#[trigger] s[i]).0, (#[trigger] s[j]).0)
}

/// Whether a list holds each entry of a map once, in the order of the keys.
pub open spec fn lists_in_order<B>(s: Seq<(Seq<char>, B)>, m: Map<Seq<char>, B>) -> bool {
    ascending(s) && map_of(s) == m
}

/// Ascending keys are distinct.
pub proof fn lemma_ascending_distinct<B>(s: Seq<(Seq<char>, B)>)
    requires
        ascending(s),
    ensures
        keys_distinct(s),
{
    assert forall|i: int, j: int| 0 <= i < j < s.len() implies (#[trigger] s[i]).0 != (
    #[trigger] s[j]).0 by {
        lemma_text_lt_total(s[i].0, s[j].0);
    }
}

/// A map has one list in the order of its keys.
pub proof fn law_order_is_unique<B>(
    s: Seq<(Seq<char>, B)>,
    t: Seq<(Seq<char>, B)>,
    m: Map<Seq<char>, B>,
)
    requires
        lists_in_order(s, m),
        lists_in_order(t, m),
    ensures
        s == t,
    decreases s.len(),
{
    lemma_ascending_distinct(s);
    lemma_ascending_distinct(t);
    lemma_map_of(s);
    lemma_map_of(t);
    if s.len() == 0 {
        if t.len() > 0 {
            assert(m.contains_key(t[0].0));
            assert(false);
        }
        assert(s =~= t);
    } else {
        let n = s.len() - 1;
        assert(m.contains_key(s[n].0));
        let j = choose|j: int| 0 <= j < t.len() && (#[trigger] t[j]).0 == s[n].0;
        let l = t.len() - 1;
        assert(m.contains_key(t[l].0));
        let i = choose|i: int| 0 <= i < s.len() && (#[trigger] s[i]).0 == t[l].0;
        if j < l {
            assert(text_lt(t[j].0, t[l].0));
            assert(text_lt(s[n].0, s[i].0));
            lemma_text_lt_total(s[n].0, s[i].0);
            if i < n {
                assert(text_lt(s[i].0, s[n].0));
            }
            assert(false);
        }
        assert(s[n].1 == m[s[n].0]);
        assert(t[l].1 == m[t[l].0]);
        assert(s[n] == t[l]);
        let a = s.drop_last();
        let b = t.drop_last();
        let k = s[n].0;
        assert forall|x: int, y: int| 0 <= x < y < a.len() implies text_lt(
            (#[trigger] a[x]).0,
            (#[trigger] a[y]).0,
        ) by {
            assert(a[x] == s[x] && a[y] == s[y]);
        }
        assert forall|x: int, y: int| 0 <= x < y < b.len() implies text_lt(
            (#[trigger] b[x]).0,
            (#[trigger] b[y]).0,
        ) by {
            assert(b[x] == t[x] && b[y] == t[y]);
        }
        assert(s.remove(n) =~= a);
        assert(t.remove(l) =~= b);
        lemma_map_of_remove(s, n);
        lemma_map_of_remove(t, l);
        law_order_is_unique(a, b, m.remove(k));
        assert(s =~= a.push(s[n]));
        assert(t =~= b.push(t[l]));
    }
}

/// A key that is new to a list is new to its map wherever it is put.
proof fn lemma_map_of_insert<B>(s: Seq<(Seq<char>, B)>, i: int, k: Seq<char>, v: B)
    requires
        keys_distinct(s),
        keys_distinct(s.insert(i, (k, v))),
        0 <= i <= s.len(),
    ensures
        map_of(s.insert(i, (k, v))) == map_of(s).insert(k, v),
{
    let t = s.insert(i, (k, v));
    lemma_map_of(s);
    lemma_map_of(t);
    assert(t[i] == (k, v));
    assert(map_of(t) =~= map_of(s).insert(k, v)) by {
        assert forall|x: Seq<char>| map_of(t).contains_key(x) == map_of(s).insert(
            k,
            v,
        ).contains_key(x) by {
            if map_of(t).contains_key(x) && x != k {
                let j = choose|j: int| 0 <= j < t.len() && (#[trigger] t[j]).0 == x;
                let p = if j < i { j } else { j - 1 };
                assert(t[j] == s[p]);
            }
            if map_of(s).contains_key(x) {
                let j = choose|j: int| 0 <= j < s.len() && (#[trigger] s[j]).0 == x;
                let p = if j < i { j } else { j + 1 };
                assert(t[p] == s[j]);
            }
        }
        assert forall|x: Seq<char>| map_of(t).contains_key(x) implies map_of(t)[x] == map_of(
            s,
        ).insert(k, v)[x] by {
            let j = choose|j: int| 0 <= j < t.len() && (#[trigger] t[j]).0 == x;
            if j != i {
                let p = if j < i { j } else { j - 1 };
                assert(t[j] == s[p]);
            }
        }
    }
}

/// A map from strings to values, kept in the order of its keys.
#[derive(Debug)]
pub struct SortedMap<V: DeepView> {
    entries: Vec<(String, V)>,
}

impl<V: DeepView> DeepView for SortedMap<V> {
    type V = Map<Seq<char>, V::V>;

    open spec fn deep_view(&self) -> Map<Seq<char>, V::V> {
        map_of(self.items())
    }
}

impl<V: DeepView> SortedMap<V> {
    /// The entries in the order of the keys.
    pub closed spec fn items(&self) -> Seq<(Seq<char>, V::V)> {
        self.entries.deep_view()
    }

    #[verifier::type_invariant]
    spec fn inv(&self) -> bool {
        ascending(self.entries.deep_view())
    }

    /// An empty map.
    pub fn new() -> (r: Self)
        ensures
            r.deep_view() == Map::<Seq<char>, V::V>::empty(),
    {
        let entries: Vec<(String, V)> = Vec::new();
        assert(entries.deep_view() =~= Seq::<(Seq<char>, V::V)>::empty());
        SortedMap { entries }
    }

    /// The number of entries.
    pub fn len(&self) -> (r: usize)
        ensures
            r == self.items().len(),
            lists_in_order(self.items(), self.deep_view()),
    {
        proof {
            use_type_invariant(self);
        }
        self.entries.len()
    }

    /// The entry at position `i`.
    pub fn at(&self, i: usize) -> (r: &(String, V))
        requires
            i < self.items().len(),
        ensures
            (r.0@, r.1.deep_view()) == self.items()[i as int],
    {
        &self.entries[i]
    }

    fn position(&self, key: &str) -> (r: (usize, bool))
        ensures
            ascending(self.items()),
            r.0 <= self.items().len(),
            r.1 == self.deep_view().contains_key(key@),
            r.1 ==> r.0 < self.items().len() && self.items()[r.0 as int].0 == key@,
            forall|j: int| 0 <= j < r.0 ==> text_lt((#[trigger] self.items()[j]).0, key@),
            !r.1 ==> forall|j: int|
                r.0 <= j < self.items().len() ==> text_lt(key@, (#[trigger] self.items()[j]).0),
    {
        let ghost s = self.items();
        proof {
            use_type_invariant(self);
            lemma_ascending_distinct(s);
            lemma_map_of(s);
        }
        let mut i: usize = 0;
        while i < self.entries.len() && str_lt(self.entries[i].0.as_str(), key)
            invariant
                i <= self.entries@.len(),
                s == self.items(),
                forall|j: int| 0 <= j < i ==> text_lt((#[trigger] s[j]).0, key@),
            decreases self.entries@.len() - i,
        {
            assert(s[i as int].0 == self.entries@[i as int].0@);
            i = i + 1;
        }
        let found: bool = i < self.entries.len() && str_eq(self.entries[i].0.as_str(), key);
        proof {
            if i < s.len() {
                assert(s[i as int].0 == self.entries@[i as int].0@);
                lemma_text_lt_total(s[i as int].0, key@);
            }
            if !found {
                assert forall|j: int| i <= j < s.len() implies text_lt(
                    key@,
                    (#[trigger] s[j]).0,
                ) by {
                    if j > i {
                        assert(text_lt(s[i as int].0, s[j].0));
                        lemma_text_lt_transitive(key@, s[i as int].0, s[j].0);
                    }
                }
                if self.deep_view().contains_key(key@) {
                    let j = choose|j: int| 0 <= j < s.len() && (#[trigger] s[j]).0 == key@;
                    lemma_text_lt_total(key@, key@);
                    assert(text_lt(s[j].0, key@) || text_lt(key@, s[j].0));
                    assert(false);
                }
            } else {
                assert(self.deep_view().contains_key(s[i as int].0));
            }
        }
        (i, found)
    }

    /// Looks up a key.
    pub fn get(&self, key: &str) -> (r: Option<&V>)
        ensures
            match r {
                Some(v) => self.deep_view().contains_key(key@) && v.deep_view()
                    == self.deep_view()[key@],
                None => !self.deep_view().contains_key(key@),
            },
    {
        let (i, found): (usize, bool) = self.position(key);
        if found {
            proof {
                lemma_ascending_distinct(self.items());
                lemma_map_of(self.items());
                assert(self.items()[i as int].1 == self.entries@[i as int].1.deep_view());
            }
            Some(&self.entries[i].1)
        } else {
            None
        }
    }

    /// Sets the value of a key.
    pub fn insert(&mut self, key: String, value: V)
        ensures
            final(self).deep_view() == old(self).deep_view().insert(key@, value.deep_view()),
    {
        let (i, found): (usize, bool) = self.position(key.as_str());
        let ghost before = self.items();
        let ghost k = key@;
        let ghost v = value.deep_view();
        let mut entries: Vec<(String, V)> = Vec::new();
        proof {
            assert(entries.deep_view() =~= Seq::<(Seq<char>, V::V)>::empty());
            lemma_ascending_distinct(before);
        }
        std::mem::swap(&mut entries, &mut self.entries);
        if found {
            entries.set(i, (key, value));
            proof {
                let t = before.update(i as int, (k, v));
                assert(entries.deep_view() =~= t);
                lemma_map_of_update(before, i as int, v);
                assert forall|a: int, b: int| 0 <= a < b < t.len() implies text_lt(
                    (#[trigger] t[a]).0,
                    (#[trigger] t[b]).0,
                ) by {
                    assert(t[a].0 == before[a].0 && t[b].0 == before[b].0);
                }
            }
        } else {
            entries.insert(i, (key, value));
            proof {
                let t = before.insert(i as int, (k, v));
                assert(entries.deep_view() =~= t);
                assert forall|a: int, b: int| 0 <= a < b < t.len() implies text_lt(
                    (#[trigger] t[a]).0,
                    (#[trigger] t[b]).0,
                ) by {
                    let x = if a < i { a } else { a - 1 };
                    let y = if b < i { b } else { b - 1 };
                    if a != i {
                        assert(t[a] == before[x]);
                    }
                    if b != i {
                        assert(t[b] == before[y]);
                    }
                }
                lemma_ascending_distinct(t);
                lemma_map_of_insert(before, i as int, k, v);
            }
        }
        self.entries = entries;
    }
}

// ---------------------------------------------------------------------------
// Ordering
// ---------------------------------------------------------------------------

/// Whether `order` lists the positions of `keys` from the greatest key to the
/// least, equal keys in their original order.
pub open spec fn descending(keys: Seq<int>, order: Seq<int>) -> bool {
    &&& order.len() == keys.len()
    &&& forall|i: int| 0 <= i < order.len() ==> 0 <= #[trigger] order[i] < keys.len()
    &&& forall|i: int, j: int|
        0 <= i < j < order.len() ==> keys[#[trigger] order[i]] > keys[#[trigger] order[j]] || (
        keys[order[i]] == keys[order[j]] && order[i] < order[j])
}

/// The elements of `s` in the given order.
pub open spec fn arranged<A>(s: Seq<A>, order: Seq<int>) -> Seq<A> {
    Seq::new(order.len(), |i: int| s[order[i]])
}

/// Positions as mathematical integers.
pub open spec fn positions(v: Seq<usize>) -> Seq<int> {
    Seq::new(v.len(), |i: int| v[i] as int)
}

/// Keys as mathematical integers.
pub open spec fn int_keys(v: Seq<i128>) -> Seq<int> {
    Seq::new(v.len(), |i: int| v[i] as int)
}

/// The positions of the keys in descending order, stable.
pub fn order_descending(keys: &Vec<i128>) -> (r: Vec<usize>)
    ensures
        descending(int_keys(keys@), positions(r@)),
{
    let mut out: Vec<usize> = Vec::new();
    let mut k: usize = 0;
    while k < keys.len()
        invariant
            k <= keys@.len(),
            descending(int_keys(keys@).take(k as int), positions(out@)),
        decreases keys@.len() - k,
    {
        let ghost ks = int_keys(keys@);
        let ghost o = positions(out@);
        let mut p: usize = 0;
        assert forall|i: int| 0 <= i < out@.len() implies (#[trigger] out@[i]) < k by {
            assert(o[i] == out@[i]);
        }
        while p < out.len() && keys[out[p]] >= keys[k]
            invariant
                k < keys@.len(),
                p <= out@.len(),
                ks == int_keys(keys@),
                o == positions(out@),
                descending(ks.take(k as int), o),
                forall|i: int| 0 <= i < out@.len() ==> (#[trigger] out@[i]) < k,
                forall|i: int| 0 <= i < p ==> ks[#[trigger] o[i]] >= ks[k as int],
            decreases out@.len() - p,
        {
            assert(o[p as int] == out@[p as int]);
            p = p + 1;
        }
        let ghost was = out@;
        out.insert(p, k);
        proof {
            let n = positions(out@);
            assert(n =~= o.insert(p as int, k as int));
            let t = ks.take(k + 1);
            if p < was.len() {
                assert(o[p as int] == was[p as int]);
            }
            assert forall|i: int, j: int| 0 <= i < j < n.len() implies t[#[trigger] n[i]]
                > t[#[trigger] n[j]] || (t[n[i]] == t[n[j]] && n[i] < n[j]) by {
                let a = if i < p { i } else { i - 1 };
                let b = if j < p { j } else { j - 1 };
                if i != p {
                    assert(n[i] == o[a]);
                }
                if j != p {
                    assert(n[j] == o[b]);
                }
                if i == p {
                    assert(p < was.len());
                    if b != p {
                        assert(ks.take(k as int)[o[p as int]] >= ks.take(k as int)[o[b]]);
                    }
                }
            }
            assert forall|i: int| 0 <= i < n.len() implies 0 <= #[trigger] n[i] < t.len() by {
                let a = if i < p { i } else { i - 1 };
                if i != p {
                    assert(n[i] == o[a]);
                }
            }
        }
        k = k + 1;
    }
    assert(int_keys(keys@).take(k as int) =~= int_keys(keys@));
    out
}

// ---------------------------------------------------------------------------
// Selections from a list
// ---------------------------------------------------------------------------

/// One more element of a list adds what the rule makes of it.
pub proof fn lemma_filter_map_step<A, B>(s: Seq<A>, f: spec_fn(A) -> Option<B>, i: int)
    requires
        0 <= i < s.len(),
    ensures
        s.take(i + 1).filter_map(f) == match f(s[i]) {
            Some(b) => s.take(i).filter_map(f).push(b),
            None => s.take(i).filter_map(f),
        },
{
    assert(s.take(i + 1).drop_last() =~= s.take(i));
    assert(s.take(i + 1).last() == s[i]);
}

/// What a rule makes of an element is among what it makes of the list.
pub proof fn lemma_filter_map_has<A, B>(s: Seq<A>, f: spec_fn(A) -> Option<B>, i: int)
    requires
        0 <= i < s.len(),
        f(s[i]) is Some,
    ensures
        exists|k: int| 0 <= k < s.filter_map(f).len() && s.filter_map(f)[k] == f(s[i])->0,
    decreases s.len(),
{
    let t = s.drop_last();
    let r = s.filter_map(f);
    if i == s.len() - 1 {
        assert(r[r.len() - 1] == f(s[i])->0);
    } else {
        assert(t[i] == s[i]);
        lemma_filter_map_has(t, f, i);
        let k = choose|k: int| 0 <= k < t.filter_map(f).len() && t.filter_map(f)[k] == f(s[i])->0;
        assert(r[k] == f(s[i])->0);
    }
}

/// Whether a list is in the order of texts.
pub open spec fn in_text_order(s: Seq<Seq<char>>) -> bool {
    forall|i: int, j: int|
        0 <= i < j < s.len() ==> !text_lt(#[trigger] s[j], #[trigger] s[i])
}

/// Puts a list into the order of texts.
pub fn sort_texts(list: &Vec<String>) -> (r: Vec<String>)
    ensures
        in_text_order(r.deep_view()),
        r.deep_view().to_multiset() == list.deep_view().to_multiset(),
{
    let ghost all = list.deep_view();
    let mut out: Vec<String> = Vec::new();
    let mut k: usize = 0;
    proof {
        assert(all.take(0) =~= Seq::<Seq<char>>::empty());
        assert(out.deep_view() =~= Seq::<Seq<char>>::empty());
    }
    while k < list.len()
        invariant
            k <= list@.len(),
            all == list.deep_view(),
            in_text_order(out.deep_view()),
            out.deep_view().to_multiset() == all.take(k as int).to_multiset(),
        decreases list@.len() - k,
    {
        let ghost x = list@[k as int]@;
        let ghost o = out.deep_view();
        let mut p: usize = 0;
        while p < out.len() && !str_lt(list[k].as_str(), out[p].as_str())
            invariant
                k < list@.len(),
                p <= out@.len(),
                x == list@[k as int]@,
                o == out.deep_view(),
                forall|i: int| 0 <= i < p ==> !text_lt(x, #[trigger] o[i]),
            decreases out@.len() - p,
        {
            assert(o[p as int] == out@[p as int]@);
            p = p + 1;
        }
        proof {
            if p < o.len() {
                assert(o[p as int] == out@[p as int]@);
                assert forall|j: int| p <= j < o.len() implies !text_lt(#[trigger] o[j], x) by {
                    if text_lt(o[j], x) {
                        lemma_text_lt_transitive(o[j], x, o[p as int]);
                        if j == p {
                            lemma_text_lt_total(o[p as int], o[p as int]);
                        }
                    }
                }
            }
        }
        out.insert(p, list[k].clone());
        proof {
            let n = out.deep_view();
            assert(n =~= o.insert(p as int, x));
            assert forall|i: int, j: int| 0 <= i < j < n.len() implies !text_lt(
                #[trigger] n[j],
                #[trigger] n[i],
            ) by {
                let a = if i < p { i } else { i - 1 };
                let b = if j < p { j } else { j - 1 };
                if i != p {
                    assert(n[i] == o[a]);
                }
                if j != p {
                    assert(n[j] == o[b]);
                }
            }
            broadcast use vstd::seq_lib::group_to_multiset_ensures;

            assert(all.take(k + 1) =~= all.take(k as int).push(x));
        }
        k = k + 1;
    }
    assert(all.take(k as int) =~= all);
    out
}

/// Whether a list of strings holds a string.
pub fn has_string(list: &Vec<String>, s: &str) -> (r: bool)
    ensures
        r == list.deep_view().contains(s@),
{
    let mut i: usize = 0;
    while i < list.len()
        invariant
            i <= list@.len(),
            forall|j: int| 0 <= j < i ==> (#[trigger] list@[j])@ != s@,
        decreases list@.len() - i,
    {
        if str_eq(list[i].as_str(), s) {
            assert(list.deep_view()[i as int] == s@);
            return true;
        }
        i = i + 1;
    }
    assert forall|j: int| 0 <= j < list.deep_view().len() implies list.deep_view()[j] != s@ by {
        assert(list.deep_view()[j] == list@[j]@);
    }
    false
}

/// Adds the strings of a list that are not there yet, each once.
pub fn union_of(a: Vec<String>, b: &Vec<String>) -> (r: Vec<String>)
    requires
        a.deep_view().no_duplicates(),
    ensures
        r.deep_view().no_duplicates(),
        forall|k: Seq<char>| #[trigger]
            r.deep_view().contains(k) <==> a.deep_view().contains(k) || b.deep_view().contains(k),
{
    let mut out: Vec<String> = a;
    let ghost start = a.deep_view();
    let ghost other = b.deep_view();
    let mut i: usize = 0;
    while i < b.len()
        invariant
            i <= b@.len(),
            other == b.deep_view(),
            out.deep_view().no_duplicates(),
            forall|k: Seq<char>| #[trigger]
                out.deep_view().contains(k) <==> start.contains(k) || other.take(
                    i as int,
                ).contains(k),
        decreases b@.len() - i,
    {
        let ghost before = out.deep_view();
        let ghost x = b@[i as int]@;
        let ghost t = other.take(i as int);
        let ghost u = other.take(i + 1);
        if !has_string(&out, b[i].as_str()) {
            out.push(b[i].clone());
            assert(out.deep_view() =~= before.push(x));
        }
        proof {
            assert(u =~= t.push(x));
            assert forall|k: Seq<char>| #[trigger]
                out.deep_view().contains(k) <==> start.contains(k) || u.contains(k) by {
                lemma_push_contains(t, x, k);
                lemma_push_contains(before, x, k);
            }
        }
        i = i + 1;
    }
    assert(other.take(i as int) =~= other);
    out
}

/// What a list holds after one more element.
proof fn lemma_push_contains<A>(s: Seq<A>, x: A, k: A)
    ensures
        s.push(x).contains(k) <==> s.contains(k) || k == x,
{
    if s.contains(k) {
        let j = choose|j: int| 0 <= j < s.len() && s[j] == k;
        assert(s.push(x)[j] == k);
    }
    if k == x {
        assert(s.push(x)[s.len() as int] == k);
    }
    if s.push(x).contains(k) && k != x {
        let j = choose|j: int| 0 <= j < s.push(x).len() && s.push(x)[j] == k;
        assert(s[j] == k);
    }
}

/// An order from the greatest key to the least lists every position.
pub proof fn lemma_descending_is_complete(keys: Seq<int>, order: Seq<int>, k: int)
    requires
        descending(keys, order),
        0 <= k < keys.len(),
    ensures
        exists|j: int| 0 <= j < order.len() && #[trigger] order[j] == k,
{
    let range = vstd::set_lib::set_int_range(0, keys.len() as int);
    vstd::set_lib::lemma_int_range(0, keys.len() as int);
    assert(order.no_duplicates()) by {
        assert forall|i: int, j: int| 0 <= i < j < order.len() implies order[i] != order[j] by {
            assert(keys[order[i]] > keys[order[j]] || (keys[order[i]] == keys[order[j]] && order[i]
                < order[j]));
        }
    }
    order.unique_seq_to_set();
    vstd::seq_lib::seq_to_set_is_finite(order);
    assert forall|x: int| order.to_set().contains(x) implies range.contains(x) by {
        let i = choose|i: int| 0 <= i < order.len() && order[i] == x;
        assert(0 <= order[i] < keys.len());
    }
    assert(order.to_set().subset_of(range));
    vstd::set_lib::lemma_subset_equality(order.to_set(), range);
    assert(range.contains(k));
    assert(order.contains(k));
}

/// An empty selector selects everything, labels select themselves, and each further
/// entry narrows the choice to the labels that hold it.
pub proof fn law_selection(
    selector: Map<Seq<char>, Seq<char>>,
    labels: Map<Seq<char>, Seq<char>>,
    k: Seq<char>,
    v: Seq<char>,
)
    requires
        !selector.contains_key(k),
    ensures
        selects(Map::empty(), labels),
        selects(labels, labels),
        selects(selector.insert(k, v), labels) == (selects(selector, labels) && labels.contains_key(k)
            && labels[k] == v),
{
    let s = selector.insert(k, v);
    if selects(s, labels) {
        assert(s.contains_key(k));
        assert forall|j: Seq<char>| #[trigger] selector.contains_key(j) implies labels.contains_key(j)
            && labels[j] == selector[j] by {
            assert(s.contains_key(j));
        }
    }
}

} // verus!
