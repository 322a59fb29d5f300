//! Which events and processes are shown.
use vstd::prelude::*;
use vstd::string::*;
use crate::collections::order_descending;
#[allow(unused_imports)]
use crate::collections::{arranged, descending, int_keys, positions};
use crate::text::{contains, starts_with};
#[allow(unused_imports)]
use crate::text::{has_infix, has_prefix};

verus! {

/// What a watcher wants to see.
#[derive(Debug)]
pub struct WatchQuery {
    /// The prefix of the keys; all where there is none.
    pub prefix: Option<String>,
    /// The event after which to begin; the first where there is none.
    pub seq: Option<u64>,
}

/// The event after which to begin.
pub fn watch_start(query: &WatchQuery) -> (r: u64)
    ensures
        r == match query.seq {
            Some(n) => n,
            None => 0,
        },
{
    match query.seq {
        Some(n) => n,
        None => 0,
    }
}

/// The prefix of the keys that a watcher wants to see.
pub open spec fn watch_prefix(query: WatchQuery) -> Seq<char> {
    match query.prefix {
        Some(p) => p@,
        None => Seq::empty(),
    }
}

/// Whether a watcher wants to see an event of a key: its key has the prefix.
pub fn wants(query: &WatchQuery, key: &str) -> (r: bool)
    ensures
        r == has_prefix(key@, watch_prefix(*query)),
{
    match &query.prefix {
        Some(p) => p.as_str().is_empty() || {
            let b: bool = starts_with(key, p.as_str());
            b
        },
        None => {
            assert(key@.subrange(0, 0) =~= Seq::<char>::empty());
            true
        },
    }
}

/// What std makes of a text when it turns it to lowercase.
pub uninterp spec fn lowercase(s: Seq<char>) -> Seq<char>;

/// Turns a text to lowercase, by `str::to_lowercase`: the result is a function
/// of the text.
#[verifier::external_body]
fn to_lowercase(s: &str) -> (r: String)
    ensures
        r@ == lowercase(s@),
{
    s.to_lowercase()
}

/// Whether a process belongs to the cluster, by its name in lowercase.
pub fn is_own_process(lowered: &str) -> (r: bool)
    ensures
        r == has_infix(lowered@, "k3rs"@),
{
    contains(lowered, "k3rs")
}

/// The positions of the processes that belong to the cluster.
pub open spec fn own_positions(names: Seq<Seq<char>>, n: int) -> Seq<int>
    decreases n,
{
    if n <= 0 {
        Seq::empty()
    } else if has_infix(lowercase(names[n - 1]), "k3rs"@) {
        own_positions(names, n - 1).push(n - 1)
    } else {
        own_positions(names, n - 1)
    }
}

/// The keys at some positions.
pub open spec fn keys_at(memory: Seq<u64>, at: Seq<int>) -> Seq<int> {
    Seq::new(at.len(), |i: int| memory[at[i]] as int)
}

/// Whether a list holds the positions of the processes that belong to the
/// cluster, those with most memory first.
pub open spec fn heaviest_first(names: Seq<Seq<char>>, memory: Seq<u64>, r: Seq<int>) -> bool {
    let own = own_positions(names, names.len() as int);
    exists|order: Seq<int>|
        #[trigger] descending(keys_at(memory, own), order) && r == arranged(own, order)
}

proof fn lemma_own_positions(names: Seq<Seq<char>>, n: int)
    requires
        0 <= n <= names.len(),
    ensures
        own_positions(names, n).len() <= n,
        forall|i: int|
            0 <= i < own_positions(names, n).len() ==> 0 <= #[trigger] own_positions(names, n)[i]
                < n,
    decreases n,
{
    if n > 0 {
        lemma_own_positions(names, n - 1);
    }
}

/// The positions of the processes that belong to the cluster, those with most
/// memory first.
pub fn list_processes(names: &Vec<String>, memory: &Vec<u64>) -> (r: Vec<usize>)
    requires
        names@.len() == memory@.len(),
    ensures
        heaviest_first(names.deep_view(), memory@, positions(r@)),
{
    let ghost all = names.deep_view();
    let mut own: Vec<usize> = Vec::new();
    let mut keys: Vec<i128> = Vec::new();
    let mut i: usize = 0;
    assert(positions(own@) =~= Seq::<int>::empty());
    assert(int_keys(keys@) =~= keys_at(memory@, Seq::<int>::empty()));
    while i < names.len()
        invariant
            i <= names@.len(),
            names@.len() == memory@.len(),
            all == names.deep_view(),
            positions(own@) == own_positions(all, i as int),
            int_keys(keys@) == keys_at(memory@, own_positions(all, i as int)),
        decreases names@.len() - i,
    {
        let ghost o = own_positions(all, i as int);
        let ghost k = int_keys(keys@);
        assert(all[i as int] == names@[i as int]@);
        let lowered: String = to_lowercase(names[i].as_str());
        if is_own_process(lowered.as_str()) {
            let ghost w = positions(own@);
            own.push(i);
            keys.push(memory[i] as i128);
            assert(positions(own@) =~= w.push(i as int));
            assert(int_keys(keys@) =~= k.push(memory@[i as int] as int));
            assert(keys_at(memory@, o.push(i as int)) =~= k.push(memory@[i as int] as int));
        }
        i = i + 1;
    }
    let ghost at = own_positions(all, all.len() as int);
    let order: Vec<usize> = order_descending(&keys);
    let ghost d = positions(order@);
    let mut out: Vec<usize> = Vec::new();
    let mut j: usize = 0;
    while j < order.len()
        invariant
            j <= order@.len(),
            d == positions(order@),
            positions(own@) == at,
            descending(keys_at(memory@, at), d),
            out@.len() == j,
            forall|k: int| 0 <= k < j ==> (#[trigger] out@[k]) == at[d[k]],
        decreases order@.len() - j,
    {
        assert(d[j as int] == order@[j as int]);
        assert(at.len() == own@.len());
        assert(at[d[j as int]] == own@[d[j as int]]);
        out.push(own[order[j]]);
        j = j + 1;
    }
    assert(positions(out@) =~= arranged(at, d));
    out
}

/// Every process that is listed belongs to the cluster.
pub proof fn law_listed_processes_are_own(names: Seq<Seq<char>>, n: int, i: int)
    requires
        0 <= n <= names.len(),
        0 <= i < own_positions(names, n).len(),
    ensures
        has_infix(lowercase(names[own_positions(names, n)[i]]), "k3rs"@),
    decreases n,
{
    lemma_own_positions(names, n);
    if n > 0 {
        if i < own_positions(names, n - 1).len() {
            law_listed_processes_are_own(names, n - 1, i);
        }
    }
}

/// A watcher without a prefix sees everything.
pub proof fn law_no_prefix_sees_all(query: WatchQuery, key: Seq<char>)
    requires
        query.prefix is None,
    ensures
        has_prefix(key, watch_prefix(query)),
{
    assert(key.subrange(0, 0) =~= Seq::<char>::empty());
}

/// A watcher begins after the event that it names, or with the first one, and sees
/// exactly the keys that begin with its prefix, or all of them.
pub proof fn law_watch_follows_the_query(query: WatchQuery, key: &str, start: u64, seen: bool)
    requires
        call_ensures(watch_start, (&query,), start),
        call_ensures(wants, (&query, key), seen),
    ensures
        query.seq matches Some(n) ==> start == n,
        query.seq is None ==> start == 0,
        query.prefix is None ==> seen,
        query.prefix matches Some(p) ==> (seen <==> p@.len() <= key@.len() && key@.take(
            p@.len() as int,
        ) == p@),
{
    match query.prefix {
        Some(p) => {
            if p@.len() <= key@.len() {
                assert(key@.take(p@.len() as int) =~= key@.subrange(0, p@.len() as int));
            }
        },
        None => {
            law_no_prefix_sees_all(query, key@);
        },
    }
}

proof fn lemma_own_positions_all(names: Seq<Seq<char>>, n: int, k: int)
    requires
        0 <= k < n <= names.len(),
        has_infix(lowercase(names[k]), "k3rs"@),
    ensures
        own_positions(names, n).contains(k),
    decreases n,
{
    let before = own_positions(names, n - 1);
    let all = own_positions(names, n);
    if k == n - 1 {
        assert(all[before.len() as int] == k);
    } else {
        lemma_own_positions_all(names, n - 1, k);
        let i = choose|i: int| 0 <= i < before.len() && before[i] == k;
        assert(all[i] == k);
    }
}

/// The processes that are listed are exactly those whose lower-case name holds the
/// name of the cluster, and none stands before one with more memory.
pub proof fn law_processes_by_memory(
    names: Vec<String>,
    memory: Vec<u64>,
    r: Vec<usize>,
    k: int,
)
    requires
        call_ensures(list_processes, (&names, &memory), r),
        names.len() == memory.len(),
        0 <= k < names.len(),
    ensures
        (exists|i: int| 0 <= i < r.len() && #[trigger] r[i] == k) <==> has_infix(
            lowercase(names[k]@),
            "k3rs"@,
        ),
        forall|i: int| 0 <= i < r.len() ==> #[trigger] r[i] < names.len(),
        forall|i: int, j: int|
            0 <= i < j < r.len() ==> memory[#[trigger] r[i] as int] >= memory[
            #[trigger] r[j] as int],
{
    let all = names.deep_view();
    let n = all.len() as int;
    let own = own_positions(all, n);
    let keys = keys_at(memory@, own);
    let out = positions(r@);
    assert(heaviest_first(all, memory@, out));
    let order = choose|order: Seq<int>|
        #[trigger] descending(keys, order) && out == arranged(own, order);
    lemma_own_positions(all, n);
    assert(all[k] == names[k]@);
    assert(out.len() == r.len());
    assert forall|i: int| 0 <= i < r.len() implies #[trigger] r[i] < names.len() && r[i]
        == own[order[i]] by {
        assert(out[i] == r[i]);
        assert(0 <= order[i] < keys.len());
        assert(0 <= own[order[i]] < n);
    }
    assert forall|i: int, j: int| 0 <= i < j < r.len() implies memory[#[trigger] r[i] as int]
        >= memory[#[trigger] r[j] as int] by {
        assert(keys[order[i]] >= keys[order[j]]);
        assert(r[i] == own[order[i]] && r[j] == own[order[j]]);
        assert(0 <= order[i] < keys.len() && 0 <= order[j] < keys.len());
    }
    if exists|i: int| 0 <= i < r.len() && #[trigger] r[i] == k {
        let i = choose|i: int| 0 <= i < r.len() && #[trigger] r[i] == k;
        assert(0 <= order[i] < keys.len());
        law_listed_processes_are_own(all, n, order[i]);
        assert(r[i] == own[order[i]]);
    }
    if has_infix(lowercase(names[k]@), "k3rs"@) {
        lemma_own_positions_all(all, n, k);
        let p = choose|p: int| 0 <= p < own.len() && own[p] == k;
        crate::collections::lemma_descending_is_complete(keys, order, p);
        let j = choose|j: int| 0 <= j < order.len() && #[trigger] order[j] == p;
        assert(r[j] == own[order[j]]);
    }
}

} // verus!
