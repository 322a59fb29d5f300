//! Daemon sets: one pod on each eligible node.
use vstd::prelude::*;
use vstd::string::*;
use crate::collections::{clone_labels, matches_selector, lemma_filter_map_step};
#[allow(unused_imports)]
use crate::collections::{keys_distinct, lemma_filter_map_has, lemma_map_of, lists, selects};
use crate::controllers::replicaset::{owned_pods, StoredPod};
#[allow(unused_imports)]
use crate::controllers::replicaset::{owned, owned_rule};
use crate::ids::fresh_id;
#[allow(unused_imports)]
use crate::ids::is_uuid;
#[allow(unused_imports)]
use crate::keys::{ns_key, pod_key_of};
use crate::model::{
    is_on_any,
    is_on_node,
    DaemonSet,
    DaemonSetStatus,
    Node,
    NodeStatus,
    Pod,
    PodStatus,
};
#[allow(unused_imports)]
use crate::model::{
    law_pod_is_on_one_node,
    nodes_apart,
    on_any,
    on_node,
    DaemonSetStatusV,
    DaemonSetV,
    NodeV,
    PodV,
};
use crate::text::cat3;

verus! {

/// Keeps the nodes that are ready and match a selector.
pub open spec fn eligible_rule(selector: Map<Seq<char>, Seq<char>>) -> spec_fn(NodeV) -> Option<
    NodeV,
> {
    |n: NodeV|
        if n.status == NodeStatus::Ready && selects(selector, n.labels) {
            Some(n)
        } else {
            None
        }
}

/// The nodes that run a pod of a daemon set.
pub open spec fn eligible(nodes: Seq<NodeV>, selector: Map<Seq<char>, Seq<char>>) -> Seq<NodeV> {
    nodes.filter_map(eligible_rule(selector))
}

/// Whether one of the pods is on a node.
pub open spec fn occupied(pods: Seq<(Seq<char>, PodV)>, node: NodeV) -> bool {
    exists|i: int| 0 <= i < pods.len() && on_node((#[trigger] pods[i]).1, node)
}

/// Keeps the nodes without a pod.
pub open spec fn vacant_rule(mine: Seq<(Seq<char>, PodV)>) -> spec_fn(NodeV) -> Option<NodeV> {
    |n: NodeV|
        if occupied(mine, n) {
            None
        } else {
            Some(n)
        }
}

/// The nodes without a pod.
pub open spec fn vacant(good: Seq<NodeV>, mine: Seq<(Seq<char>, PodV)>) -> Seq<NodeV> {
    good.filter_map(vacant_rule(mine))
}

/// Whether a pod is bound to a node that is not in the list.
pub open spec fn is_orphan(pod: PodV, nodes: Seq<NodeV>) -> bool {
    pod.node_name is Some && !on_any(pod, nodes)
}

/// Whether a pod is on one of the nodes that has a pod already.
pub open spec fn is_surplus(
    before: Seq<(Seq<char>, PodV)>,
    pod: PodV,
    nodes: Seq<NodeV>,
) -> bool {
    exists|n: int|
        0 <= n < nodes.len() && on_node(pod, #[trigger] nodes[n]) && occupied(before, nodes[n])
}

/// The keys of the pods that are bound to nodes not in the list, and of all but
/// the first on each node.
pub open spec fn deletions(mine: Seq<(Seq<char>, PodV)>, nodes: Seq<NodeV>) -> Seq<Seq<char>>
    decreases mine.len(),
{
    if mine.len() == 0 {
        Seq::empty()
    } else {
        let rest = deletions(mine.drop_last(), nodes);
        if is_orphan(mine.last().1, nodes) || is_surplus(
            mine.drop_last(),
            mine.last().1,
            nodes,
        ) {
            rest.push(mine.last().0)
        } else {
            rest
        }
    }
}

/// Whether a pod counts as ready on one of the nodes.
pub open spec fn ready_on(pod: PodV, nodes: Seq<NodeV>) -> bool {
    (pod.status == PodStatus::Running || pod.status == PodStatus::Scheduled) && on_any(pod, nodes)
}

/// How many pods are ready on the nodes.
pub open spec fn ready_total(pods: Seq<(Seq<char>, PodV)>, nodes: Seq<NodeV>) -> int
    decreases pods.len(),
{
    if pods.len() == 0 {
        0
    } else {
        ready_total(pods.drop_last(), nodes) + if ready_on(pods.last().1, nodes) {
            1int
        } else {
            0int
        }
    }
}

/// The status of a daemon set after a pass: of pods that are ready or were
/// just created, at most as many count as there are nodes.
pub open spec fn daemon_status(
    mine: Seq<(Seq<char>, PodV)>,
    nodes: Seq<NodeV>,
    created: int,
) -> DaemonSetStatusV {
    let ready = ready_total(mine, nodes) + created;
    let desired = nodes.len() as u32;
    DaemonSetStatusV {
        desired_number_scheduled: desired,
        current_number_scheduled: desired,
        number_ready: if ready <= desired {
            ready as u32
        } else {
            desired
        },
    }
}

/// The name of the pod of a daemon set on a node.
pub open spec fn daemon_name(ds: Seq<char>, node: Seq<char>) -> Seq<char> {
    ds + "-"@ + node
}

/// The pod of a daemon set on a node.
pub open spec fn daemon_pod_of(
    ns: Seq<char>,
    ds: DaemonSetV,
    node: NodeV,
    id: Seq<char>,
    now: i128,
) -> PodV {
    PodV {
        id,
        name: daemon_name(ds.name, node.name),
        namespace: ns,
        spec: ds.spec.template,
        status: PodStatus::Scheduled,
        node_name: Some(node.name),
        labels: ds.spec.node_selector,
        owner_ref: Some(ds.id),
        restart_count: 0,
        runtime_info: None,
        ghost_ipv6: None,
        vpc_name: None,
        created_at: now,
    }
}

/// What a pass over a daemon set changes. What is deleted is deleted before
/// anything is created.
pub struct DaemonPlan {
    /// The nodes on which to create a pod.
    pub create: Vec<Node>,
    /// The keys of the pods to delete.
    pub delete: Vec<String>,
    /// The daemon set to store at the end.
    pub daemonset: DaemonSet,
}

fn select_nodes(nodes: &Vec<Node>, ds: &DaemonSet) -> (r: Vec<Node>)
    ensures
        r.deep_view() == eligible(nodes.deep_view(), ds.spec.node_selector.deep_view()),
        r@.len() <= nodes@.len(),
{
    let ghost all = nodes.deep_view();
    let ghost f = eligible_rule(ds.spec.node_selector.deep_view());
    let mut out: Vec<Node> = Vec::new();
    let mut i: usize = 0;
    assert(all.take(0) =~= Seq::<NodeV>::empty());
    assert(out.deep_view() =~= Seq::<NodeV>::empty());
    while i < nodes.len()
        invariant
            i <= nodes@.len(),
            all == nodes.deep_view(),
            f == eligible_rule(ds.spec.node_selector.deep_view()),
            out.deep_view() == all.take(i as int).filter_map(f),
            out@.len() <= i,
        decreases nodes@.len() - i,
    {
        proof {
            lemma_filter_map_step(all, f, i as int);
        }
        if nodes[i].status == NodeStatus::Ready && matches_selector(
            &nodes[i].labels,
            &ds.spec.node_selector,
        ) {
            let ghost before = out.deep_view();
            out.push(nodes[i].clone());
            assert(out.deep_view() =~= before.push(all[i as int]));
        }
        i = i + 1;
    }
    assert(all.take(i as int) =~= all);
    out
}

/// Whether one of the first `n` pods is on a node.
fn is_occupied(pods: &Vec<StoredPod>, n: usize, node: &Node) -> (r: bool)
    requires
        n <= pods@.len(),
    ensures
        r == occupied(pods.deep_view().take(n as int), node.deep_view()),
{
    let ghost all = pods.deep_view().take(n as int);
    let mut i: usize = 0;
    while i < n
        invariant
            i <= n <= pods@.len(),
            all == pods.deep_view().take(n as int),
            forall|j: int| 0 <= j < i ==> !on_node((#[trigger] all[j]).1, node.deep_view()),
        decreases n - i,
    {
        assert(all[i as int].1 == pods@[i as int].1.deep_view());
        if is_on_node(&pods[i].1, node) {
            return true;
        }
        i = i + 1;
    }
    false
}

/// Whether the pod at a place is on one of the nodes that has a pod before it.
fn is_extra(pods: &Vec<StoredPod>, at: usize, nodes: &Vec<Node>) -> (r: bool)
    requires
        at < pods@.len(),
    ensures
        r == is_surplus(
            pods.deep_view().take(at as int),
            pods.deep_view()[at as int].1,
            nodes.deep_view(),
        ),
{
    let ghost all = nodes.deep_view();
    let ghost before = pods.deep_view().take(at as int);
    let ghost pod = pods.deep_view()[at as int].1;
    let mut i: usize = 0;
    while i < nodes.len()
        invariant
            i <= nodes@.len(),
            at < pods@.len(),
            all == nodes.deep_view(),
            before == pods.deep_view().take(at as int),
            pod == pods.deep_view()[at as int].1,
            forall|j: int|
                0 <= j < i ==> !(on_node(pod, #[trigger] all[j]) && occupied(before, all[j])),
        decreases nodes@.len() - i,
    {
        assert(all[i as int] == nodes@[i as int].deep_view());
        assert(pod == pods@[at as int].1.deep_view());
        if is_on_node(&pods[at].1, &nodes[i]) && is_occupied(pods, at, &nodes[i]) {
            return true;
        }
        i = i + 1;
    }
    false
}

fn vacant_nodes(nodes: &Vec<Node>, mine: &Vec<StoredPod>) -> (r: Vec<Node>)
    ensures
        r.deep_view() == vacant(nodes.deep_view(), mine.deep_view()),
        r@.len() <= nodes@.len(),
{
    let ghost all = nodes.deep_view();
    let ghost f = vacant_rule(mine.deep_view());
    let mut out: Vec<Node> = Vec::new();
    let mut i: usize = 0;
    assert(all.take(0) =~= Seq::<NodeV>::empty());
    assert(out.deep_view() =~= Seq::<NodeV>::empty());
    while i < nodes.len()
        invariant
            i <= nodes@.len(),
            all == nodes.deep_view(),
            f == vacant_rule(mine.deep_view()),
            out.deep_view() == all.take(i as int).filter_map(f),
            out@.len() <= i,
        decreases nodes@.len() - i,
    {
        proof {
            lemma_filter_map_step(all, f, i as int);
        }
        assert(mine.deep_view().take(mine@.len() as int) =~= mine.deep_view());
        if !is_occupied(mine, mine.len(), &nodes[i]) {
            let ghost before = out.deep_view();
            out.push(nodes[i].clone());
            assert(out.deep_view() =~= before.push(all[i as int]));
        }
        i = i + 1;
    }
    assert(all.take(i as int) =~= all);
    out
}

/// Ensures exactly one pod on each eligible node.
pub struct DaemonSetController {
    /// Seconds between two passes.
    pub check_interval_secs: u64,
}

impl DaemonSetController {
    /// A controller with the standard interval.
    pub fn new() -> (r: Self)
        ensures
            r.check_interval_secs == 15,
    {
        DaemonSetController { check_interval_secs: 15 }
    }

    /// Decides what becomes of the pods of a daemon set: nodes without one get one,
    /// of several on a node the first stays, and those on other nodes go.
    pub fn plan(ds: DaemonSet, nodes: &Vec<Node>, pods: &Vec<StoredPod>) -> (r: DaemonPlan)
        requires
            nodes@.len() + pods@.len() <= u32::MAX,
        ensures
            ({
                let good = eligible(nodes.deep_view(), ds.spec.node_selector.deep_view());
                let mine = owned(pods.deep_view(), ds.id@);
                &&& r.create.deep_view() == vacant(good, mine)
                &&& r.delete.deep_view() == deletions(mine, good)
                &&& r.daemonset.deep_view() == (DaemonSetV {
                    status: daemon_status(mine, good, r.create@.len() as int),
                    ..ds.deep_view()
                })
            }),
    {
        let good: Vec<Node> = select_nodes(nodes, &ds);
        let mine: Vec<StoredPod> = owned_pods(pods, ds.id.as_str());
        let create: Vec<Node> = vacant_nodes(&good, &mine);
        let ghost g = good.deep_view();
        let ghost all = mine.deep_view();
        let mut delete: Vec<String> = Vec::new();
        let mut ready: u32 = 0;
        let mut i: usize = 0;
        assert(all.take(0) =~= Seq::<(Seq<char>, PodV)>::empty());
        assert(delete.deep_view() =~= Seq::<Seq<char>>::empty());
        while i < mine.len()
            invariant
                i <= mine@.len() <= u32::MAX,
                all == mine.deep_view(),
                g == good.deep_view(),
                delete.deep_view() == deletions(all.take(i as int), g),
                ready == ready_total(all.take(i as int), g),
                ready <= i,
            decreases mine@.len() - i,
        {
            proof {
                assert(all.take(i + 1).drop_last() =~= all.take(i as int));
                assert(all.take(i + 1).last() == all[i as int]);
                assert(all[i as int].1 == mine@[i as int].1.deep_view());
            }
            let p: &Pod = &mine[i].1;
            let placed: bool = is_on_any(p, &good);
            if placed && (p.status == PodStatus::Running || p.status == PodStatus::Scheduled) {
                ready = ready + 1;
            }
            if (p.node_name.is_some() && !placed) || is_extra(&mine, i, &good) {
                let ghost before = delete.deep_view();
                delete.push(mine[i].0.clone());
                assert(delete.deep_view() =~= before.push(all[i as int].0));
            }
            i = i + 1;
        }
        assert(all.take(i as int) =~= all);
        let desired: u32 = good.len() as u32;
        let total: u32 = ready + create.len() as u32;
        let mut out: DaemonSet = ds;
        out.status = DaemonSetStatus {
            desired_number_scheduled: desired,
            current_number_scheduled: desired,
            number_ready: if total <= desired {
                total
            } else {
                desired
            },
        };
        DaemonPlan { create, delete, daemonset: out }
    }

    /// Makes the pod of a daemon set on a node, under a given id.
    pub fn daemon_pod(ns: &str, ds: &DaemonSet, node: &Node, id: &str, now: i128) -> (r: Pod)
        ensures
            r.deep_view() == daemon_pod_of(ns@, ds.deep_view(), node.deep_view(), id@, now),
    {
        Pod {
            id: id.to_owned(),
            name: cat3(ds.name.as_str(), "-", node.name.as_str()),
            namespace: ns.to_owned(),
            spec: ds.spec.template.clone(),
            status: PodStatus::Scheduled,
            node_name: Some(node.name.clone()),
            labels: clone_labels(&ds.spec.node_selector),
            owner_ref: Some(ds.id.clone()),
            restart_count: 0,
            runtime_info: None,
            ghost_ipv6: None,
            vpc_name: None,
            created_at: now,
        }
    }

    /// Makes the pod of a daemon set on a node, under a fresh id.
    pub fn create_pod_on_node(ns: &str, ds: &DaemonSet, node: &Node, now: i128) -> (r: Pod)
        ensures
            is_uuid(r.id@),
            r.deep_view() == daemon_pod_of(ns@, ds.deep_view(), node.deep_view(), r.id@, now),
    {
        let id: String = fresh_id();
        Self::daemon_pod(ns, ds, node, id.as_str(), now)
    }
}

// ---------------------------------------------------------------------------
// Laws
// ---------------------------------------------------------------------------

/// The pods of a namespace with others stored, one after another.
pub open spec fn stored_all(store: Map<Seq<char>, PodV>, fresh: Seq<(Seq<char>, PodV)>) -> Map<
    Seq<char>,
    PodV,
>
    decreases fresh.len(),
{
    if fresh.len() == 0 {
        store
    } else {
        stored_all(store, fresh.drop_last()).insert(fresh.last().0, fresh.last().1)
    }
}

/// The pods of a namespace after a pass that has deleted some and stored new ones.
pub open spec fn after_pass(
    store: Map<Seq<char>, PodV>,
    gone: Seq<Seq<char>>,
    fresh: Seq<(Seq<char>, PodV)>,
) -> Map<Seq<char>, PodV> {
    stored_all(store.remove_keys(gone.to_set()), fresh)
}

/// Whether there is a pod of an owner on a node under a key.
pub open spec fn stands(
    store: Map<Seq<char>, PodV>,
    owner: Seq<char>,
    node: NodeV,
    key: Seq<char>,
) -> bool {
    store.contains_key(key) && store[key].owner_ref == Some(owner) && on_node(store[key], node)
}

/// Whether there is exactly one pod of an owner on a node.
pub open spec fn exactly_one(store: Map<Seq<char>, PodV>, owner: Seq<char>, node: NodeV) -> bool {
    exists|key: Seq<char>|
        {
            &&& #[trigger] stands(store, owner, node, key)
            &&& forall|other: Seq<char>| #[trigger]
                stands(store, owner, node, other) ==> other == key
        }
}

/// Whether an entry has the key of one of the others.
pub open spec fn replaced(e: (Seq<char>, PodV), fresh: Seq<(Seq<char>, PodV)>) -> bool {
    exists|i: int| 0 <= i < fresh.len() && (#[trigger] fresh[i]).0 == e.0
}

/// Whether the new pods are those of a daemon set on the given nodes, under their
/// keys.
pub open spec fn fills(
    fresh: Seq<(Seq<char>, PodV)>,
    ns: Seq<char>,
    ds: DaemonSetV,
    nodes: Seq<NodeV>,
) -> bool {
    &&& fresh.len() == nodes.len()
    &&& forall|i: int|
        0 <= i < fresh.len() ==> (#[trigger] fresh[i]).1 == daemon_pod_of(
            ns,
            ds,
            nodes[i],
            fresh[i].1.id,
            fresh[i].1.created_at,
        ) && fresh[i].0 == pod_key_of(fresh[i].1)
}

/// Whether no pod that is to stay has the key of a new one.
pub open spec fn spared(
    mine: Seq<(Seq<char>, PodV)>,
    good: Seq<NodeV>,
    fresh: Seq<(Seq<char>, PodV)>,
) -> bool {
    forall|i: int|
        0 <= i < mine.len() && on_any((#[trigger] mine[i]).1, good) && !is_surplus(
            mine.take(i),
            mine[i].1,
            good,
        ) ==> !replaced(mine[i], fresh)
}

proof fn lemma_stored_all(
    store: Map<Seq<char>, PodV>,
    fresh: Seq<(Seq<char>, PodV)>,
    key: Seq<char>,
)
    ensures
        (forall|i: int| 0 <= i < fresh.len() ==> (#[trigger] fresh[i]).0 != key) ==> (stored_all(
            store,
            fresh,
        ).contains_key(key) <==> store.contains_key(key)) && stored_all(store, fresh)[key]
            == store[key],
        (exists|i: int| 0 <= i < fresh.len() && (#[trigger] fresh[i]).0 == key) ==> exists|i: int|
            0 <= i < fresh.len() && (#[trigger] fresh[i]).0 == key && stored_all(
                store,
                fresh,
            ).contains_key(key) && stored_all(store, fresh)[key] == fresh[i].1,
    decreases fresh.len(),
{
    if fresh.len() > 0 {
        let t = fresh.drop_last();
        let n = fresh.len() - 1;
        lemma_stored_all(store, t, key);
        assert forall|i: int| 0 <= i < t.len() implies (#[trigger] t[i]) == fresh[i] by {}
        if fresh[n].0 == key {
            assert(stored_all(store, fresh)[key] == fresh[n].1);
        } else if exists|i: int| 0 <= i < fresh.len() && (#[trigger] fresh[i]).0 == key {
            let i = choose|i: int| 0 <= i < fresh.len() && (#[trigger] fresh[i]).0 == key;
            assert(t[i].0 == key);
            let j = choose|j: int|
                0 <= j < t.len() && (#[trigger] t[j]).0 == key && stored_all(store, t)[key]
                    == t[j].1;
            assert(fresh[j].0 == key);
        } else {
            assert forall|i: int| 0 <= i < t.len() implies (#[trigger] t[i]).0 != key by {
                assert(fresh[i].0 != key);
            }
        }
    }
}

proof fn lemma_deletions(mine: Seq<(Seq<char>, PodV)>, nodes: Seq<NodeV>, key: Seq<char>)
    ensures
        deletions(mine, nodes).contains(key) <==> exists|i: int|
            0 <= i < mine.len() && (#[trigger] mine[i]).0 == key && (is_orphan(mine[i].1, nodes)
                || is_surplus(mine.take(i), mine[i].1, nodes)),
    decreases mine.len(),
{
    if mine.len() > 0 {
        let t = mine.drop_last();
        let n = mine.len() - 1;
        let e = mine[n];
        lemma_deletions(t, nodes, key);
        assert(mine.take(n) =~= t);
        let goes = is_orphan(e.1, nodes) || is_surplus(t, e.1, nodes);
        let rest = deletions(t, nodes);
        let all = deletions(mine, nodes);
        if goes {
            assert(all == rest.push(e.0));
            assert(all[rest.len() as int] == e.0);
        }
        if all.contains(key) {
            let k = choose|k: int| 0 <= k < all.len() && all[k] == key;
            if k < rest.len() {
                assert(rest[k] == key);
                let i = choose|i: int|
                    0 <= i < t.len() && (#[trigger] t[i]).0 == key && (is_orphan(t[i].1, nodes)
                        || is_surplus(t.take(i), t[i].1, nodes));
                assert(t.take(i) =~= mine.take(i));
                assert(mine[i].0 == key);
            } else {
                assert(mine[n].0 == key);
            }
        }
        if exists|i: int|
            0 <= i < mine.len() && (#[trigger] mine[i]).0 == key && (is_orphan(mine[i].1, nodes)
                || is_surplus(mine.take(i), mine[i].1, nodes)) {
            let i = choose|i: int|
                0 <= i < mine.len() && (#[trigger] mine[i]).0 == key && (is_orphan(
                    mine[i].1,
                    nodes,
                ) || is_surplus(mine.take(i), mine[i].1, nodes));
            if i < n {
                assert(t.take(i) =~= mine.take(i));
                assert(t[i].0 == key);
                let k = choose|k: int| 0 <= k < rest.len() && rest[k] == key;
                assert(all[k] == key);
            }
        }
    }
}

proof fn lemma_filter_keys(s: Seq<(Seq<char>, PodV)>, owner: Seq<char>)
    requires
        keys_distinct(s),
    ensures
        keys_distinct(owned(s, owner)),
    decreases s.len(),
{
    let f = owned_rule(owner);
    reveal(Seq::filter_map);
    if s.len() > 0 {
        let t = s.drop_last();
        let n = s.len() - 1;
        assert forall|i: int, j: int| 0 <= i < j < t.len() implies (#[trigger] t[i]).0 != (
        #[trigger] t[j]).0 by {
            assert(t[i] == s[i] && t[j] == s[j]);
        }
        lemma_filter_keys(t, owner);
        lemma_filter_map_step(s, f, n);
        assert(s.take(n) =~= t);
        assert(s.take(n + 1) =~= s);
        let r = owned(s, owner);
        let q = owned(t, owner);
        if f(s[n]) is Some {
            assert(r == q.push(s[n]));
            assert forall|i: int, j: int| 0 <= i < j < r.len() implies (#[trigger] r[i]).0 != (
            #[trigger] r[j]).0 by {
                assert(r[i] == q[i]);
                if j < q.len() {
                    assert(r[j] == q[j]);
                } else {
                    assert(q.contains(q[i]));
                    t.lemma_filter_map_contains(f, q[i]);
                    let x = choose|x: int| 0 <= x < t.len() && #[trigger] f(t[x]) == Some(q[i]);
                    assert(t[x] == s[x]);
                    assert(s[x].0 != s[n].0);
                }
            }
        } else {
            assert(r == q);
        }
    }
}

/// The pods of an owner in a listing are those in the store.
proof fn lemma_owned(
    pods: Seq<(Seq<char>, PodV)>,
    store: Map<Seq<char>, PodV>,
    owner: Seq<char>,
)
    requires
        lists(pods, store),
    ensures
        keys_distinct(owned(pods, owner)),
        forall|i: int|
            0 <= i < owned(pods, owner).len() ==> store.contains_key(
                (#[trigger] owned(pods, owner)[i]).0,
            ) && store[owned(pods, owner)[i].0] == owned(pods, owner)[i].1 && owned(
                pods,
                owner,
            )[i].1.owner_ref == Some(owner),
        forall|key: Seq<char>| #[trigger]
            store.contains_key(key) && store[key].owner_ref == Some(owner) ==> exists|i: int|
                0 <= i < owned(pods, owner).len() && (#[trigger] owned(pods, owner)[i]) == (
                    key,
                    store[key],
                ),
{
    let f = owned_rule(owner);
    let mine = owned(pods, owner);
    lemma_map_of(pods);
    lemma_filter_keys(pods, owner);
    assert forall|i: int| 0 <= i < mine.len() implies store.contains_key((#[trigger] mine[i]).0)
        && store[mine[i].0] == mine[i].1 && mine[i].1.owner_ref == Some(owner) by {
        assert(mine.contains(mine[i]));
        pods.lemma_filter_map_contains(f, mine[i]);
        let x = choose|x: int| 0 <= x < pods.len() && #[trigger] f(pods[x]) == Some(mine[i]);
        assert(pods[x] == mine[i]);
    }
    assert forall|key: Seq<char>| #[trigger]
        store.contains_key(key) && store[key].owner_ref == Some(owner) implies exists|i: int|
        0 <= i < mine.len() && (#[trigger] mine[i]) == (key, store[key]) by {
        let x = choose|x: int| 0 <= x < pods.len() && (#[trigger] pods[x]).0 == key;
        assert(pods[x] == (key, store[key]));
        lemma_filter_map_has(pods, f, x);
        let k = choose|k: int| 0 <= k < mine.len() && mine[k] == f(pods[x])->0;
        assert(mine[k] == (key, store[key]));
    }
}

/// The first pod on a node.
proof fn lemma_first_on(mine: Seq<(Seq<char>, PodV)>, node: NodeV) -> (i: int)
    requires
        occupied(mine, node),
    ensures
        0 <= i < mine.len(),
        on_node(mine[i].1, node),
        !occupied(mine.take(i), node),
    decreases mine.len(),
{
    let n = mine.len() - 1;
    let t = mine.drop_last();
    if occupied(t, node) {
        let i = lemma_first_on(t, node);
        assert(t.take(i) =~= mine.take(i));
        i
    } else {
        assert(mine.take(n) =~= t);
        let k = choose|k: int| 0 <= k < mine.len() && on_node((#[trigger] mine[k]).1, node);
        if k < n {
            assert(t[k] == mine[k]);
        }
        n
    }
}

/// The keys of the pods of two daemon sets in a namespace are the same exactly if
/// their names are. Within a set that is where the nodes have the same name; over
/// sets it is where the sets and the nodes have the same names, as long as no name
/// of a node holds a hyphen.
pub proof fn law_daemon_keys_are_apart(
    ns: Seq<char>,
    a: Seq<char>,
    n: Seq<char>,
    b: Seq<char>,
    m: Seq<char>,
)
    ensures
        ns_key("pods"@, ns, daemon_name(a, n)) == ns_key("pods"@, ns, daemon_name(b, m))
            <==> daemon_name(a, n) == daemon_name(b, m),
        a == b ==> (daemon_name(a, n) == daemon_name(b, m) <==> n == m),
        !n.contains('-') && !m.contains('-') ==> (daemon_name(a, n) == daemon_name(b, m) <==> a == b
            && n == m),
{
    crate::keys::law_keys_are_apart("pods"@, ns, daemon_name(a, n), daemon_name(b, m));
    reveal_strlit("-");
    let x = daemon_name(a, n);
    let y = daemon_name(b, m);
    assert(x.len() == a.len() + 1 + n.len() && y.len() == b.len() + 1 + m.len());
    assert(x.subrange(a.len() as int + 1, x.len() as int) =~= n);
    assert(y.subrange(b.len() as int + 1, y.len() as int) =~= m);
    assert(x.take(a.len() as int) =~= a);
    assert(y.take(b.len() as int) =~= b);
    assert(x[a.len() as int] == '-' && y[b.len() as int] == '-');
    if x == y && a.len() < b.len() {
        assert(n[b.len() - a.len() - 1] == x[b.len() as int]);
        assert(n.contains('-'));
    }
    if x == y && b.len() < a.len() {
        assert(m[a.len() - b.len() - 1] == y[a.len() as int]);
        assert(m.contains('-'));
    }
}

/// Whether the pods of a daemon set are stored where the set stores them: each
/// under the key of its pod on the node that it is on.
pub open spec fn well_keyed(
    store: Map<Seq<char>, PodV>,
    ns: Seq<char>,
    ds: DaemonSetV,
    nodes: Seq<NodeV>,
) -> bool {
    forall|key: Seq<char>, n: int|
        0 <= n < nodes.len() && #[trigger] stands(store, ds.id, nodes[n], key) ==> key == ns_key(
            "pods"@,
            ns,
            daemon_name(ds.name, nodes[n].name),
        )
}

/// No new pod is stored over one that is to stay, if the pods of the set are
/// stored where the set stores them.
pub proof fn law_own_pods_are_spared(
    ns: Seq<char>,
    ds: DaemonSetV,
    good: Seq<NodeV>,
    pods: Seq<(Seq<char>, PodV)>,
    store: Map<Seq<char>, PodV>,
    fresh: Seq<(Seq<char>, PodV)>,
)
    requires
        lists(pods, store),
        nodes_apart(good),
        fills(fresh, ns, ds, vacant(good, owned(pods, ds.id))),
        well_keyed(store, ns, ds, good),
    ensures
        spared(owned(pods, ds.id), good, fresh),
{
    let mine = owned(pods, ds.id);
    let v = vacant(good, mine);
    lemma_owned(pods, store, ds.id);
    assert forall|i: int|
        0 <= i < mine.len() && on_any((#[trigger] mine[i]).1, good) && !is_surplus(
            mine.take(i),
            mine[i].1,
            good,
        ) implies !replaced(mine[i], fresh) by {
        let n = choose|n: int| 0 <= n < good.len() && on_node(mine[i].1, #[trigger] good[n]);
        assert(stands(store, ds.id, good[n], mine[i].0));
        if replaced(mine[i], fresh) {
            let j = choose|j: int| 0 <= j < fresh.len() && (#[trigger] fresh[j]).0 == mine[i].0;
            law_daemon_keys_are_apart(ns, ds.name, good[n].name, ds.name, v[j].name);
            let k = lemma_vacant_at(good, mine, j);
            assert(k == n);
            assert(occupied(mine, good[n]));
        }
    }
}

/// The pods of a set stay stored where the set stores them, from one pass to the
/// next: `good` are the eligible ones of the nodes.
pub proof fn law_daemon_keys_stay(
    ns: Seq<char>,
    ds: DaemonSetV,
    nodes: Seq<NodeV>,
    good: Seq<NodeV>,
    pods: Seq<(Seq<char>, PodV)>,
    store: Map<Seq<char>, PodV>,
    fresh: Seq<(Seq<char>, PodV)>,
)
    requires
        lists(pods, store),
        nodes_apart(nodes),
        good == eligible(nodes, ds.spec.node_selector),
        fills(fresh, ns, ds, vacant(good, owned(pods, ds.id))),
        well_keyed(store, ns, ds, nodes),
    ensures
        well_keyed(
            after_pass(store, deletions(owned(pods, ds.id), good), fresh),
            ns,
            ds,
            nodes,
        ),
{
    let mine = owned(pods, ds.id);
    let after = after_pass(store, deletions(mine, good), fresh);
    let f = eligible_rule(ds.spec.node_selector);
    lemma_owned(pods, store, ds.id);
    assert forall|key: Seq<char>, n: int|
        0 <= n < nodes.len() && #[trigger] stands(after, ds.id, nodes[n], key) implies key
        == ns_key("pods"@, ns, daemon_name(ds.name, nodes[n].name)) by {
        let x = lemma_after(ns, ds, good, pods, store, fresh, key);
        if x.0 {
            let k = lemma_vacant_at(good, mine, x.1);
            assert(good.contains(good[k]));
            nodes.lemma_filter_map_contains(f, good[k]);
            let m = choose|m: int| 0 <= m < nodes.len() && #[trigger] f(nodes[m]) == Some(good[k]);
            law_pod_is_on_one_node(fresh[x.1].1, nodes, n, m);
        } else {
            assert(stands(store, ds.id, nodes[n], key));
        }
    }
}

proof fn lemma_vacant_at(good: Seq<NodeV>, mine: Seq<(Seq<char>, PodV)>, j: int) -> (k: int)
    requires
        0 <= j < vacant(good, mine).len(),
    ensures
        0 <= k < good.len(),
        good[k] == vacant(good, mine)[j],
        !occupied(mine, good[k]),
{
    let v = vacant(good, mine);
    let f = vacant_rule(mine);
    assert(v.contains(v[j]));
    good.lemma_filter_map_contains(f, v[j]);
    let k = choose|k: int| 0 <= k < good.len() && #[trigger] f(good[k]) == Some(v[j]);
    k
}

/// What is under a key after a pass: a new pod, or one that was there and stays.
proof fn lemma_after(
    ns: Seq<char>,
    ds: DaemonSetV,
    good: Seq<NodeV>,
    pods: Seq<(Seq<char>, PodV)>,
    store: Map<Seq<char>, PodV>,
    fresh: Seq<(Seq<char>, PodV)>,
    key: Seq<char>,
) -> (r: (bool, int))
    requires
        lists(pods, store),
        fills(fresh, ns, ds, vacant(good, owned(pods, ds.id))),
        ({
            let mine = owned(pods, ds.id);
            let after = after_pass(store, deletions(mine, good), fresh);
            after.contains_key(key) && after[key].owner_ref == Some(ds.id)
        }),
    ensures
        ({
            let mine = owned(pods, ds.id);
            let after = after_pass(store, deletions(mine, good), fresh);
            if r.0 {
                0 <= r.1 < fresh.len() && fresh[r.1].0 == key && after[key] == fresh[r.1].1
            } else {
                0 <= r.1 < mine.len() && mine[r.1] == (key, after[key]) && !is_orphan(
                    mine[r.1].1,
                    good,
                ) && !is_surplus(mine.take(r.1), mine[r.1].1, good)
            }
        }),
{
    let mine = owned(pods, ds.id);
    let gone = deletions(mine, good);
    let left = store.remove_keys(gone.to_set());
    lemma_owned(pods, store, ds.id);
    lemma_stored_all(left, fresh, key);
    lemma_deletions(mine, good, key);
    if exists|i: int| 0 <= i < fresh.len() && (#[trigger] fresh[i]).0 == key {
        let i = choose|i: int|
            0 <= i < fresh.len() && (#[trigger] fresh[i]).0 == key && stored_all(left, fresh)[key]
                == fresh[i].1;
        (true, i)
    } else {
        assert(left.contains_key(key));
        assert(store.contains_key(key) && !gone.to_set().contains(key));
        assert(left[key] == store[key]);
        let i = choose|i: int| 0 <= i < mine.len() && (#[trigger] mine[i]) == (key, store[key]);
        (false, i)
    }
}

proof fn lemma_exactly_one(
    ns: Seq<char>,
    ds: DaemonSetV,
    good: Seq<NodeV>,
    pods: Seq<(Seq<char>, PodV)>,
    store: Map<Seq<char>, PodV>,
    fresh: Seq<(Seq<char>, PodV)>,
    a: int,
)
    requires
        lists(pods, store),
        nodes_apart(good),
        fills(fresh, ns, ds, vacant(good, owned(pods, ds.id))),
        spared(owned(pods, ds.id), good, fresh),
        0 <= a < good.len(),
    ensures
        exactly_one(
            after_pass(store, deletions(owned(pods, ds.id), good), fresh),
            ds.id,
            good[a],
        ),
{
    let mine = owned(pods, ds.id);
    let gone = deletions(mine, good);
    let left = store.remove_keys(gone.to_set());
    let after = after_pass(store, gone, fresh);
    let v = vacant(good, mine);
    let node = good[a];
    lemma_owned(pods, store, ds.id);
    let key = if occupied(mine, node) {
        let j = lemma_first_on(mine, node);
        let k = mine[j].0;
        assert(on_any(mine[j].1, good));
        assert(!is_surplus(mine.take(j), mine[j].1, good)) by {
            if is_surplus(mine.take(j), mine[j].1, good) {
                let n = choose|n: int|
                    0 <= n < good.len() && on_node(mine[j].1, #[trigger] good[n]) && occupied(
                        mine.take(j),
                        good[n],
                    );
                law_pod_is_on_one_node(mine[j].1, good, a, n);
            }
        }
        assert(!replaced(mine[j], fresh));
        lemma_deletions(mine, good, k);
        if gone.contains(k) {
            let i = choose|i: int|
                0 <= i < mine.len() && (#[trigger] mine[i]).0 == k && (is_orphan(mine[i].1, good)
                    || is_surplus(mine.take(i), mine[i].1, good));
            assert(i == j);
        }
        assert(!gone.to_set().contains(k));
        assert(left.contains_key(k) && left[k] == store[k]);
        lemma_stored_all(left, fresh, k);
        k
    } else {
        lemma_filter_map_has(good, vacant_rule(mine), a);
        let j = choose|j: int| 0 <= j < v.len() && v[j] == node;
        let k = fresh[j].0;
        lemma_stored_all(left, fresh, k);
        let w = choose|w: int|
            0 <= w < fresh.len() && (#[trigger] fresh[w]).0 == k && after[k] == fresh[w].1;
        law_daemon_keys_are_apart(ns, ds.name, v[j].name, ds.name, v[w].name);
        k
    };
    assert(stands(after, ds.id, node, key));
    assert forall|other: Seq<char>| #[trigger] stands(after, ds.id, node, other) implies other
        == key by {
        let x = lemma_after(ns, ds, good, pods, store, fresh, key);
        let y = lemma_after(ns, ds, good, pods, store, fresh, other);
        if x.0 {
            let k = lemma_vacant_at(good, mine, x.1);
            law_pod_is_on_one_node(fresh[x.1].1, good, a, k);
        } else {
            assert(occupied(mine, node));
        }
        if y.0 {
            let k = lemma_vacant_at(good, mine, y.1);
            law_pod_is_on_one_node(fresh[y.1].1, good, a, k);
        } else {
            assert(on_node(mine[y.1].1, node));
            assert(occupied(mine, node));
        }
        if !x.0 && !y.0 {
            if x.1 < y.1 {
                assert(mine.take(y.1)[x.1] == mine[x.1]);
                assert(occupied(mine.take(y.1), node));
            }
            if y.1 < x.1 {
                assert(mine.take(x.1)[y.1] == mine[y.1]);
                assert(occupied(mine.take(x.1), node));
            }
        }
    }
}

/// After a pass there is exactly one pod of the set on every eligible node, and
/// none is bound to any other node, whatever there was before; so the next pass
/// creates nothing and deletes nothing. The nodes are told apart by their ids and
/// names, and no new pod is stored over one that is to stay.
pub proof fn law_daemons_converge(
    ns: Seq<char>,
    ds: DaemonSetV,
    good: Seq<NodeV>,
    pods: Seq<(Seq<char>, PodV)>,
    store: Map<Seq<char>, PodV>,
    fresh: Seq<(Seq<char>, PodV)>,
    again: Seq<(Seq<char>, PodV)>,
)
    requires
        lists(pods, store),
        nodes_apart(good),
        fills(fresh, ns, ds, vacant(good, owned(pods, ds.id))),
        spared(owned(pods, ds.id), good, fresh),
        lists(again, after_pass(store, deletions(owned(pods, ds.id), good), fresh)),
    ensures
        forall|i: int|
            0 <= i < good.len() ==> exactly_one(
                after_pass(store, deletions(owned(pods, ds.id), good), fresh),
                ds.id,
                #[trigger] good[i],
            ),
        vacant(good, owned(again, ds.id)) == Seq::<NodeV>::empty(),
        deletions(owned(again, ds.id), good) == Seq::<Seq<char>>::empty(),
{
    let mine = owned(pods, ds.id);
    let gone = deletions(mine, good);
    let after = after_pass(store, gone, fresh);
    let next = owned(again, ds.id);
    lemma_owned(again, after, ds.id);
    assert forall|a: int| 0 <= a < good.len() implies exactly_one(
        after,
        ds.id,
        #[trigger] good[a],
    ) by {
        lemma_exactly_one(ns, ds, good, pods, store, fresh, a);
    }
    assert forall|a: int| 0 <= a < good.len() implies sole(next, #[trigger] good[a]) by {
        let key = choose|key: Seq<char>|
            {
                &&& #[trigger] stands(after, ds.id, good[a], key)
                &&& forall|other: Seq<char>| #[trigger]
                    stands(after, ds.id, good[a], other) ==> other == key
            };
        let i = choose|i: int| 0 <= i < next.len() && (#[trigger] next[i]) == (key, after[key]);
        assert(on_node(next[i].1, good[a]));
        assert forall|j: int| 0 <= j < next.len() && on_node(
            (#[trigger] next[j]).1,
            good[a],
        ) implies j == i by {
            assert(stands(after, ds.id, good[a], next[j].0));
        }
    }
    assert forall|i: int| 0 <= i < next.len() implies !is_orphan((#[trigger] next[i]).1, good) by {
        let x = lemma_after(ns, ds, good, pods, store, fresh, next[i].0);
        if x.0 {
            let k = lemma_vacant_at(good, mine, x.1);
            assert(on_node(next[i].1, good[k]));
        }
    }
    law_settled_daemons_stay(good, next);
}

/// Whether exactly one of the pods is on a node.
pub open spec fn sole(pods: Seq<(Seq<char>, PodV)>, node: NodeV) -> bool {
    exists|i: int|
        {
            &&& 0 <= i < pods.len()
            &&& on_node((#[trigger] pods[i]).1, node)
            &&& forall|j: int|
                0 <= j < pods.len() && on_node((#[trigger] pods[j]).1, node) ==> j == i
        }
}

/// Where every eligible node has exactly one pod and no other node has any, a pass
/// creates nothing and deletes nothing, so each pod stays the one that it is; as
/// many are desired as there are eligible nodes, and no more are ready than that.
pub proof fn law_settled_daemons_stay(good: Seq<NodeV>, mine: Seq<(Seq<char>, PodV)>)
    requires
        forall|a: int| 0 <= a < good.len() ==> sole(mine, #[trigger] good[a]),
        forall|i: int| 0 <= i < mine.len() ==> !is_orphan((#[trigger] mine[i]).1, good),
    ensures
        vacant(good, mine) == Seq::<NodeV>::empty(),
        deletions(mine, good) == Seq::<Seq<char>>::empty(),
        daemon_status(mine, good, 0).desired_number_scheduled == good.len() as u32,
        daemon_status(mine, good, 0).number_ready <= daemon_status(
            mine,
            good,
            0,
        ).desired_number_scheduled,
{
    let v = vacant(good, mine);
    if v.len() > 0 {
        let k = lemma_vacant_at(good, mine, 0);
        assert(sole(mine, good[k]));
    }
    assert(v =~= Seq::<NodeV>::empty());
    let gone = deletions(mine, good);
    if gone.len() > 0 {
        assert(gone.contains(gone[0]));
        lemma_deletions(mine, good, gone[0]);
        let i = choose|i: int|
            0 <= i < mine.len() && (#[trigger] mine[i]).0 == gone[0] && (is_orphan(
                mine[i].1,
                good,
            ) || is_surplus(mine.take(i), mine[i].1, good));
        let n = choose|n: int|
            0 <= n < good.len() && on_node(mine[i].1, #[trigger] good[n]) && occupied(
                mine.take(i),
                good[n],
            );
        let b = mine.take(i);
        let j = choose|j: int| 0 <= j < b.len() && on_node((#[trigger] b[j]).1, good[n]);
        assert(b[j] == mine[j]);
        assert(sole(mine, good[n]));
    }
    assert(gone =~= Seq::<Seq<char>>::empty());
    lemma_ready_total(mine, good);
}

proof fn lemma_ready_total(pods: Seq<(Seq<char>, PodV)>, nodes: Seq<NodeV>)
    ensures
        0 <= ready_total(pods, nodes) <= pods.len(),
    decreases pods.len(),
{
    if pods.len() > 0 {
        lemma_ready_total(pods.drop_last(), nodes);
    }
}

/// A node that has a pod never gets a second one.
pub proof fn law_no_second_daemon(good: Seq<NodeV>, mine: Seq<(Seq<char>, PodV)>, i: int)
    requires
        0 <= i < vacant(good, mine).len(),
    ensures
        !occupied(mine, vacant(good, mine)[i]),
{
    lemma_vacant_at(good, mine, i);
}

/// Whether a node is ready and its labels hold each key of a selector with the
/// selector's value.
pub open spec fn is_fit(node: NodeV, selector: Map<Seq<char>, Seq<char>>) -> bool {
    &&& node.status == NodeStatus::Ready
    &&& forall|k: Seq<char>| #[trigger]
        selector.contains_key(k) ==> node.labels.contains_key(k) && node.labels[k] == selector[k]
}

/// Whether a pod is bound, by id or by name, to a node that is fit.
pub open spec fn is_well_placed(
    pod: PodV,
    nodes: Seq<NodeV>,
    selector: Map<Seq<char>, Seq<char>>,
) -> bool {
    exists|k: int|
        0 <= k < nodes.len() && is_fit(#[trigger] nodes[k], selector) && (pod.node_name == Some(
            nodes[k].id,
        ) || pod.node_name == Some(nodes[k].name))
}

proof fn lemma_eligible_are_fit(nodes: Seq<NodeV>, selector: Map<Seq<char>, Seq<char>>)
    ensures
        eligible(nodes, selector).len() == nodes.filter(
            |n: NodeV| is_fit(n, selector),
        ).len(),
        forall|n: NodeV| #[trigger]
            eligible(nodes, selector).contains(n) <==> nodes.contains(n) && is_fit(n, selector),
    decreases nodes.len(),
{
    reveal(Seq::filter);
    reveal(Seq::filter_map);
    let rule = eligible_rule(selector);
    let good = eligible(nodes, selector);
    if nodes.len() > 0 {
        let n = nodes.len() - 1;
        lemma_filter_map_step(nodes, rule, n);
        assert(nodes.take(n + 1) =~= nodes);
        assert(nodes.take(n) =~= nodes.drop_last());
        lemma_eligible_are_fit(nodes.drop_last(), selector);
    }
    assert forall|x: NodeV| #[trigger] good.contains(x) implies nodes.contains(x) && is_fit(
        x,
        selector,
    ) by {
        nodes.lemma_filter_map_contains(rule, x);
        let k = choose|k: int| 0 <= k < nodes.len() && #[trigger] rule(nodes[k]) == Some(x);
        assert(nodes.contains(nodes[k]));
    }
    assert forall|x: NodeV| nodes.contains(x) && is_fit(x, selector) implies #[trigger] good.contains(
        x,
    ) by {
        let i = choose|i: int| 0 <= i < nodes.len() && nodes[i] == x;
        lemma_filter_map_has(nodes, rule, i);
    }
}

proof fn lemma_placed(pod: PodV, nodes: Seq<NodeV>, selector: Map<Seq<char>, Seq<char>>)
    ensures
        on_any(pod, eligible(nodes, selector)) <==> is_well_placed(pod, nodes, selector),
{
    let good = eligible(nodes, selector);
    lemma_eligible_are_fit(nodes, selector);
    if on_any(pod, good) {
        let i = choose|i: int| 0 <= i < good.len() && on_node(pod, #[trigger] good[i]);
        assert(good.contains(good[i]));
        let k = choose|k: int| 0 <= k < nodes.len() && nodes[k] == good[i];
        assert(is_fit(nodes[k], selector));
    }
    if is_well_placed(pod, nodes, selector) {
        let k = choose|k: int|
            0 <= k < nodes.len() && is_fit(#[trigger] nodes[k], selector) && (pod.node_name == Some(
                nodes[k].id,
            ) || pod.node_name == Some(nodes[k].name));
        assert(nodes.contains(nodes[k]));
        assert(good.contains(nodes[k]));
        let i = choose|i: int| 0 <= i < good.len() && good[i] == nodes[k];
        assert(on_node(pod, good[i]));
    }
}

/// A daemon set gets a pod on exactly the fit nodes on which none of its pods is.
pub proof fn law_bare_nodes_get_a_pod(
    ds: DaemonSet,
    nodes: Vec<Node>,
    pods: Vec<StoredPod>,
    r: DaemonPlan,
    node: NodeV,
)
    requires
        call_ensures(DaemonSetController::plan, (ds, &nodes, &pods), r),
    ensures
        r.create.deep_view().contains(node) <==> {
            &&& nodes.deep_view().contains(node)
            &&& is_fit(node, ds.deep_view().spec.node_selector)
            &&& forall|p: int|
                0 <= p < pods.len() && (#[trigger] pods.deep_view()[p]).1.owner_ref == Some(ds.id@)
                    ==> pods.deep_view()[p].1.node_name != Some(node.id)
                    && pods.deep_view()[p].1.node_name != Some(node.name)
        },
{
    let selector = ds.deep_view().spec.node_selector;
    let all = pods.deep_view();
    let good = eligible(nodes.deep_view(), selector);
    let mine = owned(all, ds.id@);
    let v = vacant(good, mine);
    let f = vacant_rule(mine);
    lemma_eligible_are_fit(nodes.deep_view(), selector);
    if v.contains(node) {
        good.lemma_filter_map_contains(f, node);
        let k = choose|k: int| 0 <= k < good.len() && #[trigger] f(good[k]) == Some(node);
        assert(good.contains(good[k]));
        assert forall|p: int|
            0 <= p < pods.len() && (#[trigger] pods.deep_view()[p]).1.owner_ref == Some(
                ds.id@,
            ) implies all[p].1.node_name != Some(node.id) && all[p].1.node_name != Some(
            node.name,
        ) by {
            lemma_filter_map_has(all, owned_rule(ds.id@), p);
            let m = choose|m: int| 0 <= m < mine.len() && mine[m] == all[p];
            assert(!on_node(mine[m].1, node));
        }
    }
    if nodes.deep_view().contains(node) && is_fit(node, selector) && (forall|p: int|
        0 <= p < pods.len() && (#[trigger] pods.deep_view()[p]).1.owner_ref == Some(ds.id@)
            ==> pods.deep_view()[p].1.node_name != Some(node.id)
            && pods.deep_view()[p].1.node_name != Some(node.name)) {
        assert(good.contains(node));
        let k = choose|k: int| 0 <= k < good.len() && good[k] == node;
        if occupied(mine, node) {
            let m = choose|m: int| 0 <= m < mine.len() && on_node((#[trigger] mine[m]).1, node);
            assert(mine.contains(mine[m]));
            all.lemma_filter_map_contains(owned_rule(ds.id@), mine[m]);
            let p = choose|p: int|
                0 <= p < all.len() && #[trigger] owned_rule(ds.id@)(all[p]) == Some(mine[m]);
            assert(all[p] == mine[m]);
        }
        lemma_filter_map_has(good, f, k);
    }
}

/// A daemon set gives up only pods of its own that are bound to a node: those on no
/// fit node, all of them, and those on a fit node that they share with another pod
/// of the daemon set.
pub proof fn law_misplaced_daemons_go(
    ds: DaemonSet,
    nodes: Vec<Node>,
    pods: Vec<StoredPod>,
    r: DaemonPlan,
    p: int,
)
    requires
        call_ensures(DaemonSetController::plan, (ds, &nodes, &pods), r),
        keys_distinct(pods.deep_view()),
        0 <= p < pods.len(),
    ensures
        ({
            let e = pods.deep_view()[p];
            let own = e.1.owner_ref == Some(ds.id@);
            let selector = ds.deep_view().spec.node_selector;
            let goes = r.delete.deep_view().contains(e.0);
            &&& goes ==> own && e.1.node_name is Some
            &&& own && e.1.node_name is Some && !is_well_placed(e.1, nodes.deep_view(), selector)
                ==> goes
            &&& goes && is_well_placed(e.1, nodes.deep_view(), selector) ==> exists|q: int, k: int|
                0 <= q < pods.len() && 0 <= k < nodes.len() && q != p && (
                #[trigger] pods.deep_view()[q]).1.owner_ref == Some(ds.id@) && is_fit(
                    #[trigger] nodes.deep_view()[k],
                    selector,
                ) && (e.1.node_name == Some(nodes.deep_view()[k].id) || e.1.node_name == Some(
                    nodes.deep_view()[k].name,
                )) && (pods.deep_view()[q].1.node_name == Some(nodes.deep_view()[k].id)
                    || pods.deep_view()[q].1.node_name == Some(nodes.deep_view()[k].name))
        }),
{
    let selector = ds.deep_view().spec.node_selector;
    let all = pods.deep_view();
    let ns = nodes.deep_view();
    let good = eligible(ns, selector);
    let mine = owned(all, ds.id@);
    let rule = owned_rule(ds.id@);
    let e = all[p];
    let gone = deletions(mine, good);
    lemma_placed(e.1, ns, selector);
    lemma_eligible_are_fit(ns, selector);
    lemma_deletions(mine, good, e.0);
    lemma_filter_keys(all, ds.id@);
    if gone.contains(e.0) {
        let i = choose|i: int|
            0 <= i < mine.len() && (#[trigger] mine[i]).0 == e.0 && (is_orphan(mine[i].1, good)
                || is_surplus(mine.take(i), mine[i].1, good));
        assert(mine.contains(mine[i]));
        all.lemma_filter_map_contains(rule, mine[i]);
        let x = choose|x: int| 0 <= x < all.len() && #[trigger] rule(all[x]) == Some(mine[i]);
        assert(all[x] == mine[i]);
        assert(x == p) by {
            if x < p {
                assert(all[x].0 != all[p].0);
            }
            if p < x {
                assert(all[p].0 != all[x].0);
            }
        }
        if is_well_placed(e.1, ns, selector) {
            assert(!is_orphan(mine[i].1, good));
            let before = mine.take(i);
            let n = choose|n: int|
                0 <= n < good.len() && on_node(mine[i].1, #[trigger] good[n]) && occupied(
                    before,
                    good[n],
                );
            let j = choose|j: int| 0 <= j < before.len() && on_node(
                (#[trigger] before[j]).1,
                good[n],
            );
            assert(before[j] == mine[j]);
            assert(mine[j].0 != mine[i].0);
            assert(mine.contains(mine[j]));
            all.lemma_filter_map_contains(rule, mine[j]);
            let q = choose|q: int| 0 <= q < all.len() && #[trigger] rule(all[q]) == Some(mine[j]);
            assert(all[q] == mine[j]);
            assert(good.contains(good[n]));
            let k = choose|k: int| 0 <= k < ns.len() && ns[k] == good[n];
            assert(is_fit(ns[k], selector));
            assert(q != p && all[q].1.owner_ref == Some(ds.id@));
        }
    }
    if e.1.owner_ref == Some(ds.id@) && e.1.node_name is Some && !is_well_placed(
        e.1,
        ns,
        selector,
    ) {
        lemma_filter_map_has(all, rule, p);
        let m = choose|m: int| 0 <= m < mine.len() && mine[m] == all[p];
        assert(mine[m].0 == e.0 && is_orphan(mine[m].1, good));
    }
}

proof fn lemma_ready_counts(
    pods: Seq<(Seq<char>, PodV)>,
    owner: Seq<char>,
    nodes: Seq<NodeV>,
    selector: Map<Seq<char>, Seq<char>>,
)
    ensures
        ready_total(owned(pods, owner), eligible(nodes, selector)) == pods.filter(
            |e: (Seq<char>, PodV)|
                e.1.owner_ref == Some(owner) && (e.1.status == PodStatus::Running || e.1.status
                    == PodStatus::Scheduled) && is_well_placed(e.1, nodes, selector),
        ).len(),
    decreases pods.len(),
{
    reveal(Seq::filter);
    let rule = owned_rule(owner);
    if pods.len() == 0 {
        reveal(Seq::filter_map);
    } else {
        let n = pods.len() - 1;
        lemma_filter_map_step(pods, rule, n);
        assert(pods.take(n + 1) =~= pods);
        assert(pods.take(n) =~= pods.drop_last());
        lemma_ready_counts(pods.drop_last(), owner, nodes, selector);
        lemma_placed(pods[n].1, nodes, selector);
        let before = owned(pods.drop_last(), owner);
        match rule(pods[n]) {
            Some(x) => {
                assert(before.push(x).drop_last() =~= before);
                assert(before.push(x).last() == x);
            },
            None => {},
        }
    }
}

/// A daemon set wants as many pods as nodes are fit, and counts as ready those of
/// its pods that run or are scheduled on a fit node, with those that the pass
/// creates, up to what it wants.
pub proof fn law_daemons_are_counted(
    ds: DaemonSet,
    nodes: Vec<Node>,
    pods: Vec<StoredPod>,
    r: DaemonPlan,
)
    requires
        call_ensures(DaemonSetController::plan, (ds, &nodes, &pods), r),
        nodes.len() + pods.len() <= u32::MAX,
    ensures
        ({
            let selector = ds.deep_view().spec.node_selector;
            let all = nodes.deep_view();
            let wanted = all.filter(|n: NodeV| is_fit(n, selector)).len();
            let ready = pods.deep_view().filter(
                |e: (Seq<char>, PodV)|
                    e.1.owner_ref == Some(ds.id@) && (e.1.status == PodStatus::Running
                        || e.1.status == PodStatus::Scheduled) && is_well_placed(
                        e.1,
                        all,
                        selector,
                    ),
            ).len() + r.create.len();
            let s = r.daemonset.status;
            &&& s.desired_number_scheduled == wanted
            &&& s.current_number_scheduled == wanted
            &&& ready <= wanted ==> s.number_ready == ready
            &&& ready > wanted ==> s.number_ready == wanted
            &&& r.daemonset.deep_view().spec == ds.deep_view().spec
            &&& r.daemonset.id@ == ds.id@
            &&& r.daemonset.name@ == ds.name@
        }),
{
    let selector = ds.deep_view().spec.node_selector;
    lemma_eligible_are_fit(nodes.deep_view(), selector);
    lemma_ready_counts(pods.deep_view(), ds.id@, nodes.deep_view(), selector);
    lemma_filter_no_longer(nodes.deep_view(), |n: NodeV| is_fit(n, selector));
}

proof fn lemma_filter_no_longer<A>(s: Seq<A>, f: spec_fn(A) -> bool)
    ensures
        s.filter(f).len() <= s.len(),
    decreases s.len(),
{
    reveal(Seq::filter);
    if s.len() > 0 {
        lemma_filter_no_longer(s.drop_last(), f);
    }
}

/// The pod of a daemon set on a node belongs to the daemon set, is bound to that
/// node by name, runs the template and is named after both.
pub proof fn law_daemon_pod_is_bound(
    ns: &str,
    ds: DaemonSet,
    node: Node,
    id: &str,
    now: i128,
    r: Pod,
)
    requires
        call_ensures(DaemonSetController::daemon_pod, (ns, &ds, &node, id, now), r),
    ensures
        r.id@ == id@,
        r.name@ == ds.name@ + "-"@ + node.name@,
        r.namespace@ == ns@,
        r.deep_view().node_name == Some(node.name@),
        r.deep_view().owner_ref == Some(ds.id@),
        r.deep_view().spec == ds.deep_view().spec.template,
        r.deep_view().labels == ds.deep_view().spec.node_selector,
        r.status == PodStatus::Scheduled,
        r.restart_count == 0,
        r.created_at == now,
{
}

/// A pod that is made for a node is the one made under its id, and has an id of its own.
pub proof fn law_created_daemon_is_the_made_one(
    ns: &str,
    ds: DaemonSet,
    node: Node,
    id: &str,
    now: i128,
    r: Pod,
    q: Pod,
)
    requires
        call_ensures(DaemonSetController::create_pod_on_node, (ns, &ds, &node, now), r),
        call_ensures(DaemonSetController::daemon_pod, (ns, &ds, &node, id, now), q),
        id@ == r.id@,
    ensures
        r.deep_view() == q.deep_view(),
        r.id@.len() == 36,
{
}

} // verus!
