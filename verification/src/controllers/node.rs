//! Node health, and the eviction of pods from failed nodes.
use vstd::prelude::*;
use crate::collections::{lemma_filter_map_step, Labels};
#[allow(unused_imports)]
use crate::collections::lemma_filter_map_has;
use crate::controllers::replicaset::StoredPod;
use crate::model::{is_on_any, Node, NodeStatus, Pod, PodStatus};
#[allow(unused_imports)]
use crate::model::{on_any, on_node, NodeV, PodV};
use crate::time::age;
#[allow(unused_imports)]
use crate::time::{age_of, valid_time};

verus! {

/// A node with the key that it is stored under.
pub type StoredNode = (String, Node);

/// Whether labels mark a node as one that runs the control plane.
pub open spec fn is_master(labels: Map<Seq<char>, Seq<char>>) -> bool {
    labels.contains_key("node-role.kubernetes.io/master"@) || labels.contains_key(
        "node-role.kubernetes.io/control-plane"@,
    )
}

/// Decides whether labels mark a control plane node.
pub fn master(labels: &Labels) -> (r: bool)
    ensures
        r == is_master(labels.deep_view()),
{
    labels.contains_key("node-role.kubernetes.io/master") || labels.contains_key(
        "node-role.kubernetes.io/control-plane",
    )
}

/// The health of a node by the age of its last heartbeat: not ready and unknown
/// from the thresholds on. A control plane node sends none and is ready.
pub open spec fn health(c: NodeController, node: NodeV, now: i128) -> NodeStatus {
    let a = age_of(now, node.last_heartbeat);
    if is_master(node.labels) {
        NodeStatus::Ready
    } else if a >= c.unknown_threshold_secs * 1_000_000_000 {
        NodeStatus::Unknown
    } else if a >= c.not_ready_threshold_secs * 1_000_000_000 {
        NodeStatus::NotReady
    } else {
        NodeStatus::Ready
    }
}

/// Updates the nodes whose health has changed.
pub open spec fn health_rule(c: NodeController, now: i128) -> spec_fn((Seq<char>, NodeV)) -> Option<
    (Seq<char>, NodeV),
> {
    |e: (Seq<char>, NodeV)|
        if e.1.status != health(c, e.1, now) {
            Some((e.0, NodeV { status: health(c, e.1, now), ..e.1 }))
        } else {
            None
        }
}

/// Whether all last heartbeats lie in the range that the library computes with.
pub open spec fn times_valid(nodes: Seq<NodeV>) -> bool {
    forall|i: int| 0 <= i < nodes.len() ==> valid_time((#[trigger] nodes[i]).last_heartbeat)
}

/// Monitors node health by heartbeats.
pub struct NodeController {
    /// Seconds between two passes.
    pub check_interval_secs: u64,
    /// Seconds without a heartbeat after which a node is not ready.
    pub not_ready_threshold_secs: u64,
    /// Seconds without a heartbeat after which a node is unknown.
    pub unknown_threshold_secs: u64,
}

impl NodeController {
    /// A controller with the standard thresholds.
    pub fn new() -> (r: Self)
        ensures
            r.check_interval_secs == 15,
            r.not_ready_threshold_secs == 30,
            r.unknown_threshold_secs == 60,
    {
        NodeController {
            check_interval_secs: 15,
            not_ready_threshold_secs: 30,
            unknown_threshold_secs: 60,
        }
    }

    /// Decides the health of a node.
    pub fn assess(&self, node: &Node, now: i128) -> (r: NodeStatus)
        requires
            valid_time(now),
            valid_time(node.last_heartbeat),
        ensures
            r == health(*self, node.deep_view(), now),
    {
        let a: i128 = age(now, node.last_heartbeat);
        if master(&node.labels) {
            NodeStatus::Ready
        } else if a >= (self.unknown_threshold_secs as i128) * 1_000_000_000 {
            NodeStatus::Unknown
        } else if a >= (self.not_ready_threshold_secs as i128) * 1_000_000_000 {
            NodeStatus::NotReady
        } else {
            NodeStatus::Ready
        }
    }

    /// One pass: the nodes to store again, with their new status.
    pub fn reconcile(&self, nodes: &Vec<StoredNode>, now: i128) -> (r: Vec<StoredNode>)
        requires
            valid_time(now),
            forall|i: int| 0 <= i < nodes@.len() ==> valid_time((#[trigger] nodes@[i]).1.last_heartbeat),
        ensures
            r.deep_view() == nodes.deep_view().filter_map(health_rule(*self, now)),
    {
        let ghost all = nodes.deep_view();
        let ghost f = health_rule(*self, now);
        let mut out: Vec<StoredNode> = Vec::new();
        let mut i: usize = 0;
        assert(all.take(0) =~= Seq::<(Seq<char>, NodeV)>::empty());
        assert(out.deep_view() =~= Seq::<(Seq<char>, NodeV)>::empty());
        while i < nodes.len()
            invariant
                i <= nodes@.len(),
                all == nodes.deep_view(),
                f == health_rule(*self, now),
                valid_time(now),
                forall|i: int|
                    0 <= i < nodes@.len() ==> valid_time((#[trigger] nodes@[i]).1.last_heartbeat),
                out.deep_view() == all.take(i as int).filter_map(f),
            decreases nodes@.len() - i,
        {
            proof {
                lemma_filter_map_step(all, f, i as int);
            }
            let status: NodeStatus = self.assess(&nodes[i].1, now);
            if nodes[i].1.status != status {
                let mut n: Node = nodes[i].1.clone();
                n.status = status;
                let ghost before = out.deep_view();
                out.push((nodes[i].0.clone(), n));
                assert(out.deep_view() =~= before.push(f(all[i as int])->0));
            }
            i = i + 1;
        }
        assert(all.take(i as int) =~= all);
        out
    }
}

// ---------------------------------------------------------------------------
// Eviction
// ---------------------------------------------------------------------------

/// Whether a node has been unknown past the grace period.
pub open spec fn has_failed(c: EvictionController, node: NodeV, now: i128) -> bool {
    !is_master(node.labels) && node.status == NodeStatus::Unknown && age_of(
        now,
        node.last_heartbeat,
    ) >= c.grace_period_secs * 1_000_000_000
}

/// Keeps the failed nodes.
pub open spec fn failed_rule(c: EvictionController, now: i128) -> spec_fn(NodeV) -> Option<NodeV> {
    |n: NodeV|
        if has_failed(c, n, now) {
            Some(n)
        } else {
            None
        }
}

/// A pod taken off its node, to be scheduled again.
pub open spec fn released(pod: PodV) -> PodV {
    PodV { node_name: None, status: PodStatus::Pending, ..pod }
}

/// Releases the pods under way on failed nodes.
pub open spec fn evict_rule(failed: Seq<NodeV>) -> spec_fn((Seq<char>, PodV)) -> Option<
    (Seq<char>, PodV),
> {
    |e: (Seq<char>, PodV)|
        if on_any(e.1, failed) && e.1.status != PodStatus::Pending && e.1.status
            != PodStatus::Succeeded && e.1.status != PodStatus::Failed {
            Some((e.0, released(e.1)))
        } else {
            None
        }
}

/// Reschedules the pods of failed nodes.
pub struct EvictionController {
    /// Seconds between two passes.
    pub check_interval_secs: u64,
    /// Seconds that a node may be unknown before its pods are evicted.
    pub grace_period_secs: u64,
}

impl EvictionController {
    /// A controller with the standard grace period.
    pub fn new() -> (r: Self)
        ensures
            r.check_interval_secs == 30,
            r.grace_period_secs == 300,
    {
        EvictionController { check_interval_secs: 30, grace_period_secs: 300 }
    }

    /// The nodes that have failed.
    pub fn failed_nodes(&self, nodes: &Vec<Node>, now: i128) -> (r: Vec<Node>)
        requires
            valid_time(now),
            times_valid(nodes.deep_view()),
        ensures
            r.deep_view() == nodes.deep_view().filter_map(failed_rule(*self, now)),
    {
        let ghost all = nodes.deep_view();
        let ghost f = failed_rule(*self, now);
        let mut out: Vec<Node> = Vec::new();
        let mut i: usize = 0;
        assert(all.take(0) =~= Seq::<NodeV>::empty());
        assert(out.deep_view() =~= Seq::<NodeV>::empty());
        while i < nodes.len()
            invariant
                i <= nodes@.len(),
                all == nodes.deep_view(),
                f == failed_rule(*self, now),
                valid_time(now),
                times_valid(all),
                out.deep_view() == all.take(i as int).filter_map(f),
            decreases nodes@.len() - i,
        {
            proof {
                lemma_filter_map_step(all, f, i as int);
                assert(valid_time(all[i as int].last_heartbeat));
            }
            let n: &Node = &nodes[i];
            if !master(&n.labels) && n.status == NodeStatus::Unknown && age(now, n.last_heartbeat)
                >= (self.grace_period_secs as i128) * 1_000_000_000 {
                let ghost before = out.deep_view();
                out.push(n.clone());
                assert(out.deep_view() =~= before.push(all[i as int]));
            }
            i = i + 1;
        }
        assert(all.take(i as int) =~= all);
        out
    }

    /// The pods to store again, released from the failed nodes.
    pub fn evictions(failed: &Vec<Node>, pods: &Vec<StoredPod>) -> (r: Vec<StoredPod>)
        ensures
            r.deep_view() == pods.deep_view().filter_map(evict_rule(failed.deep_view())),
    {
        let ghost all = pods.deep_view();
        let ghost f = evict_rule(failed.deep_view());
        let mut out: Vec<StoredPod> = Vec::new();
        let mut i: usize = 0;
        assert(all.take(0) =~= Seq::<(Seq<char>, PodV)>::empty());
        assert(out.deep_view() =~= Seq::<(Seq<char>, PodV)>::empty());
        while i < pods.len()
            invariant
                i <= pods@.len(),
                all == pods.deep_view(),
                f == evict_rule(failed.deep_view()),
                out.deep_view() == all.take(i as int).filter_map(f),
            decreases pods@.len() - i,
        {
            proof {
                lemma_filter_map_step(all, f, i as int);
            }
            let p: &Pod = &pods[i].1;
            if is_on_any(p, failed) && p.status != PodStatus::Pending && p.status != PodStatus::Succeeded
                && p.status != PodStatus::Failed {
                let ghost before = out.deep_view();
                out.push((pods[i].0.clone(), release(p)));
                assert(out.deep_view() =~= before.push(f(all[i as int])->0));
            }
            i = i + 1;
        }
        assert(all.take(i as int) =~= all);
        out
    }

    /// One pass: the pods to store again. Without failed nodes there are none.
    pub fn reconcile(&self, nodes: &Vec<Node>, pods: &Vec<StoredPod>, now: i128) -> (r: Vec<
        StoredPod,
    >)
        requires
            valid_time(now),
            times_valid(nodes.deep_view()),
        ensures
            r.deep_view() == pods.deep_view().filter_map(
                evict_rule(nodes.deep_view().filter_map(failed_rule(*self, now))),
            ),
    {
        let failed: Vec<Node> = self.failed_nodes(nodes, now);
        Self::evictions(&failed, pods)
    }
}

/// Takes a pod off its node.
pub fn release(pod: &Pod) -> (r: Pod)
    ensures
        r.deep_view() == released(pod.deep_view()),
{
    let mut p: Pod = pod.clone();
    p.node_name = None;
    p.status = PodStatus::Pending;
    p
}

// ---------------------------------------------------------------------------
// Laws
// ---------------------------------------------------------------------------

/// How far a status is from ready.
pub open spec fn severity(s: NodeStatus) -> int {
    match s {
        NodeStatus::Ready => 0,
        NodeStatus::NotReady => 1,
        NodeStatus::Unknown => 2,
    }
}

/// Without a heartbeat a node only gets worse: ready, then not ready, then unknown.
pub proof fn law_health_only_degrades(
    c: NodeController,
    node: NodeV,
    earlier: i128,
    later: i128,
)
    requires
        earlier <= later,
    ensures
        severity(health(c, node, earlier)) <= severity(health(c, node, later)),
{
}

/// A heartbeat makes a node ready again, unless the thresholds are zero.
pub proof fn law_heartbeat_restores(c: NodeController, node: NodeV, now: i128)
    requires
        c.not_ready_threshold_secs > 0,
        c.unknown_threshold_secs > 0,
    ensures
        health(c, NodeV { last_heartbeat: now, ..node }, now) == NodeStatus::Ready,
{
}

/// A node past the grace period fails as soon as a health pass has seen it, if
/// the grace period is not shorter than what makes it unknown.
pub proof fn law_silence_leads_to_failure(
    c: NodeController,
    e: EvictionController,
    node: NodeV,
    now: i128,
)
    requires
        c.unknown_threshold_secs <= e.grace_period_secs,
        !is_master(node.labels),
        age_of(now, node.last_heartbeat) >= e.grace_period_secs * 1_000_000_000,
    ensures
        has_failed(e, NodeV { status: health(c, node, now), ..node }, now),
{
}

/// An evicted pod is not evicted again, and a pod that has ended never is.
pub proof fn law_eviction_is_final(failed: Seq<NodeV>, key: Seq<char>, pod: PodV)
    ensures
        evict_rule(failed)((key, released(pod))) is None,
        pod.status == PodStatus::Succeeded || pod.status == PodStatus::Failed ==> evict_rule(
            failed,
        )((key, pod)) is None,
{
}

/// The health of a node follows from its last heartbeat alone: from the unknown
/// threshold on it is unknown, from the lower threshold on it is not ready, and
/// before that it is ready. A node with a control plane label is always ready.
pub proof fn law_health_follows_the_heartbeat(
    c: NodeController,
    node: Node,
    now: i128,
    r: NodeStatus,
)
    requires
        call_ensures(NodeController::assess, (&c, &node, now), r),
    ensures
        ({
            let labels = node.deep_view().labels;
            let plane = labels.contains_key("node-role.kubernetes.io/master"@)
                || labels.contains_key("node-role.kubernetes.io/control-plane"@);
            let silent = if now >= node.last_heartbeat {
                now - node.last_heartbeat
            } else {
                0
            };
            &&& plane ==> r == NodeStatus::Ready
            &&& !plane ==> (r == NodeStatus::Unknown <==> silent >= c.unknown_threshold_secs
                * 1_000_000_000)
            &&& !plane ==> (r == NodeStatus::Ready <==> silent < c.not_ready_threshold_secs
                * 1_000_000_000 && silent < c.unknown_threshold_secs * 1_000_000_000)
        }),
{
}

/// A pass stores exactly the nodes whose health differs from their status, under
/// their keys, with that health and nothing else changed.
pub proof fn law_health_is_stored(
    c: NodeController,
    nodes: Vec<StoredNode>,
    now: i128,
    r: Vec<StoredNode>,
    i: int,
    s: NodeStatus,
)
    requires
        call_ensures(NodeController::reconcile, (&c, &nodes, now), r),
        0 <= i < nodes.len(),
        call_ensures(NodeController::assess, (&c, &nodes[i].1, now), s),
    ensures
        nodes[i].1.status != s ==> exists|n: int|
            0 <= n < r.len() && (#[trigger] r.deep_view()[n]) == (
                nodes[i].0@,
                NodeV { status: s, ..nodes[i].1.deep_view() },
            ),
        forall|n: int|
            0 <= n < r.len() ==> exists|k: int|
                0 <= k < nodes.len() && (#[trigger] r.deep_view()[n]).0 == (
                #[trigger] nodes.deep_view()[k]).0 && r.deep_view()[n].1.status
                    != nodes.deep_view()[k].1.status && r.deep_view()[n].1 == (NodeV {
                    status: r.deep_view()[n].1.status,
                    ..nodes.deep_view()[k].1
                }),
{
    let all = nodes.deep_view();
    let f = health_rule(c, now);
    let out = r.deep_view();
    assert(all[i] == nodes[i].deep_view());
    if nodes[i].1.status != s {
        lemma_filter_map_has(all, f, i);
        let n = choose|n: int| 0 <= n < out.len() && out[n] == f(all[i])->0;
        assert(out[n] == (nodes[i].0@, NodeV { status: s, ..nodes[i].1.deep_view() }));
    }
    assert forall|n: int| 0 <= n < r.len() implies exists|k: int|
        0 <= k < nodes.len() && (#[trigger] r.deep_view()[n]).0 == (
        #[trigger] nodes.deep_view()[k]).0 && r.deep_view()[n].1.status
            != nodes.deep_view()[k].1.status && r.deep_view()[n].1 == (NodeV {
            status: r.deep_view()[n].1.status,
            ..nodes.deep_view()[k].1
        }) by {
        assert(out.contains(out[n]));
        all.lemma_filter_map_contains(f, out[n]);
        let e = choose|e: (Seq<char>, NodeV)| #[trigger] all.contains(e) && f(e) == Some(out[n]);
        let k = choose|k: int| 0 <= k < all.len() && all[k] == e;
        assert(all[k] == e);
    }
}

/// A pass of evictions takes a pod off its node exactly where that node carries no
/// control plane label, is unknown and has been silent for the grace period, and
/// the pod is neither waiting nor at its end. The pod then waits to be placed
/// again, and nothing else of it changes.
pub proof fn law_pods_of_failed_nodes_are_released(
    c: EvictionController,
    nodes: Vec<Node>,
    pods: Vec<StoredPod>,
    now: i128,
    r: Vec<StoredPod>,
    n: int,
)
    requires
        call_ensures(EvictionController::reconcile, (&c, &nodes, &pods, now), r),
        0 <= n < r.len(),
    ensures
        exists|p: int, k: int|
            0 <= p < pods.len() && 0 <= k < nodes.len() && ({
                let before = #[trigger] pods.deep_view()[p];
                let node = #[trigger] nodes.deep_view()[k];
                let after = r.deep_view()[n];
                &&& after.0 == before.0
                &&& after.1.node_name is None
                &&& after.1.status == PodStatus::Pending
                &&& after.1 == (PodV {
                    node_name: None,
                    status: PodStatus::Pending,
                    ..before.1
                })
                &&& before.1.node_name == Some(node.id) || before.1.node_name == Some(node.name)
                &&& before.1.status == PodStatus::Scheduled || before.1.status
                    == PodStatus::ContainerCreating || before.1.status == PodStatus::Running
                &&& node.status == NodeStatus::Unknown
                &&& !node.labels.contains_key("node-role.kubernetes.io/master"@)
                &&& !node.labels.contains_key("node-role.kubernetes.io/control-plane"@)
                &&& c.grace_period_secs > 0 ==> now - node.last_heartbeat >= c.grace_period_secs
                    * 1_000_000_000
            }),
{
    let all = pods.deep_view();
    let ns = nodes.deep_view();
    let g = failed_rule(c, now);
    let failed = ns.filter_map(g);
    let f = evict_rule(failed);
    let out = r.deep_view();
    assert(out.contains(out[n]));
    all.lemma_filter_map_contains(f, out[n]);
    let e = choose|e: (Seq<char>, PodV)| #[trigger] all.contains(e) && f(e) == Some(out[n]);
    let p = choose|p: int| 0 <= p < all.len() && all[p] == e;
    let x = choose|x: int| 0 <= x < failed.len() && on_node(e.1, #[trigger] failed[x]);
    assert(failed.contains(failed[x]));
    ns.lemma_filter_map_contains(g, failed[x]);
    let node = choose|y: NodeV| #[trigger] ns.contains(y) && g(y) == Some(failed[x]);
    let k = choose|k: int| 0 <= k < ns.len() && ns[k] == node;
    assert(all[p] == e && ns[k] == node);
}

/// Every pod that is scheduled, starting or running on a node that failed is
/// released by the pass.
pub proof fn law_no_pod_is_left_on_a_failed_node(
    c: EvictionController,
    nodes: Vec<Node>,
    pods: Vec<StoredPod>,
    now: i128,
    r: Vec<StoredPod>,
    p: int,
    k: int,
)
    requires
        call_ensures(EvictionController::reconcile, (&c, &nodes, &pods, now), r),
        0 <= p < pods.len(),
        0 <= k < nodes.len(),
        nodes[k].status == NodeStatus::Unknown,
        !nodes[k].deep_view().labels.contains_key("node-role.kubernetes.io/master"@),
        !nodes[k].deep_view().labels.contains_key("node-role.kubernetes.io/control-plane"@),
        now - nodes[k].last_heartbeat >= c.grace_period_secs * 1_000_000_000,
        pods.deep_view()[p].1.node_name == Some(nodes[k].id@) || pods.deep_view()[p].1.node_name
            == Some(nodes[k].name@),
        pods.deep_view()[p].1.status == PodStatus::Scheduled || pods.deep_view()[p].1.status
            == PodStatus::ContainerCreating || pods.deep_view()[p].1.status == PodStatus::Running,
    ensures
        exists|n: int|
            0 <= n < r.len() && #[trigger] r.deep_view()[n] == (
                pods.deep_view()[p].0,
                PodV { node_name: None, status: PodStatus::Pending, ..pods.deep_view()[p].1 },
            ),
{
    let all = pods.deep_view();
    let ns = nodes.deep_view();
    let g = failed_rule(c, now);
    let failed = ns.filter_map(g);
    let f = evict_rule(failed);
    let out = r.deep_view();
    assert(ns[k] == nodes[k].deep_view());
    lemma_filter_map_has(ns, g, k);
    let x = choose|x: int| 0 <= x < failed.len() && failed[x] == g(ns[k])->0;
    assert(on_node(all[p].1, failed[x]));
    lemma_filter_map_has(all, f, p);
    let n = choose|n: int| 0 <= n < out.len() && out[n] == f(all[p])->0;
    assert(out[n] == (all[p].0, released(all[p].1)));
}

} // verus!
