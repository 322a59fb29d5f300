//! Nodes: how they register, report and are taken out of service.
use vstd::prelude::*;
use vstd::string::*;
#[allow(unused_imports)]
use vstd::utf8::encode_utf8;
use crate::api::reply::{json_reply, reply, text_reply, Reply};
#[allow(unused_imports)]
use crate::api::reply::{answer, json_answer, one_text, ReplyV};
use crate::collections::{clone_labels, lemma_filter_map_step, Labels, StrMap};
#[allow(unused_imports)]
use crate::collections::lemma_filter_map_has;
use crate::constants::DEFAULT_AGENT_API_PORT;
use crate::controllers::node::{release, StoredNode};
#[allow(unused_imports)]
use crate::controllers::node::released;
use crate::controllers::replicaset::StoredPod;
use crate::ids::fresh_id;
#[allow(unused_imports)]
use crate::ids::is_uuid;
use crate::json::{text, Fields, Json};
#[allow(unused_imports)]
use crate::json::{field, json_in, text_field, JsonV};
use crate::keys::key_of;
#[allow(unused_imports)]
use crate::keys::cluster_key;
use crate::model::{is_on_node, Node, NodeStatus, ResourceRequirements, Taint, TaintEffect};
#[allow(unused_imports)]
use crate::model::{on_node, NodeV, PodStatus, PodV, ResourceRequirementsV, TaintV};
use crate::text::{cat, str_eq};
use crate::time::now;
#[allow(unused_imports)]
use crate::time::valid_time;
#[allow(unused_imports)]
use crate::json::{lemma_plain_key, plain_key};

verus! {

broadcast use crate::json::group_plain;

/// The keys of the objects that are written here are plain.
proof fn lemma_keys()
    ensures
        plain_key("evicted_pods"@),
        plain_key("status"@),
{
    reveal_strlit("evicted_pods");
    reveal_strlit("status");
    lemma_plain_key("evicted_pods"@);
    lemma_plain_key("status"@);
}

// ---------------------------------------------------------------------------
// Registration
// ---------------------------------------------------------------------------

/// A node's request to join.
#[derive(Debug)]
pub struct NodeRegistrationRequest {
    /// The join token.
    pub token: String,
    /// Name of the node.
    pub node_name: String,
    /// Labels of the node.
    pub labels: Labels,
}

/// What a node is handed when it joins.
#[derive(Debug)]
pub struct NodeRegistrationResponse {
    /// Id of the node.
    pub node_id: String,
    /// Its certificate.
    pub certificate: String,
    /// Its private key.
    pub private_key: String,
    /// The certificate of the cluster's authority.
    pub server_ca: String,
}

/// Why a token does not let a node join, if it does not.
pub open spec fn token_fault(token: Seq<char>, join_token: Seq<char>) -> Option<ReplyV> {
    if token.len() == 0 {
        Some(answer(401, "Missing join token"@))
    } else if token != join_token {
        Some(answer(403, "Invalid join token"@))
    } else {
        None
    }
}

/// Checks the token of a node that wants to join.
pub fn check_join_token(token: &str, join_token: &str) -> (r: Option<Reply>)
    ensures
        r.deep_view() == token_fault(token@, join_token@),
{
    if token.is_empty() {
        Some(reply(401, "Missing join token"))
    } else if !str_eq(token, join_token) {
        Some(reply(403, "Invalid join token"))
    } else {
        None
    }
}

/// A node that has joined.
pub open spec fn new_node(
    id: Seq<char>,
    name: Seq<char>,
    labels: Map<Seq<char>, Seq<char>>,
    taints: Seq<TaintV>,
    now: i128,
) -> NodeV {
    NodeV {
        id,
        name,
        status: NodeStatus::Ready,
        registered_at: now,
        last_heartbeat: now,
        labels,
        taints,
        capacity: ResourceRequirementsV { cpu_millis: 0, memory_bytes: 0 },
        allocated: ResourceRequirementsV { cpu_millis: 0, memory_bytes: 0 },
        unschedulable: false,
        address: Seq::empty(),
        agent_api_port: DEFAULT_AGENT_API_PORT,
    }
}

fn make_node(id: &str, name: &str, labels: Labels, taints: Vec<Taint>, now: i128) -> (r: Node)
    ensures
        r.deep_view() == new_node(id@, name@, labels.deep_view(), taints.deep_view(), now),
{
    Node {
        id: id.to_owned(),
        name: name.to_owned(),
        status: NodeStatus::Ready,
        registered_at: now,
        last_heartbeat: now,
        labels,
        taints,
        capacity: ResourceRequirements { cpu_millis: 0, memory_bytes: 0 },
        allocated: ResourceRequirements { cpu_millis: 0, memory_bytes: 0 },
        unschedulable: false,
        address: String::new(),
        agent_api_port: DEFAULT_AGENT_API_PORT,
    }
}

/// What joining comes to: a node to store under a key, and an answer.
pub struct Registration {
    /// The key of the node.
    pub key: String,
    /// The node.
    pub node: Node,
    /// The answer.
    pub response: NodeRegistrationResponse,
}

/// Decides on a request to join, with the certificate and key that were issued,
/// if they were.
pub fn register_as(
    request: &NodeRegistrationRequest,
    join_token: &str,
    issued: Option<(String, String)>,
    ca_cert: &str,
    id: &str,
    now: i128,
) -> (r: Result<Registration, Reply>)
    ensures
        match r {
            Ok(x) => {
                &&& token_fault(request.token@, join_token@) is None
                &&& issued is Some
                &&& x.key@ == cluster_key("nodes"@, request.node_name@)
                &&& x.node.deep_view() == new_node(
                    id@,
                    request.node_name@,
                    request.labels.deep_view(),
                    Seq::empty(),
                    now,
                )
                &&& x.response.node_id@ == id@
                &&& x.response.certificate@ == (issued->0).0@
                &&& x.response.private_key@ == (issued->0).1@
                &&& x.response.server_ca@ == ca_cert@
            },
            Err(e) => match token_fault(request.token@, join_token@) {
                Some(f) => e.deep_view() == f,
                None => issued is None && e.deep_view() == answer(
                    500,
                    "Certificate generation failed"@,
                ),
            },
        },
{
    if let Some(e) = check_join_token(request.token.as_str(), join_token) {
        return Err(e);
    }
    match issued {
        Some(pair) => {
            let taints: Vec<Taint> = Vec::new();
            assert(taints.deep_view() =~= Seq::<TaintV>::empty());
            let node: Node = make_node(
                id,
                request.node_name.as_str(),
                clone_labels(&request.labels),
                taints,
                now,
            );
            Ok(
                Registration {
                    key: key_of("nodes", request.node_name.as_str()),
                    node,
                    response: NodeRegistrationResponse {
                        node_id: id.to_owned(),
                        certificate: pair.0,
                        private_key: pair.1,
                        server_ca: ca_cert.to_owned(),
                    },
                },
            )
        },
        None => Err(reply(500, "Certificate generation failed")),
    }
}

/// Decides on a request to join, under a fresh id, now.
pub fn register_node(
    request: &NodeRegistrationRequest,
    join_token: &str,
    issued: Option<(String, String)>,
    ca_cert: &str,
) -> (r: Result<Registration, Reply>)
    ensures
        r is Ok <==> token_fault(request.token@, join_token@) is None && issued is Some,
        match r {
            Ok(x) => {
                &&& is_uuid(x.node.id@)
                &&& valid_time(x.node.registered_at)
                &&& x.key@ == cluster_key("nodes"@, request.node_name@)
                &&& x.node.deep_view() == new_node(
                    x.node.id@,
                    request.node_name@,
                    request.labels.deep_view(),
                    Seq::empty(),
                    x.node.registered_at,
                )
                &&& x.response.node_id@ == x.node.id@
                &&& x.response.certificate@ == (issued->0).0@
                &&& x.response.private_key@ == (issued->0).1@
                &&& x.response.server_ca@ == ca_cert@
            },
            Err(e) => match token_fault(request.token@, join_token@) {
                Some(f) => e.deep_view() == f,
                None => e.deep_view() == answer(500, "Certificate generation failed"@),
            },
        },
{
    let id: String = fresh_id();
    let t: i128 = now();
    let r: Result<Registration, Reply> = register_as(
        request,
        join_token,
        issued,
        ca_cert,
        id.as_str(),
        t,
    );
    proof {
        if let Ok(x) = &r {
            assert(x.node.deep_view().id == id@);
            assert(x.node.deep_view().registered_at == t);
        }
    }
    r
}

/// The answer to a node that could not be stored: it could not be written down,
/// or not be persisted.
pub fn registration_failed(written: bool) -> (r: Reply)
    ensures
        r.deep_view() == if written {
            answer(500, "Failed to persist node"@)
        } else {
            answer(500, "Serialization failed"@)
        },
{
    if written {
        reply(500, "Failed to persist node")
    } else {
        reply(500, "Serialization failed")
    }
}

/// The node that a server seeds for itself.
pub open spec fn master_node(id: Seq<char>, name: Seq<char>, now: i128) -> NodeV {
    new_node(
        id,
        name,
        map![
            "node-role.kubernetes.io/master"@ => "true"@,
            "node-role.kubernetes.io/control-plane"@ => "true"@
        ],
        seq![
            TaintV {
                key: "node-role.kubernetes.io/control-plane"@,
                value: Seq::empty(),
                effect: TaintEffect::NoSchedule,
            },
        ],
        now,
    )
}

/// The node to seed for a server, with its key, under a fresh id; none where it
/// is there already.
pub fn seed_master_node(name: &str, present: bool, now: i128) -> (r: Option<StoredNode>)
    ensures
        r is Some <==> !present,
        match r {
            Some(x) => {
                &&& is_uuid(x.1.id@)
                &&& x.0@ == cluster_key("nodes"@, name@)
                &&& x.1.deep_view() == master_node(x.1.id@, name@, now)
            },
            None => true,
        },
{
    if present {
        None
    } else {
        let id: String = fresh_id();
        Some(master_node_as(name, id.as_str(), now))
    }
}

/// Makes the node that a server seeds for itself, and its key, under a given id.
pub fn master_node_as(name: &str, id: &str, now: i128) -> (r: StoredNode)
    ensures
        r.0@ == cluster_key("nodes"@, name@),
        r.1.deep_view() == master_node(id@, name@, now),
{
    let mut labels: Labels = StrMap::new();
    labels.insert("node-role.kubernetes.io/master".to_owned(), "true".to_owned());
    labels.insert("node-role.kubernetes.io/control-plane".to_owned(), "true".to_owned());
    let mut taints: Vec<Taint> = Vec::new();
    taints.push(
        Taint {
            key: "node-role.kubernetes.io/control-plane".to_owned(),
            value: String::new(),
            effect: TaintEffect::NoSchedule,
        },
    );
    proof {
        assert(taints@[0].deep_view().value =~= Seq::<char>::empty());
        assert(taints.deep_view() =~= master_node(id@, name@, now).taints);
    }
    (key_of("nodes", name), make_node(id, name, labels, taints, now))
}

// ---------------------------------------------------------------------------
// Heartbeats
// ---------------------------------------------------------------------------

/// The position of the first node of a name.
pub open spec fn first_named(nodes: Seq<(Seq<char>, NodeV)>, name: Seq<char>) -> Option<int>
    decreases nodes.len(),
{
    if nodes.len() == 0 {
        None
    } else {
        match first_named(nodes.drop_last(), name) {
            Some(i) => Some(i),
            None => if nodes.last().1.name == name {
                Some(nodes.len() - 1)
            } else {
                None
            },
        }
    }
}

fn find_node(nodes: &Vec<StoredNode>, name: &str) -> (r: Option<usize>)
    ensures
        match r {
            Some(i) => i < nodes@.len() && first_named(nodes.deep_view(), name@) == Some(i as int),
            None => first_named(nodes.deep_view(), name@) is None,
        },
{
    let ghost all = nodes.deep_view();
    let mut i: usize = 0;
    assert(all.take(0) =~= Seq::<(Seq<char>, NodeV)>::empty());
    while i < nodes.len()
        invariant
            i <= nodes@.len(),
            all == nodes.deep_view(),
            first_named(all.take(i as int), name@) is None,
        decreases nodes@.len() - i,
    {
        proof {
            assert(all.take(i + 1).drop_last() =~= all.take(i as int));
            assert(all.take(i + 1).last().1 == nodes@[i as int].1.deep_view());
        }
        if str_eq(nodes[i].1.name.as_str(), name) {
            proof {
                assert(first_named(all.take(i + 1), name@) == Some(i as int));
                lemma_first_stays(all, name@, i + 1);
            }
            return Some(i);
        }
        i = i + 1;
    }
    assert(all.take(i as int) =~= all);
    None
}

/// What is found early stays found.
proof fn lemma_first_stays(nodes: Seq<(Seq<char>, NodeV)>, name: Seq<char>, n: int)
    requires
        0 <= n <= nodes.len(),
        first_named(nodes.take(n), name) is Some,
    ensures
        first_named(nodes, name) == first_named(nodes.take(n), name),
    decreases nodes.len() - n,
{
    if n < nodes.len() {
        assert(nodes.take(n + 1).drop_last() =~= nodes.take(n));
        lemma_first_stays(nodes, name, n + 1);
    } else {
        assert(nodes.take(n) =~= nodes);
    }
}

/// A node that was heard of.
pub open spec fn heard(node: NodeV, now: i128) -> NodeV {
    NodeV { last_heartbeat: now, status: NodeStatus::Ready, ..node }
}

/// Takes in a heartbeat: the node to store again, if there is one of that name.
pub fn node_heartbeat(nodes: &Vec<StoredNode>, name: &str, now: i128) -> (r: Option<StoredNode>)
    ensures
        r.deep_view() == match first_named(nodes.deep_view(), name@) {
            Some(i) => Some(
                (nodes.deep_view()[i].0, heard(nodes.deep_view()[i].1, now)),
            ),
            None => None,
        },
{
    match find_node(nodes, name) {
        Some(i) => {
            let mut node: Node = nodes[i].1.clone();
            node.last_heartbeat = now;
            node.status = NodeStatus::Ready;
            assert(nodes.deep_view()[i as int] == (
                nodes@[i as int].0@,
                nodes@[i as int].1.deep_view(),
            ));
            Some((nodes[i].0.clone(), node))
        },
        None => None,
    }
}

/// The answer to a heartbeat: whether nodes could be listed, one was found, and
/// it was stored.
pub fn heartbeat_reply(listed: bool, found: bool, stored: bool) -> (r: Reply)
    ensures
        r.deep_view() == if !listed {
            answer(500, Seq::empty())
        } else if !found {
            answer(404, Seq::empty())
        } else if !stored {
            answer(500, Seq::empty())
        } else {
            json_answer(200, one_text("status"@, "ok"@))
        },
{
    proof {
        lemma_keys();
    }
    if listed && found && stored {
        text_reply(200, "status", "ok")
    } else if listed && !found {
        Reply { status: 404, body: String::new() }
    } else {
        Reply { status: 500, body: String::new() }
    }
}

// ---------------------------------------------------------------------------
// Cordon, uncordon, drain
// ---------------------------------------------------------------------------

/// The key of the taint of a node that takes no pods.
pub open spec fn cordon_key() -> Seq<char> {
    "node.kubernetes.io/unschedulable"@
}

/// The taint of a node that takes no pods.
pub open spec fn cordon_taint() -> TaintV {
    TaintV { key: cordon_key(), value: "true"@, effect: TaintEffect::NoSchedule }
}

/// Whether a taint of a key is among some taints.
pub open spec fn has_taint(taints: Seq<TaintV>, key: Seq<char>) -> bool {
    exists|i: int| 0 <= i < taints.len() && (#[trigger] taints[i]).key == key
}

/// The taint, unless it is that of a node that takes no pods.
pub open spec fn other_taint() -> spec_fn(TaintV) -> Option<TaintV> {
    |t: TaintV|
        if t.key != cordon_key() {
            Some(t)
        } else {
            None
        }
}

/// A node that takes no pods.
pub open spec fn cordoned(node: NodeV) -> NodeV {
    NodeV {
        unschedulable: true,
        taints: if has_taint(node.taints, cordon_key()) {
            node.taints
        } else {
            node.taints.push(cordon_taint())
        },
        ..node
    }
}

/// A node that takes pods again.
pub open spec fn uncordoned(node: NodeV) -> NodeV {
    NodeV {
        unschedulable: false,
        status: NodeStatus::Ready,
        taints: node.taints.filter_map(other_taint()),
        ..node
    }
}

/// A node that is being emptied.
pub open spec fn drained(node: NodeV) -> NodeV {
    NodeV { status: NodeStatus::NotReady, ..cordoned(node) }
}

/// Marks a node as unschedulable.
pub fn cordon(node: &Node) -> (r: Node)
    ensures
        r.deep_view() == cordoned(node.deep_view()),
{
    let mut n: Node = node.clone();
    n.unschedulable = true;
    let ghost all = n.taints.deep_view();
    let mut found: bool = false;
    let mut i: usize = 0;
    while i < n.taints.len()
        invariant
            i <= n.taints@.len(),
            all == n.taints.deep_view(),
            found == exists|j: int| 0 <= j < i && (#[trigger] all[j]).key == cordon_key(),
        decreases n.taints@.len() - i,
    {
        assert(all[i as int] == n.taints@[i as int].deep_view());
        if str_eq(n.taints[i].key.as_str(), "node.kubernetes.io/unschedulable") {
            found = true;
        }
        i = i + 1;
    }
    assert(found == has_taint(all, cordon_key()));
    if !found {
        n.taints.push(
            Taint {
                key: "node.kubernetes.io/unschedulable".to_owned(),
                value: "true".to_owned(),
                effect: TaintEffect::NoSchedule,
            },
        );
        assert(n.taints.deep_view() =~= all.push(cordon_taint()));
    }
    n
}

/// Marks a node as schedulable again.
pub fn uncordon(node: &Node) -> (r: Node)
    ensures
        r.deep_view() == uncordoned(node.deep_view()),
{
    let ghost all = node.taints.deep_view();
    let mut kept: Vec<Taint> = Vec::new();
    let mut i: usize = 0;
    proof {
        assert(all.take(0) =~= Seq::<TaintV>::empty());
        reveal(Seq::filter_map);
        assert(kept.deep_view() =~= all.take(0).filter_map(other_taint()));
    }
    while i < node.taints.len()
        invariant
            i <= node.taints@.len(),
            all == node.taints.deep_view(),
            kept.deep_view() == all.take(i as int).filter_map(other_taint()),
        decreases node.taints@.len() - i,
    {
        let ghost before = kept.deep_view();
        proof {
            lemma_filter_map_step(all, other_taint(), i as int);
            assert(all[i as int] == node.taints@[i as int].deep_view());
        }
        if !str_eq(node.taints[i].key.as_str(), "node.kubernetes.io/unschedulable") {
            kept.push(node.taints[i].clone());
            assert(kept.deep_view() =~= before.push(all[i as int]));
        }
        i = i + 1;
    }
    assert(all.take(i as int) =~= all);
    let mut n: Node = node.clone();
    n.unschedulable = false;
    n.status = NodeStatus::Ready;
    n.taints = kept;
    n
}

/// What is done to a node on request.
#[derive(Debug, Clone, Copy, PartialEq, Eq, Structural)]
pub enum NodeAction {
    /// Take no more pods.
    Cordon,
    /// Take pods again.
    Uncordon,
    /// Take no more pods and give up those it has.
    Drain,
}

/// A node after a request.
pub open spec fn acted(action: NodeAction, node: NodeV) -> NodeV {
    match action {
        NodeAction::Cordon => cordoned(node),
        NodeAction::Uncordon => uncordoned(node),
        NodeAction::Drain => drained(node),
    }
}

/// Finds a node by its name and changes it: the node to store again, or what is
/// said where there is none.
pub fn find_and_update_node(nodes: &Vec<StoredNode>, name: &str, action: NodeAction) -> (r: Result<
    StoredNode,
    String,
>)
    ensures
        match (r, first_named(nodes.deep_view(), name@)) {
            (Ok(x), Some(i)) => x.deep_view() == (
                nodes.deep_view()[i].0,
                acted(action, nodes.deep_view()[i].1),
            ),
            (Err(e), None) => e@ == "Node not found: "@ + name@,
            _ => false,
        },
{
    match find_node(nodes, name) {
        Some(i) => {
            assert(nodes.deep_view()[i as int] == (
                nodes@[i as int].0@,
                nodes@[i as int].1.deep_view(),
            ));
            let node: Node = match action {
                NodeAction::Cordon => cordon(&nodes[i].1),
                NodeAction::Uncordon => uncordon(&nodes[i].1),
                NodeAction::Drain => {
                    let mut n: Node = cordon(&nodes[i].1);
                    n.status = NodeStatus::NotReady;
                    n
                },
            };
            Ok((nodes[i].0.clone(), node))
        },
        None => Err(cat("Node not found: ", name)),
    }
}

/// What becomes of a request about a node: the node to store again, or the
/// answer that there is none.
pub open spec fn node_changed(
    nodes: Seq<(Seq<char>, NodeV)>,
    name: Seq<char>,
    action: NodeAction,
) -> Result<(Seq<char>, NodeV), ReplyV> {
    match first_named(nodes, name) {
        Some(i) => Ok((nodes[i].0, acted(action, nodes[i].1))),
        None => Err(answer(500, "Node not found: "@ + name)),
    }
}

/// Whether a result is the given one.
pub open spec fn is_change(
    r: Result<StoredNode, Reply>,
    v: Result<(Seq<char>, NodeV), ReplyV>,
) -> bool {
    match (r, v) {
        (Ok(a), Ok(b)) => a.deep_view() == b,
        (Err(a), Err(b)) => a.deep_view() == b,
        _ => false,
    }
}

fn change_node(nodes: &Vec<StoredNode>, name: &str, action: NodeAction) -> (r: Result<
    StoredNode,
    Reply,
>)
    ensures
        is_change(r, node_changed(nodes.deep_view(), name@, action)),
{
    match find_and_update_node(nodes, name, action) {
        Ok(x) => Ok(x),
        Err(e) => Err(action_failed(e.as_str())),
    }
}

/// Marks a node as unschedulable.
pub fn cordon_node(nodes: &Vec<StoredNode>, name: &str) -> (r: Result<StoredNode, Reply>)
    ensures
        is_change(r, node_changed(nodes.deep_view(), name@, NodeAction::Cordon)),
{
    change_node(nodes, name, NodeAction::Cordon)
}

/// Marks a node as schedulable again.
pub fn uncordon_node(nodes: &Vec<StoredNode>, name: &str) -> (r: Result<StoredNode, Reply>)
    ensures
        is_change(r, node_changed(nodes.deep_view(), name@, NodeAction::Uncordon)),
{
    change_node(nodes, name, NodeAction::Uncordon)
}

/// Marks a node as unschedulable and not ready, before its pods are evicted.
pub fn drain_node(nodes: &Vec<StoredNode>, name: &str) -> (r: Result<StoredNode, Reply>)
    ensures
        is_change(r, node_changed(nodes.deep_view(), name@, NodeAction::Drain)),
{
    change_node(nodes, name, NodeAction::Drain)
}

/// A pod on a node, released from it.
pub open spec fn drain_rule(node: NodeV) -> spec_fn((Seq<char>, PodV)) -> Option<
    (Seq<char>, PodV),
> {
    |e: (Seq<char>, PodV)|
        if on_node(e.1, node) {
            Some((e.0, released(e.1)))
        } else {
            None
        }
}

/// The pods to store again when a node is drained: all of its pods, to be
/// scheduled anew.
pub fn drain_pods(pods: &Vec<StoredPod>, node: &Node) -> (r: Vec<StoredPod>)
    ensures
        r.deep_view() == pods.deep_view().filter_map(drain_rule(node.deep_view())),
{
    let ghost all = pods.deep_view();
    let ghost f = drain_rule(node.deep_view());
    let mut out: Vec<StoredPod> = Vec::new();
    let mut i: usize = 0;
    proof {
        assert(all.take(0) =~= Seq::<(Seq<char>, PodV)>::empty());
        reveal(Seq::filter_map);
        assert(out.deep_view() =~= all.take(0).filter_map(f));
    }
    while i < pods.len()
        invariant
            i <= pods@.len(),
            all == pods.deep_view(),
            f == drain_rule(node.deep_view()),
            out.deep_view() == all.take(i as int).filter_map(f),
        decreases pods@.len() - i,
    {
        proof {
            lemma_filter_map_step(all, f, i as int);
            assert(all[i as int] == (pods@[i as int].0@, pods@[i as int].1.deep_view()));
        }
        if is_on_node(&pods[i].1, node) {
            let ghost before = out.deep_view();
            out.push((pods[i].0.clone(), release(&pods[i].1)));
            assert(out.deep_view() =~= before.push(f(all[i as int])->0));
        }
        i = i + 1;
    }
    assert(all.take(i as int) =~= all);
    out
}

/// What the answer to a drained node says.
pub open spec fn drained_value(evicted: u32) -> JsonV {
    JsonV::Object(
        map![
            "status"@ => JsonV::Text("drained"@),
            "evicted_pods"@ => JsonV::UInt(evicted as u64)
        ],
    )
}

/// The answer to a request that was carried out; `evicted` counts the pods that
/// a drained node gave up.
pub fn action_done(action: NodeAction, evicted: u32) -> (r: Reply)
    ensures
        r.deep_view() == match action {
            NodeAction::Cordon => json_answer(200, one_text("status"@, "cordoned"@)),
            NodeAction::Uncordon => json_answer(200, one_text("status"@, "uncordoned"@)),
            NodeAction::Drain => json_answer(200, drained_value(evicted)),
        },
        json_in(encode_utf8(r.body@)) == Some(
            match action {
                NodeAction::Cordon => one_text("status"@, "cordoned"@),
                NodeAction::Uncordon => one_text("status"@, "uncordoned"@),
                NodeAction::Drain => drained_value(evicted),
            },
        ),
{
    proof {
        lemma_keys();
    }
    match action {
        NodeAction::Cordon => text_reply(200, "status", "cordoned"),
        NodeAction::Uncordon => text_reply(200, "status", "uncordoned"),
        NodeAction::Drain => {
            let j: Json = Fields::new().with("status", text("drained")).with(
                "evicted_pods",
                Json::UInt(evicted as u64),
            ).object();
            assert(j.deep_view() == drained_value(evicted));
            json_reply(200, j)
        },
    }
}

/// The answer to a request that failed.
pub fn action_failed(error: &str) -> (r: Reply)
    ensures
        r.deep_view() == answer(500, error@),
{
    reply(500, error)
}

// ---------------------------------------------------------------------------
// Laws
// ---------------------------------------------------------------------------

proof fn lemma_other_taints(s: Seq<TaintV>)
    requires
        !has_taint(s, cordon_key()),
    ensures
        s.filter_map(other_taint()) == s,
    decreases s.len(),
{
    reveal(Seq::filter_map);
    if s.len() > 0 {
        let t = s.drop_last();
        let n = s.len() - 1;
        assert(!has_taint(t, cordon_key())) by {
            if has_taint(t, cordon_key()) {
                let i = choose|i: int| 0 <= i < t.len() && (#[trigger] t[i]).key == cordon_key();
                assert(s[i].key == cordon_key());
            }
        }
        lemma_other_taints(t);
        assert(s[n].key != cordon_key());
        assert(s.take(n + 1) =~= s);
        assert(s.take(n) =~= t);
        lemma_filter_map_step(s, other_taint(), n);
        assert(t.push(s[n]) =~= s);
    } else {
        assert(s.filter_map(other_taint()) =~= s);
    }
}

proof fn lemma_no_cordon_left(s: Seq<TaintV>)
    ensures
        !has_taint(s.filter_map(other_taint()), cordon_key()),
    decreases s.len(),
{
    reveal(Seq::filter_map);
    if s.len() > 0 {
        let t = s.drop_last();
        let n = s.len() - 1;
        let r = s.filter_map(other_taint());
        lemma_no_cordon_left(t);
        assert(s.take(n + 1) =~= s);
        assert(s.take(n) =~= t);
        lemma_filter_map_step(s, other_taint(), n);
        if has_taint(r, cordon_key()) {
            let i = choose|i: int| 0 <= i < r.len() && (#[trigger] r[i]).key == cordon_key();
            if i < t.filter_map(other_taint()).len() {
                assert(t.filter_map(other_taint())[i].key == cordon_key());
            }
        }
    }
}

/// Uncordoning undoes cordoning: a ready node that took pods is as before, and
/// so is what it was tainted with.
pub proof fn law_uncordon_undoes_cordon(node: NodeV)
    requires
        !node.unschedulable,
        node.status == NodeStatus::Ready,
        !has_taint(node.taints, cordon_key()),
    ensures
        uncordoned(cordoned(node)) == node,
        uncordoned(drained(node)) == node,
{
    let t = node.taints;
    let p = t.push(cordon_taint());
    reveal(Seq::filter_map);
    lemma_other_taints(t);
    assert(p.take(t.len() as int) =~= t);
    assert(p.take((t.len() + 1) as int) =~= p);
    lemma_filter_map_step(p, other_taint(), t.len() as int);
    assert(uncordoned(cordoned(node)) =~= node);
    assert(uncordoned(drained(node)) =~= node);
}

/// Cordoning twice is cordoning once; a cordoned node has the taint and takes no
/// pods, an uncordoned one has it no more.
pub proof fn law_cordon_is_idempotent(node: NodeV)
    ensures
        cordoned(cordoned(node)) == cordoned(node),
        cordoned(node).unschedulable,
        has_taint(cordoned(node).taints, cordon_key()),
        !uncordoned(node).unschedulable,
        !has_taint(uncordoned(node).taints, cordon_key()),
        uncordoned(uncordoned(node)) == uncordoned(node),
{
    let c = cordoned(node);
    if !has_taint(node.taints, cordon_key()) {
        assert(c.taints[node.taints.len() as int].key == cordon_key());
    }
    assert(has_taint(c.taints, cordon_key()));
    lemma_no_cordon_left(node.taints);
    lemma_other_taints(uncordoned(node).taints);
    assert(uncordoned(uncordoned(node)) =~= uncordoned(node));
}

/// A drained node keeps no pod: every pod that was on it is stored again without
/// a node, to be scheduled anew.
pub proof fn law_drain_empties_the_node(pods: Seq<(Seq<char>, PodV)>, node: NodeV, i: int)
    requires
        0 <= i < pods.len(),
        on_node(pods[i].1, node),
    ensures
        pods.filter_map(drain_rule(node)).contains((pods[i].0, released(pods[i].1))),
        !on_node(released(pods[i].1), node),
{
    let f = drain_rule(node);
    crate::collections::lemma_filter_map_has(pods, f, i);
    let r = pods.filter_map(f);
    let k = choose|k: int| 0 <= k < r.len() && r[k] == f(pods[i])->0;
    assert(r[k] == (pods[i].0, released(pods[i].1)));
}

/// Only a node that shows the join token joins.
pub proof fn law_join_takes_the_token(token: Seq<char>, join_token: Seq<char>)
    ensures
        token_fault(token, join_token) is None <==> token.len() > 0 && token == join_token,
{
}

/// A node joins exactly where it shows the join token, which is not empty, and a
/// certificate was issued to it: it is ready, can take pods, carries its labels and
/// no taints, and is handed the certificate. Without a token it is turned away with
/// 401, with a wrong one with 403.
pub proof fn law_node_joins_with_the_token(
    request: NodeRegistrationRequest,
    join_token: &str,
    issued: Option<(String, String)>,
    ca_cert: &str,
    id: &str,
    now: i128,
    r: Result<Registration, Reply>,
)
    requires
        call_ensures(register_as, (&request, join_token, issued, ca_cert, id, now), r),
    ensures
        r is Ok <==> request.token@.len() > 0 && request.token@ == join_token@ && issued is Some,
        r matches Err(e) ==> {
            &&& request.token@.len() == 0 ==> e.status == 401
            &&& request.token@.len() > 0 && request.token@ != join_token@ ==> e.status == 403
            &&& request.token@.len() > 0 && request.token@ == join_token@ ==> e.status == 500
        },
        r matches Ok(x) ==> {
            &&& x.key@ == "/registry/"@ + "nodes"@ + "/"@ + request.node_name@
            &&& x.node.id@ == id@
            &&& x.node.name@ == request.node_name@
            &&& x.node.status == NodeStatus::Ready
            &&& x.node.registered_at == now
            &&& x.node.last_heartbeat == now
            &&& !x.node.unschedulable
            &&& x.node.taints.len() == 0
            &&& x.node.deep_view().labels == request.labels.deep_view()
            &&& x.node.agent_api_port == 10250
            &&& x.response.node_id@ == id@
            &&& x.response.certificate@ == (issued->0).0@
            &&& x.response.private_key@ == (issued->0).1@
            &&& x.response.server_ca@ == ca_cert@
        },
{
    if r is Ok {
        let x = r->Ok_0;
        assert(x.node.taints.deep_view().len() == x.node.taints.len());
    }
}

/// The control plane node carries both of its labels and a taint that keeps pods
/// off it, and is ready; it is made only where it is missing.
pub proof fn law_control_plane_keeps_pods_off(
    name: &str,
    id: &str,
    present: bool,
    now: i128,
    r: StoredNode,
    seeded: Option<StoredNode>,
)
    requires
        call_ensures(master_node_as, (name, id, now), r),
        call_ensures(seed_master_node, (name, present, now), seeded),
    ensures
        r.0@ == "/registry/"@ + "nodes"@ + "/"@ + name@,
        r.1.name@ == name@,
        r.1.status == NodeStatus::Ready,
        r.1.deep_view().labels.contains_key("node-role.kubernetes.io/master"@),
        r.1.deep_view().labels.contains_key("node-role.kubernetes.io/control-plane"@),
        exists|i: int|
            0 <= i < r.1.deep_view().taints.len() && (#[trigger] r.1.deep_view().taints[i]).effect
                == TaintEffect::NoSchedule && r.1.deep_view().taints[i].key
                == "node-role.kubernetes.io/control-plane"@,
        seeded is Some <==> !present,
        seeded matches Some(x) ==> x.0@ == r.0@ && x.1.name@ == name@ && x.1.last_heartbeat == now
            && x.1.deep_view().labels == r.1.deep_view().labels && x.1.deep_view().taints
            == r.1.deep_view().taints,
{
    assert(r.1.deep_view().taints[0].effect == TaintEffect::NoSchedule);
}

proof fn lemma_first_named(nodes: Seq<(Seq<char>, NodeV)>, name: Seq<char>)
    ensures
        match first_named(nodes, name) {
            Some(i) => 0 <= i < nodes.len() && nodes[i].1.name == name && forall|j: int|
                0 <= j < i ==> (#[trigger] nodes[j]).1.name != name,
            None => forall|j: int| 0 <= j < nodes.len() ==> (#[trigger] nodes[j]).1.name != name,
        },
    decreases nodes.len(),
{
    if nodes.len() > 0 {
        let init = nodes.drop_last();
        lemma_first_named(init, name);
        match first_named(init, name) {
            Some(i) => {
                assert(nodes[i] == init[i]);
                assert forall|j: int| 0 <= j < i implies (#[trigger] nodes[j]).1.name != name by {
                    assert(nodes[j] == init[j]);
                }
            },
            None => {
                assert forall|j: int| 0 <= j < init.len() implies (
                #[trigger] nodes[j]).1.name != name by {
                    assert(nodes[j] == init[j]);
                }
                assert(nodes[nodes.len() - 1] == nodes.last());
            },
        }
    }
}

/// A heartbeat makes the first node with the name ready and takes its time, and
/// changes nothing else of it; without such a node nothing is stored.
pub proof fn law_heartbeat_is_taken(
    nodes: Vec<StoredNode>,
    name: &str,
    now: i128,
    r: Option<StoredNode>,
    i: int,
)
    requires
        call_ensures(node_heartbeat, (&nodes, name, now), r),
        0 <= i <= nodes.len(),
        forall|j: int| 0 <= j < i ==> (#[trigger] nodes.deep_view()[j]).1.name != name@,
        i < nodes.len() ==> nodes.deep_view()[i].1.name == name@,
    ensures
        i == nodes.len() ==> r is None,
        i < nodes.len() ==> r is Some && ({
            let before = nodes.deep_view()[i];
            let after = r->0.deep_view();
            &&& after.0 == before.0
            &&& after.1.status == NodeStatus::Ready
            &&& after.1.last_heartbeat == now
            &&& after.1 == (NodeV { status: NodeStatus::Ready, last_heartbeat: now, ..before.1 })
        }),
{
    lemma_first_named(nodes.deep_view(), name@);
}

/// Cordoning, uncordoning and draining act on the first node with the name, store
/// it under its key, and fail where there is none.
///
/// A cordoned or drained node takes no pods and is tainted so; its other taints
/// stay, and only draining changes its status, to not ready. An uncordoned node
/// takes pods again, is ready, has lost that taint and kept the others.
pub proof fn law_nodes_are_cordoned(
    nodes: Vec<StoredNode>,
    name: &str,
    i: int,
    cordoned_to: Result<StoredNode, Reply>,
    uncordoned_to: Result<StoredNode, Reply>,
    drained_to: Result<StoredNode, Reply>,
    t: TaintV,
)
    requires
        call_ensures(cordon_node, (&nodes, name), cordoned_to),
        call_ensures(uncordon_node, (&nodes, name), uncordoned_to),
        call_ensures(drain_node, (&nodes, name), drained_to),
        0 <= i <= nodes.len(),
        forall|j: int| 0 <= j < i ==> (#[trigger] nodes.deep_view()[j]).1.name != name@,
        i < nodes.len() ==> nodes.deep_view()[i].1.name == name@,
    ensures
        i == nodes.len() ==> cordoned_to is Err && uncordoned_to is Err && drained_to is Err
            && cordoned_to->Err_0.status == 500,
        i < nodes.len() ==> cordoned_to is Ok && uncordoned_to is Ok && drained_to is Ok && ({
            let before = nodes.deep_view()[i];
            let off = cordoned_to->Ok_0.deep_view();
            let on = uncordoned_to->Ok_0.deep_view();
            let empty = drained_to->Ok_0.deep_view();
            let key = "node.kubernetes.io/unschedulable"@;
            &&& off.0 == before.0 && on.0 == before.0 && empty.0 == before.0
            &&& off.1.unschedulable && !on.1.unschedulable && empty.1.unschedulable
            &&& off.1.status == before.1.status
            &&& on.1.status == NodeStatus::Ready
            &&& empty.1.status == NodeStatus::NotReady
            &&& exists|a: int| 0 <= a < off.1.taints.len() && (#[trigger] off.1.taints[a]).key == key
            &&& empty.1.taints == off.1.taints
            &&& forall|a: int| 0 <= a < on.1.taints.len() ==> (#[trigger] on.1.taints[a]).key != key
            &&& before.1.taints.contains(t) ==> off.1.taints.contains(t)
            &&& off.1.taints.contains(t) && !before.1.taints.contains(t) ==> t.key == key
                && t.effect == TaintEffect::NoSchedule
            &&& t.key != key ==> (on.1.taints.contains(t) <==> before.1.taints.contains(t))
            &&& off.1.id == before.1.id && on.1.id == before.1.id && empty.1.id == before.1.id
            &&& off.1.labels == before.1.labels && on.1.labels == before.1.labels
            &&& off.1.last_heartbeat == before.1.last_heartbeat
        }),
{
    let all = nodes.deep_view();
    lemma_first_named(all, name@);
    if i < nodes.len() {
        let before = all[i].1;
        let s = before.taints;
        let off = cordoned(before);
        let on = uncordoned(before);
        lemma_no_cordon_left(s);
        if has_taint(s, cordon_key()) {
            let a = choose|a: int| 0 <= a < s.len() && (#[trigger] s[a]).key == cordon_key();
            assert(off.taints[a].key == cordon_key());
        } else {
            assert(off.taints[s.len() as int].key == cordon_key());
            if s.contains(t) {
                let k = choose|k: int| 0 <= k < s.len() && s[k] == t;
                assert(off.taints[k] == t);
            }
            if off.taints.contains(t) {
                let k = choose|k: int| 0 <= k < off.taints.len() && off.taints[k] == t;
                if k < s.len() {
                    assert(s[k] == t);
                }
            }
        }
        if on.taints.contains(t) {
            s.lemma_filter_map_contains(other_taint(), t);
            let k = choose|k: int| 0 <= k < s.len() && #[trigger] other_taint()(s[k]) == Some(t);
            assert(s[k] == t);
        }
        if s.contains(t) && t.key != cordon_key() {
            let k = choose|k: int| 0 <= k < s.len() && s[k] == t;
            lemma_filter_map_has(s, other_taint(), k);
        }
    }
}

/// Draining takes every pod off the node, whatever its status, and no other pod;
/// each then waits to be placed again and is otherwise unchanged.
pub proof fn law_drain_releases_the_pods(
    pods: Vec<StoredPod>,
    node: Node,
    r: Vec<StoredPod>,
    p: int,
    n: int,
)
    requires
        call_ensures(drain_pods, (&pods, &node), r),
        0 <= p < pods.len(),
    ensures
        pods.deep_view()[p].1.node_name == Some(node.id@) || pods.deep_view()[p].1.node_name
            == Some(node.name@) ==> exists|k: int|
            0 <= k < r.len() && #[trigger] r.deep_view()[k] == (
                pods.deep_view()[p].0,
                PodV { node_name: None, status: PodStatus::Pending, ..pods.deep_view()[p].1 },
            ),
        0 <= n < r.len() ==> exists|k: int|
            0 <= k < pods.len() && (#[trigger] pods.deep_view()[k]).0 == r.deep_view()[n].0 && (
            pods.deep_view()[k].1.node_name == Some(node.id@) || pods.deep_view()[k].1.node_name
                == Some(node.name@)) && r.deep_view()[n].1 == (PodV {
                node_name: None,
                status: PodStatus::Pending,
                ..pods.deep_view()[k].1
            }),
{
    let all = pods.deep_view();
    let f = drain_rule(node.deep_view());
    let out = r.deep_view();
    if on_node(all[p].1, node.deep_view()) {
        lemma_filter_map_has(all, f, p);
        let k = choose|k: int| 0 <= k < out.len() && out[k] == f(all[p])->0;
        assert(out[k] == (all[p].0, released(all[p].1)));
    }
    if 0 <= n < r.len() {
        assert(out.contains(out[n]));
        all.lemma_filter_map_contains(f, out[n]);
        let k = choose|k: int| 0 <= k < all.len() && #[trigger] f(all[k]) == Some(out[n]);
        assert(all[k].0 == out[n].0);
    }
}

/// A node joins exactly where its token is the cluster's, which is not empty, and a
/// certificate was issued for it: it is then ready, bears its own name and labels, can
/// be given pods, and is told its id and what was issued. A missing token and a wrong
/// one are told apart.
pub proof fn law_registration_follows_the_token(
    request: NodeRegistrationRequest,
    join_token: &str,
    issued: Option<(String, String)>,
    ca_cert: &str,
    r: Result<Registration, Reply>,
)
    requires
        call_ensures(register_node, (&request, join_token, issued, ca_cert), r),
    ensures
        r is Ok <==> request.token@.len() > 0 && request.token@ == join_token@ && issued is Some,
        request.token@.len() == 0 ==> r is Err && r->Err_0.status == 401,
        request.token@.len() > 0 && request.token@ != join_token@ ==> r is Err && r->Err_0.status
            == 403,
        request.token@.len() > 0 && request.token@ == join_token@ && issued is None ==> r is Err
            && r->Err_0.status == 500,
        r matches Ok(x) ==> {
            &&& x.key@ == "/registry/"@ + "nodes"@ + "/"@ + request.node_name@
            &&& x.node.name@ == request.node_name@
            &&& x.node.deep_view().labels == request.labels.deep_view()
            &&& x.node.status == NodeStatus::Ready
            &&& !x.node.unschedulable
            &&& x.node.deep_view().taints.len() == 0
            &&& x.node.last_heartbeat == x.node.registered_at
            &&& x.node.id@.len() == 36
            &&& x.response.node_id@ == x.node.id@
            &&& x.response.certificate@ == (issued->0).0@
            &&& x.response.private_key@ == (issued->0).1@
            &&& x.response.server_ca@ == ca_cert@
        },
{
    if r is Err {
        assert(r->Err_0.deep_view().status == r->Err_0.status);
    }
}

/// A server seeds its own node once: the one made under its id, where there is none.
pub proof fn law_own_node_is_seeded_once(
    name: &str,
    present: bool,
    id: &str,
    now: i128,
    r: Option<StoredNode>,
    q: StoredNode,
)
    requires
        call_ensures(seed_master_node, (name, present, now), r),
        call_ensures(master_node_as, (name, id, now), q),
        r matches Some(x) ==> id@ == x.1.id@,
    ensures
        r is None <==> present,
        r matches Some(x) ==> x.deep_view() == q.deep_view() && x.1.id@.len() == 36,
{
}

/// A node that has joined, or that a server seeds for itself, has announced no room and
/// given none away; the server's own node says of itself that it leads.
pub proof fn law_new_nodes_are_empty(
    request: NodeRegistrationRequest,
    join_token: &str,
    issued: Option<(String, String)>,
    ca_cert: &str,
    name: &str,
    id: &str,
    now: i128,
    joined: Result<Registration, Reply>,
    own: StoredNode,
)
    requires
        call_ensures(register_as, (&request, join_token, issued, ca_cert, id, now), joined),
        call_ensures(master_node_as, (name, id, now), own),
    ensures
        joined matches Ok(x) ==> x.node.capacity.cpu_millis == 0 && x.node.capacity.memory_bytes == 0
            && x.node.allocated.cpu_millis == 0 && x.node.allocated.memory_bytes == 0
            && x.node.address@.len() == 0,
        own.1.capacity.cpu_millis == 0 && own.1.capacity.memory_bytes == 0,
        own.1.allocated.cpu_millis == 0 && own.1.allocated.memory_bytes == 0,
        !own.1.unschedulable,
        own.1.deep_view().labels["node-role.kubernetes.io/master"@] == "true"@,
        own.1.deep_view().labels["node-role.kubernetes.io/control-plane"@] == "true"@,
{
    if joined is Ok {
        let n = joined->Ok_0.node;
        assert(n.deep_view().capacity == n.capacity.deep_view());
        assert(n.deep_view().allocated == n.allocated.deep_view());
        assert(n.deep_view().address == n.address@);
    }
    assert(own.1.deep_view().capacity == own.1.capacity.deep_view());
    assert(own.1.deep_view().allocated == own.1.allocated.deep_view());
}

/// The taint of a cordoned node is set to true and keeps pods off.
pub proof fn law_cordon_is_marked(node: Node, r: Node, i: int)
    requires
        call_ensures(cordon, (&node,), r),
        forall|j: int|
            0 <= j < node.taints.len() ==> (#[trigger] node.deep_view().taints[j]).key
                != "node.kubernetes.io/unschedulable"@,
    ensures
        r.deep_view().taints.len() == node.taints.len() + 1,
        r.deep_view().taints.last() == (TaintV {
            key: "node.kubernetes.io/unschedulable"@,
            value: "true"@,
            effect: TaintEffect::NoSchedule,
        }),
        0 <= i < node.taints.len() ==> r.deep_view().taints[i] == node.deep_view().taints[i],
{
    assert(node.deep_view().taints.len() == node.taints.len());
}

/// The answer to a drained node says how many pods it gave up; every request that was
/// carried out is answered with 200.
pub proof fn law_drain_is_answered(action: NodeAction, evicted: u32, r: Reply)
    requires
        call_ensures(action_done, (action, evicted), r),
    ensures
        r.status == 200,
        action == NodeAction::Drain ==> (json_in(encode_utf8(r.body@)) matches Some(v) && field(
            v,
            "evicted_pods"@,
        ) == Some(JsonV::UInt(evicted as u64)) && text_field(v, "status"@) == Some("drained"@)),
        action == NodeAction::Cordon ==> (json_in(encode_utf8(r.body@)) matches Some(v)
            && text_field(v, "status"@) == Some("cordoned"@)),
        action == NodeAction::Uncordon ==> (json_in(encode_utf8(r.body@)) matches Some(v)
            && text_field(v, "status"@) == Some("uncordoned"@)),
{
    assert(r.deep_view().status == r.status);
    reveal_strlit("evicted_pods");
    reveal_strlit("status");
    assert("evicted_pods"@.len() == 12 && "status"@.len() == 6);
}

} // verus!
