//! Where a session in a pod's container is forwarded to.
use vstd::prelude::*;
use vstd::string::*;
use crate::api::reply::{reply, Reply};
#[allow(unused_imports)]
use crate::api::reply::{answer, ReplyV};
use crate::keys::key_in;
#[allow(unused_imports)]
use crate::keys::ns_key;
use crate::model::{is_on_node, Node, Pod};
#[allow(unused_imports)]
use crate::model::{nodes_apart, on_node, NodeV, PodV};
use crate::numbers::u64_to_string;
#[allow(unused_imports)]
use crate::numbers::decimal;
use crate::text::{cat3, cat4};

verus! {

/// The first node that a pod is on.
pub open spec fn node_of(nodes: Seq<NodeV>, pod: PodV) -> Option<NodeV>
    decreases nodes.len(),
{
    if nodes.len() == 0 {
        None
    } else if on_node(pod, nodes[0]) {
        Some(nodes[0])
    } else {
        node_of(nodes.skip(1), pod)
    }
}

/// Where the agent of a node takes sessions for a pod.
pub open spec fn agent_url(node: NodeV, pod: PodV) -> Seq<char> {
    "ws://"@ + node.address + ":"@ + decimal(node.agent_api_port as nat) + "/exec/"@ + pod.id
}

/// What becomes of a request for a session: `pod` is what the store has of the
/// pod, if it could tell, and `nodes` are the nodes, if they could be listed.
pub open spec fn exec_target(pod: Option<Option<PodV>>, nodes: Option<Seq<NodeV>>) -> Result<
    Seq<char>,
    ReplyV,
> {
    match pod {
        None => Err(answer(500, Seq::empty())),
        Some(None) => Err(answer(404, Seq::empty())),
        Some(Some(p)) => match p.node_name {
            None => Err(answer(400, "Pod is not scheduled to a node"@)),
            Some(_) => match nodes {
                None => Err(answer(500, Seq::empty())),
                Some(all) => match node_of(all, p) {
                    None => Err(answer(404, "Node not found"@)),
                    Some(n) => Ok(agent_url(n, p)),
                },
            },
        },
    }
}

/// The contents of what the store has of a pod.
pub open spec fn pod_view(pod: Option<Option<Pod>>) -> Option<Option<PodV>> {
    match pod {
        Some(Some(p)) => Some(Some(p.deep_view())),
        Some(None) => Some(None),
        None => None,
    }
}

/// Where a pod is looked up.
pub fn pod_key(ns: &str, pod_name: &str) -> (r: String)
    ensures
        r@ == ns_key("pods"@, ns@, pod_name@),
{
    key_in("pods", ns, pod_name)
}

fn find_node(nodes: &Vec<Node>, pod: &Pod) -> (r: Option<usize>)
    ensures
        match r {
            Some(i) => i < nodes@.len() && node_of(nodes.deep_view(), pod.deep_view()) == Some(
                nodes@[i as int].deep_view(),
            ),
            None => node_of(nodes.deep_view(), pod.deep_view()) is None,
        },
{
    let ghost all = nodes.deep_view();
    let mut i: usize = 0;
    assert(all.skip(0) =~= all);
    while i < nodes.len()
        invariant
            i <= nodes@.len(),
            all == nodes.deep_view(),
            node_of(all, pod.deep_view()) == node_of(all.skip(i as int), pod.deep_view()),
        decreases nodes@.len() - i,
    {
        assert(all.skip(i as int)[0] == nodes@[i as int].deep_view());
        assert(all.skip(i as int).skip(1) =~= all.skip(i + 1));
        if is_on_node(pod, &nodes[i]) {
            return Some(i);
        }
        i = i + 1;
    }
    None
}

/// Decides where a session in a pod's container is forwarded to: the agent of
/// the node that the pod is on.
pub fn exec_into_pod(pod: &Option<Option<Pod>>, nodes: &Option<Vec<Node>>) -> (r: Result<
    String,
    Reply,
>)
    ensures
        match (r, exec_target(pod_view(*pod), nodes.deep_view())) {
            (Ok(u), Ok(v)) => u@ == v,
            (Err(e), Err(v)) => e.deep_view() == v,
            _ => false,
        },
{
    let p: &Pod = match pod {
        Some(Some(p)) => p,
        Some(None) => {
            return Err(Reply { status: 404, body: String::new() });
        },
        None => {
            return Err(Reply { status: 500, body: String::new() });
        },
    };
    match &p.node_name {
        None => Err(reply(400, "Pod is not scheduled to a node")),
        Some(_) => match nodes {
            None => Err(Reply { status: 500, body: String::new() }),
            Some(all) => match find_node(all, p) {
                None => Err(reply(404, "Node not found")),
                Some(i) => {
                    let n: &Node = &all[i];
                    let mut s: String = cat4(
                        "ws://",
                        n.address.as_str(),
                        ":",
                        u64_to_string(n.agent_api_port as u64).as_str(),
                    );
                    s.append("/exec/");
                    s.append(p.id.as_str());
                    Ok(s)
                },
            },
        },
    }
}

/// What a client is told where its agent could not be reached.
pub fn agent_unreachable(error: &str) -> (r: String)
    ensures
        r@ == "Error: Failed to connect to agent: "@ + error@ + "\r\n"@,
{
    cat3("Error: Failed to connect to agent: ", error, "\r\n")
}

proof fn lemma_node_of(nodes: Seq<NodeV>, pod: PodV)
    ensures
        match node_of(nodes, pod) {
            Some(n) => exists|i: int| 0 <= i < nodes.len() && #[trigger] nodes[i] == n && on_node(
                pod,
                n,
            ),
            None => forall|i: int| 0 <= i < nodes.len() ==> !on_node(pod, #[trigger] nodes[i]),
        },
    decreases nodes.len(),
{
    if nodes.len() > 0 {
        if on_node(pod, nodes[0]) {
            assert(nodes[0] == node_of(nodes, pod)->0);
        } else {
            let t = nodes.skip(1);
            lemma_node_of(t, pod);
            match node_of(t, pod) {
                Some(n) => {
                    let i = choose|i: int| 0 <= i < t.len() && #[trigger] t[i] == n && on_node(
                        pod,
                        n,
                    );
                    assert(nodes[i + 1] == n);
                },
                None => {
                    assert forall|i: int| 0 <= i < nodes.len() implies !on_node(
                        pod,
                        #[trigger] nodes[i],
                    ) by {
                        if i > 0 {
                            assert(t[i - 1] == nodes[i]);
                        }
                    }
                },
            }
        }
    }
}

/// A session is only ever forwarded to a node that the pod is on, and wherever
/// there is one it is forwarded: to the pod's node, if the nodes are told apart by
/// their ids and names.
pub proof fn law_session_goes_to_the_pods_node(pod: PodV, nodes: Seq<NodeV>, i: int)
    requires
        0 <= i < nodes.len(),
    ensures
        exec_target(Some(Some(pod)), Some(nodes)) is Ok ==> exists|j: int|
            0 <= j < nodes.len() && on_node(pod, #[trigger] nodes[j]) && exec_target(
                Some(Some(pod)),
                Some(nodes),
            )->Ok_0 == agent_url(nodes[j], pod),
        on_node(pod, nodes[i]) ==> exec_target(Some(Some(pod)), Some(nodes)) is Ok,
        on_node(pod, nodes[i]) && nodes_apart(nodes) ==> exec_target(Some(Some(pod)), Some(nodes))
            == Ok::<Seq<char>, ReplyV>(agent_url(nodes[i], pod)),
{
    lemma_node_of(nodes, pod);
    match node_of(nodes, pod) {
        Some(n) => {
            let j = choose|j: int| 0 <= j < nodes.len() && #[trigger] nodes[j] == n && on_node(
                pod,
                n,
            );
            assert(on_node(pod, nodes[j]));
            if on_node(pod, nodes[i]) && nodes_apart(nodes) {
                crate::model::law_pod_is_on_one_node(pod, nodes, i, j);
            }
        },
        None => {},
    }
}

/// A session is opened exactly where the pod is there and bound to a node that is
/// there: at that node's address and agent port, for the pod's id. A pod that is
/// not there is answered with 404, one without a node with 400, one whose node is
/// not there with 404, and a store that cannot tell with 500.
pub proof fn law_session_needs_a_placed_pod(
    pod: Option<Option<Pod>>,
    nodes: Option<Vec<Node>>,
    r: Result<String, Reply>,
)
    requires
        call_ensures(exec_into_pod, (&pod, &nodes), r),
    ensures
        pod is None ==> r is Err && r->Err_0.status == 500,
        pod == Some(None::<Pod>) ==> r is Err && r->Err_0.status == 404,
        pod matches Some(Some(p)) ==> {
            &&& p.node_name is None ==> r is Err && r->Err_0.status == 400
            &&& p.node_name is Some && nodes is None ==> r is Err && r->Err_0.status == 500
            &&& p.node_name is Some && nodes is Some ==> {
                let all = nodes->0.deep_view();
                let at = p.node_name->0@;
                &&& r is Ok <==> exists|i: int|
                    0 <= i < all.len() && ((#[trigger] all[i]).id == at || all[i].name == at)
                &&& r matches Err(e) ==> e.status == 404
                &&& r matches Ok(url) ==> exists|i: int|
                    0 <= i < all.len() && ((#[trigger] all[i]).id == at || all[i].name == at)
                        && url@ == "ws://"@ + all[i].address + ":"@ + decimal(
                        all[i].agent_api_port as nat,
                    ) + "/exec/"@ + p.id@
            }
        },
{
    match (pod, nodes) {
        (Some(Some(p)), Some(ns)) => {
            let all = ns.deep_view();
            let v = p.deep_view();
            lemma_node_of(all, v);
            if p.node_name is Some {
                match node_of(all, v) {
                    Some(n) => {
                        let i = choose|i: int|
                            0 <= i < all.len() && #[trigger] all[i] == n && on_node(v, n);
                        assert(all[i].id == p.node_name->0@ || all[i].name == p.node_name->0@);
                    },
                    None => {
                        assert forall|i: int| 0 <= i < all.len() implies (
                        #[trigger] all[i]).id != p.node_name->0@ && all[i].name
                            != p.node_name->0@ by {
                            assert(!on_node(v, all[i]));
                        }
                    },
                }
            }
        },
        _ => {},
    }
}

} // verus!
