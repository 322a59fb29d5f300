//! Facts about the cluster.
use vstd::prelude::*;
use vstd::string::*;
use crate::api::reply::{reply, Reply};
#[allow(unused_imports)]
use crate::api::reply::answer;
use crate::ids::fresh_id;
#[allow(unused_imports)]
use crate::ids::is_uuid;
use crate::text::cat;

verus! {

/// What a cluster says of itself.
#[derive(Debug)]
pub struct ClusterInfo {
    /// Where its API is.
    pub endpoint: String,
    /// Its version.
    pub version: String,
    /// What keeps its state.
    pub state_store: String,
    /// How many nodes it has.
    pub node_count: usize,
}

/// What the cluster says of itself; nodes that could not be listed count as none.
pub fn cluster_info(listen_addr: &str, nodes: Option<usize>) -> (r: ClusterInfo)
    ensures
        r.endpoint@ == "http://"@ + listen_addr@,
        r.version@ == "v0.1.0+k3rs"@,
        r.state_store@ == "SlateDB (local)"@,
        r.node_count == match nodes {
            Some(n) => n,
            None => 0,
        },
{
    ClusterInfo {
        endpoint: cat("http://", listen_addr),
        version: "v0.1.0+k3rs".to_owned(),
        state_store: "SlateDB (local)".to_owned(),
        node_count: match nodes {
            Some(n) => n,
            None => 0,
        },
    }
}

/// The answer where nodes could not be listed.
pub fn nodes_not_listed() -> (r: Reply)
    ensures
        r.deep_view() == answer(500, "Failed to list nodes"@),
{
    reply(500, "Failed to list nodes")
}

/// A fresh id for a request.
pub fn request_id() -> (r: String)
    ensures
        is_uuid(r@),
{
    fresh_id()
}

/// The cluster is reached where the server listens, and counts no node where the nodes
/// could not be listed.
pub proof fn law_cluster_is_described(listen_addr: &str, nodes: Option<usize>, r: ClusterInfo)
    requires
        call_ensures(cluster_info, (listen_addr, nodes), r),
    ensures
        r.endpoint@ == "http://"@ + listen_addr@,
        nodes matches Some(n) ==> r.node_count == n,
        nodes is None ==> r.node_count == 0,
{
}

} // verus!
