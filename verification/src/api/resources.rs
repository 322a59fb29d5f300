//! How resources are created, looked up and deleted.
use vstd::prelude::*;
use vstd::string::*;
use crate::api::reply::{reply, Lookup, Reply};
#[allow(unused_imports)]
use crate::api::reply::{answer, ReplyV};
use crate::constants::CLUSTER_IP_PREFIX;
use crate::controllers::replicaset::ReplicaSetController;
#[allow(unused_imports)]
use crate::controllers::replicaset::placed;
use crate::ids::{fresh_id, random_byte};
#[allow(unused_imports)]
use crate::ids::is_uuid;
use crate::keys::{key_in, key_of, key_of_pod, key_of_resource, prefix_in};
#[allow(unused_imports)]
use crate::keys::{cluster_key, ns_key, ns_prefix, pod_key_of, resource_key};
use crate::model::{Deployment, Endpoint, Namespace, Pod, PodStatus, Service};
#[allow(unused_imports)]
use crate::model::{DeploymentV, EndpointV, NamespaceV, PodV, ServiceV};
use crate::numbers::u64_to_string;
#[allow(unused_imports)]
use crate::numbers::decimal;
use crate::text::{cat, str_eq};
use crate::time::now;
#[allow(unused_imports)]
use crate::time::valid_time;

verus! {

/// Query parameters for listing resources.
#[derive(Debug)]
pub struct ListQuery {
    /// The namespace to list.
    pub namespace: Option<String>,
}

// ---------------------------------------------------------------------------
// What a new resource is given
// ---------------------------------------------------------------------------

/// What every new resource in a namespace is given.
#[derive(Debug)]
pub struct Stamp {
    /// A fresh id.
    pub id: String,
    /// The namespace.
    pub namespace: String,
    /// The time.
    pub created_at: i128,
    /// Where it is stored.
    pub key: String,
}

/// Stamps a new resource of a kind (config maps, secrets, ingresses and the
/// like) with a name in a namespace.
pub fn new_stamp(kind: &str, ns: &str, name: &str) -> (r: Stamp)
    ensures
        is_uuid(r.id@),
        r.namespace@ == ns@,
        valid_time(r.created_at),
        r.key@ == resource_key(kind@, ns@, name@, r.id@),
{
    let id: String = fresh_id();
    let key: String = key_of_resource(kind, ns, name, id.as_str());
    Stamp { id, namespace: ns.to_owned(), created_at: now(), key }
}

/// A new namespace with its key.
pub fn create_namespace_at(ns: Namespace, now: i128) -> (r: (String, Namespace))
    ensures
        r.0@ == cluster_key("namespaces"@, ns.name@),
        r.1.deep_view() == (NamespaceV { created_at: now, ..ns.deep_view() }),
{
    let mut n: Namespace = ns;
    n.created_at = now;
    (key_of("namespaces", n.name.as_str()), n)
}

/// A new namespace with its key, created now.
pub fn create_namespace(ns: Namespace) -> (r: (String, Namespace))
    ensures
        valid_time(r.1.created_at),
        r.0@ == cluster_key("namespaces"@, ns.name@),
        r.1.deep_view() == (NamespaceV { created_at: r.1.created_at, ..ns.deep_view() }),
{
    let t: i128 = now();
    let r: (String, Namespace) = create_namespace_at(ns, t);
    assert(r.1.deep_view().created_at == t);
    r
}

/// A pod that is about to be scheduled.
pub open spec fn pending_pod(pod: PodV, ns: Seq<char>, id: Seq<char>, now: i128) -> PodV {
    PodV { id, namespace: ns, status: PodStatus::Pending, created_at: now, ..pod }
}

/// A new pod, pending, with a given id.
pub fn new_pod_at(pod: Pod, ns: &str, id: &str, now: i128) -> (r: Pod)
    ensures
        r.deep_view() == pending_pod(pod.deep_view(), ns@, id@, now),
{
    let mut p: Pod = pod;
    p.id = id.to_owned();
    p.namespace = ns.to_owned();
    p.status = PodStatus::Pending;
    p.created_at = now;
    p
}

/// A new pod, pending, with a fresh id.
pub fn new_pod(pod: Pod, ns: &str) -> (r: Pod)
    ensures
        is_uuid(r.id@),
        valid_time(r.created_at),
        r.deep_view() == pending_pod(pod.deep_view(), ns@, r.id@, r.created_at),
{
    let id: String = fresh_id();
    let t: i128 = now();
    let p: Pod = new_pod_at(pod, ns, id.as_str(), t);
    assert(p.deep_view().id == id@);
    assert(p.deep_view().created_at == t);
    p
}

/// A new pod with its key, on the node that the scheduler has chosen, if any.
pub fn create_pod(pod: Pod, node: Option<String>) -> (r: (String, Pod))
    ensures
        r.0@ == ns_key("pods"@, pod.namespace@, pod.name@),
        r.1.deep_view() == placed(pod.deep_view(), node.deep_view()),
{
    let key: String = key_of_pod(&pod);
    (key, ReplicaSetController::place(pod, node))
}

/// The address of a service without one, from a random byte.
pub open spec fn cluster_ip_of(byte: u8) -> Seq<char> {
    CLUSTER_IP_PREFIX@ + decimal((byte % 250 + 2) as nat)
}

/// A new service.
pub open spec fn new_service(
    svc: ServiceV,
    ns: Seq<char>,
    id: Seq<char>,
    now: i128,
    byte: u8,
) -> ServiceV {
    ServiceV {
        id,
        namespace: ns,
        created_at: now,
        cluster_ip: match svc.cluster_ip {
            Some(ip) => Some(ip),
            None => Some(cluster_ip_of(byte)),
        },
        ..svc
    }
}

/// A new service with its key. A service without an address is given one.
pub fn create_service_at(svc: Service, ns: &str, id: &str, now: i128, byte: u8) -> (r: (
    String,
    Service,
))
    ensures
        r.0@ == ns_key("services"@, ns@, svc.name@),
        r.1.deep_view() == new_service(svc.deep_view(), ns@, id@, now, byte),
{
    let mut s: Service = svc;
    s.id = id.to_owned();
    s.namespace = ns.to_owned();
    s.created_at = now;
    if s.cluster_ip.is_none() {
        let n: u64 = (byte % 250) as u64 + 2;
        s.cluster_ip = Some(cat(CLUSTER_IP_PREFIX, u64_to_string(n).as_str()));
    }
    (key_in("services", ns, s.name.as_str()), s)
}

/// A new service with its key, under a fresh id, now. A service without an
/// address is given one.
pub fn create_service(svc: Service, ns: &str) -> (r: (String, Service))
    ensures
        is_uuid(r.1.id@),
        valid_time(r.1.created_at),
        r.0@ == ns_key("services"@, ns@, svc.name@),
        exists|byte: u8|
            r.1.deep_view() == #[trigger] new_service(
                svc.deep_view(),
                ns@,
                r.1.id@,
                r.1.created_at,
                byte,
            ),
{
    let id: String = fresh_id();
    let t: i128 = now();
    let byte: u8 = random_byte();
    let r: (String, Service) = create_service_at(svc, ns, id.as_str(), t, byte);
    proof {
        assert(r.1.deep_view().id == id@);
        assert(r.1.deep_view().created_at == t);
        assert(r.1.deep_view() == new_service(
            svc.deep_view(),
            ns@,
            r.1.id@,
            r.1.created_at,
            byte,
        ));
    }
    r
}

/// A new deployment with its key.
pub fn create_deployment_at(deploy: Deployment, ns: &str, id: &str, now: i128) -> (r: (
    String,
    Deployment,
))
    ensures
        r.0@ == ns_key("deployments"@, ns@, deploy.name@),
        r.1.deep_view() == (DeploymentV {
            id: id@,
            namespace: ns@,
            created_at: now,
            ..deploy.deep_view()
        }),
{
    let mut d: Deployment = deploy;
    d.id = id.to_owned();
    d.namespace = ns.to_owned();
    d.created_at = now;
    (key_in("deployments", ns, d.name.as_str()), d)
}

/// A new deployment with its key, under a fresh id, now.
pub fn create_deployment(deploy: Deployment, ns: &str) -> (r: (String, Deployment))
    ensures
        is_uuid(r.1.id@),
        valid_time(r.1.created_at),
        r.0@ == ns_key("deployments"@, ns@, deploy.name@),
        r.1.deep_view() == (DeploymentV {
            id: r.1.id@,
            namespace: ns@,
            created_at: r.1.created_at,
            ..deploy.deep_view()
        }),
{
    let id: String = fresh_id();
    let t: i128 = now();
    let r: (String, Deployment) = create_deployment_at(deploy, ns, id.as_str(), t);
    assert(r.1.deep_view().id == id@);
    assert(r.1.deep_view().created_at == t);
    r
}

/// A new endpoint with its key, which is that of its service.
pub fn create_endpoint_at(ep: Endpoint, ns: &str, id: &str, now: i128) -> (r: (String, Endpoint))
    ensures
        r.0@ == ns_key("endpoints"@, ns@, ep.service_id@),
        r.1.deep_view() == (EndpointV {
            id: id@,
            namespace: ns@,
            created_at: now,
            ..ep.deep_view()
        }),
{
    let mut e: Endpoint = ep;
    e.id = id.to_owned();
    e.namespace = ns.to_owned();
    e.created_at = now;
    (key_in("endpoints", ns, e.service_id.as_str()), e)
}

/// A new endpoint with its key, under a fresh id, now.
pub fn create_endpoint(ep: Endpoint, ns: &str) -> (r: (String, Endpoint))
    ensures
        is_uuid(r.1.id@),
        valid_time(r.1.created_at),
        r.0@ == ns_key("endpoints"@, ns@, ep.service_id@),
        r.1.deep_view() == (EndpointV {
            id: r.1.id@,
            namespace: ns@,
            created_at: r.1.created_at,
            ..ep.deep_view()
        }),
{
    let id: String = fresh_id();
    let t: i128 = now();
    let r: (String, Endpoint) = create_endpoint_at(ep, ns, id.as_str(), t);
    assert(r.1.deep_view().id == id@);
    assert(r.1.deep_view().created_at == t);
    r
}

// ---------------------------------------------------------------------------
// Answers
// ---------------------------------------------------------------------------

/// How storing a resource went.
#[derive(Debug, Clone, Copy, PartialEq, Eq, Structural)]
pub enum Stored {
    /// It is stored.
    Written,
    /// The store has failed.
    StoreFailed,
    /// It could not be written down.
    NotSerialized,
}

/// The answer where a new resource could not be stored.
pub open spec fn create_fault(kind: Seq<char>, stored: Stored) -> Option<ReplyV> {
    match stored {
        Stored::Written => None,
        Stored::StoreFailed => Some(
            answer(
                500,
                if kind == "namespaces"@ {
                    "Failed to create namespace"@
                } else if kind == "pods"@ {
                    "Failed to create pod"@
                } else {
                    "Failed"@
                },
            ),
        ),
        Stored::NotSerialized => Some(answer(500, "Serialization failed"@)),
    }
}

/// The answer where a new resource of a kind could not be stored; without one the
/// answer is 201 and the resource.
pub fn create_failed(kind: &str, stored: Stored) -> (r: Option<Reply>)
    ensures
        r.deep_view() == create_fault(kind@, stored),
{
    match stored {
        Stored::Written => None,
        Stored::StoreFailed => {
            let text: &'static str = if str_eq(kind, "namespaces") {
                "Failed to create namespace"
            } else if str_eq(kind, "pods") {
                "Failed to create pod"
            } else {
                "Failed"
            };
            Some(reply(500, text))
        },
        Stored::NotSerialized => Some(reply(500, "Serialization failed")),
    }
}

/// The status of the answer to a look-up of a pod; with 200 comes the pod.
pub fn get_pod(found: Lookup, readable: bool) -> (r: u16)
    ensures
        r == match found {
            Lookup::Found => if readable {
                200u16
            } else {
                500
            },
            Lookup::Missing => 404,
            Lookup::Failed => 500,
        },
{
    match found {
        Lookup::Found => if readable {
            200
        } else {
            500
        },
        Lookup::Missing => 404,
        Lookup::Failed => 500,
    }
}

/// The status of the answer to a deletion.
pub fn delete_status(deleted: bool) -> (r: u16)
    ensures
        r == if deleted {
            204u16
        } else {
            500
        },
{
    if deleted {
        204
    } else {
        500
    }
}

/// Where a pod is stored.
pub fn delete_pod(ns: &str, pod_name: &str) -> (r: String)
    ensures
        r@ == ns_key("pods"@, ns@, pod_name@),
{
    key_in("pods", ns, pod_name)
}

/// Where a resource of any kind in a namespace is stored, by its name or, for
/// kinds that are stored under their ids, by its id.
pub fn delete_resource(resource_type: &str, ns: &str, name: &str) -> (r: String)
    ensures
        r@ == ns_key(resource_type@, ns@, name@),
{
    key_in(resource_type, ns, name)
}

/// Under which prefix the resources of a kind in a namespace are listed.
pub fn list_resources(kind: &str, ns: &str) -> (r: String)
    ensures
        r@ == ns_prefix(kind@, ns@),
{
    prefix_in(kind, ns)
}

// ---------------------------------------------------------------------------
// Laws
// ---------------------------------------------------------------------------

/// A service always has an address; one that had an address keeps it, and one
/// that is given has a last number from 2 to 251.
pub proof fn law_service_has_address(svc: ServiceV, ns: Seq<char>, id: Seq<char>, now: i128, byte: u8)
    ensures
        new_service(svc, ns, id, now, byte).cluster_ip is Some,
        svc.cluster_ip is Some ==> new_service(svc, ns, id, now, byte).cluster_ip == svc.cluster_ip,
        svc.cluster_ip is None ==> exists|n: nat|
            2 <= n <= 251 && new_service(svc, ns, id, now, byte).cluster_ip == Some(
                CLUSTER_IP_PREFIX@ + #[trigger] decimal(n),
            ),
{
    let n = (byte % 250 + 2) as nat;
    assert(2 <= n <= 251);
    if svc.cluster_ip is None {
        assert(new_service(svc, ns, id, now, byte).cluster_ip == Some(
            CLUSTER_IP_PREFIX@ + decimal(n),
        ));
    }
}

/// What is created in a namespace is listed there.
pub proof fn law_created_is_listed(kind: Seq<char>, ns: Seq<char>, name: Seq<char>, id: Seq<char>)
    ensures
        crate::text::has_prefix(resource_key(kind, ns, name, id), ns_prefix(kind, ns)),
{
    crate::keys::law_key_under_prefix(kind, ns, name);
    crate::keys::law_key_under_prefix(kind, ns, id);
}

/// A pod that was created in a namespace is found again by its name there, and by
/// no other name, wherever it was placed.
pub proof fn law_pod_is_found_by_name(
    pod: PodV,
    ns: Seq<char>,
    id: Seq<char>,
    now: i128,
    node: Option<Seq<char>>,
    name: Seq<char>,
)
    ensures
        pod_key_of(placed(pending_pod(pod, ns, id, now), node)) == ns_key("pods"@, ns, name) <==> name
            == pod.name,
{
    crate::keys::law_keys_are_apart("pods"@, ns, pod.name, name);
}

/// A new namespace keeps its name, is created now and is stored under its name.
pub proof fn law_namespace_is_stored(ns: Namespace, now: i128, r: (String, Namespace))
    requires
        call_ensures(create_namespace_at, (ns, now), r),
    ensures
        r.0@ == "/registry/"@ + "namespaces"@ + "/"@ + ns.name@,
        r.1.name@ == ns.name@,
        r.1.created_at == now,
{
}

/// A new pod waits to be placed, whatever status was asked for, in the namespace of
/// the request and under a new id; what it is to run is not touched. It is stored
/// under its name, and a chosen node binds it.
pub proof fn law_new_pod_is_pending(
    pod: Pod,
    ns: &str,
    id: &str,
    now: i128,
    node: Option<String>,
    p: Pod,
    r: (String, Pod),
)
    requires
        call_ensures(new_pod_at, (pod, ns, id, now), p),
        call_ensures(create_pod, (p, node), r),
    ensures
        p.id@ == id@,
        p.namespace@ == ns@,
        p.name@ == pod.name@,
        p.status == PodStatus::Pending,
        p.created_at == now,
        p.deep_view().spec == pod.deep_view().spec,
        p.deep_view().labels == pod.deep_view().labels,
        p.deep_view().owner_ref == pod.deep_view().owner_ref,
        r.0@ == "/registry/"@ + "pods"@ + "/"@ + ns@ + "/"@ + pod.name@,
        r.1.id@ == id@,
        r.1.deep_view().spec == pod.deep_view().spec,
        node is None ==> r.1.status == PodStatus::Pending && r.1.deep_view().node_name
            == pod.deep_view().node_name,
        node matches Some(n) ==> r.1.status == PodStatus::Scheduled && r.1.deep_view().node_name
            == Some(n@),
{
}

/// A new service, deployment and endpoint is in the namespace of the request, under
/// the new id, created now, otherwise as asked for, and stored where a deletion by
/// its name, or by its service, finds it.
pub proof fn law_created_is_deleted_by_name(
    svc: Service,
    deploy: Deployment,
    ep: Endpoint,
    ns: &str,
    id: &str,
    now: i128,
    byte: u8,
    s: (String, Service),
    d: (String, Deployment),
    e: (String, Endpoint),
    keys: (&str, &str, &str),
    found: (String, String, String),
)
    requires
        call_ensures(create_service_at, (svc, ns, id, now, byte), s),
        call_ensures(create_deployment_at, (deploy, ns, id, now), d),
        call_ensures(create_endpoint_at, (ep, ns, id, now), e),
        keys.0@ == svc.name@,
        keys.1@ == deploy.name@,
        keys.2@ == ep.service_id@,
        call_ensures(delete_resource, ("services", ns, keys.0), found.0),
        call_ensures(delete_resource, ("deployments", ns, keys.1), found.1),
        call_ensures(delete_resource, ("endpoints", ns, keys.2), found.2),
    ensures
        s.0@ == found.0@,
        d.0@ == found.1@,
        e.0@ == found.2@,
        s.1.id@ == id@ && s.1.namespace@ == ns@ && s.1.created_at == now && s.1.name@ == svc.name@,
        d.1.id@ == id@ && d.1.namespace@ == ns@ && d.1.created_at == now && d.1.name@
            == deploy.name@,
        e.1.id@ == id@ && e.1.namespace@ == ns@ && e.1.created_at == now && e.1.service_id@
            == ep.service_id@,
        s.1.deep_view().spec == svc.deep_view().spec,
        d.1.deep_view().spec == deploy.deep_view().spec,
        d.1.generation == deploy.generation,
        e.1.deep_view().addresses == ep.deep_view().addresses,
        e.1.deep_view().ports == ep.deep_view().ports,
{
}

/// A deletion names the key of the resource, and what is listed in a namespace is
/// what lies under its prefix there: the key of every resource of the kind.
pub proof fn law_listing_covers_deletion(
    kind: &str,
    ns: &str,
    name: &str,
    key: String,
    pod_key: String,
    prefix: String,
)
    requires
        call_ensures(delete_resource, (kind, ns, name), key),
        call_ensures(delete_pod, (ns, name), pod_key),
        call_ensures(list_resources, (kind, ns), prefix),
    ensures
        key@ == "/registry/"@ + kind@ + "/"@ + ns@ + "/"@ + name@,
        key@ == prefix@ + name@,
        kind@ == "pods"@ ==> pod_key@ == key@,
{
}

/// A service without an address gets one from the random byte, in which a byte less
/// than 250 gives the number that is two greater, so that such bytes give different
/// addresses.
pub proof fn law_given_addresses_differ(
    svc: ServiceV,
    ns: Seq<char>,
    id: Seq<char>,
    now: i128,
    a: u8,
    b: u8,
)
    requires
        svc.cluster_ip is None,
        a < 250,
        b < 250,
    ensures
        new_service(svc, ns, id, now, a).cluster_ip == Some(
            CLUSTER_IP_PREFIX@ + decimal((a + 2) as nat),
        ),
        a != b ==> new_service(svc, ns, id, now, a).cluster_ip != new_service(
            svc,
            ns,
            id,
            now,
            b,
        ).cluster_ip,
{
    let p = CLUSTER_IP_PREFIX@;
    let x = decimal((a + 2) as nat);
    let y = decimal((b + 2) as nat);
    if p + x == p + y {
        assert((p + x).skip(p.len() as int) =~= x);
        assert((p + y).skip(p.len() as int) =~= y);
        crate::numbers::lemma_decimal_apart((a + 2) as nat, (b + 2) as nat);
    }
}

/// A pod is shown with 200 exactly where it was found and can be read, a missing
/// one is answered with 404, and all else is a fault of the server; a deletion is
/// answered with 204 exactly where it was carried out.
pub proof fn law_answers_tell_what_happened(
    found: Lookup,
    readable: bool,
    deleted: bool,
    get: u16,
    gone: u16,
)
    requires
        call_ensures(get_pod, (found, readable), get),
        call_ensures(delete_status, (deleted,), gone),
    ensures
        get == 200 <==> found == Lookup::Found && readable,
        get == 404 <==> found == Lookup::Missing,
        get == 200 || get == 404 || get == 500,
        deleted ==> gone == 204,
        !deleted ==> gone == 500,
{
}

/// A new resource is answered with a fault exactly where it was not written, and
/// such a fault is the server's.
pub proof fn law_unwritten_is_a_fault(kind: &str, stored: Stored, r: Option<Reply>)
    requires
        call_ensures(create_failed, (kind, stored), r),
    ensures
        r is None <==> stored == Stored::Written,
        r matches Some(x) ==> x.status == 500,
        stored == Stored::NotSerialized ==> r->0.body@ == "Serialization failed"@,
{
}

/// Every new resource has an id of its own and is otherwise the one made under that id
/// at that time, stored in the same place.
pub proof fn law_created_resources_are_the_made_ones(
    pod: Pod,
    deploy: Deployment,
    ep: Endpoint,
    space: Namespace,
    ns: &str,
    ids: (&str, &str, &str),
    r: (Pod, (String, Deployment), (String, Endpoint), (String, Namespace)),
    q: (Pod, (String, Deployment), (String, Endpoint), (String, Namespace)),
)
    requires
        call_ensures(new_pod, (pod, ns), r.0),
        call_ensures(create_deployment, (deploy, ns), r.1),
        call_ensures(create_endpoint, (ep, ns), r.2),
        call_ensures(create_namespace, (space,), r.3),
        ids.0@ == r.0.id@,
        ids.1@ == (r.1).1.id@,
        ids.2@ == (r.2).1.id@,
        call_ensures(new_pod_at, (pod, ns, ids.0, r.0.created_at), q.0),
        call_ensures(create_deployment_at, (deploy, ns, ids.1, (r.1).1.created_at), q.1),
        call_ensures(create_endpoint_at, (ep, ns, ids.2, (r.2).1.created_at), q.2),
        call_ensures(create_namespace_at, (space, (r.3).1.created_at), q.3),
    ensures
        r.0.deep_view() == q.0.deep_view(),
        r.1.deep_view() == q.1.deep_view(),
        r.2.deep_view() == q.2.deep_view(),
        r.3.deep_view() == q.3.deep_view(),
        r.0.id@.len() == 36 && (r.1).1.id@.len() == 36 && (r.2).1.id@.len() == 36,
{
}

/// A service that names its address keeps it; one that does not gets an address of the
/// cluster's range, numbered from two on.
pub proof fn law_service_has_an_address(svc: Service, ns: &str, r: (String, Service)) -> (n: nat)
    requires
        call_ensures(create_service, (svc, ns), r),
    ensures
        r.0@ == "/registry/"@ + "services"@ + "/"@ + ns@ + "/"@ + svc.name@,
        r.1.name@ == svc.name@ && r.1.namespace@ == ns@ && r.1.id@.len() == 36,
        r.1.deep_view().spec == svc.deep_view().spec,
        svc.cluster_ip is Some ==> r.1.deep_view().cluster_ip == svc.deep_view().cluster_ip,
        svc.cluster_ip is None ==> 2 <= n <= 251 && r.1.deep_view().cluster_ip == Some(
            CLUSTER_IP_PREFIX@ + decimal(n),
        ),
{
    let byte = choose|byte: u8|
        r.1.deep_view() == #[trigger] new_service(
            svc.deep_view(),
            ns@,
            r.1.id@,
            r.1.created_at,
            byte,
        );
    ((byte % 250) + 2) as nat
}

/// A stamp puts a resource of a kind into a namespace, under an id of its own; a secret
/// and a config map are stored by their names, an ingress and the other kinds by their
/// ids.
pub proof fn law_stamp_names_the_place(kind: &str, ns: &str, name: &str, r: Stamp)
    requires
        call_ensures(new_stamp, (kind, ns, name), r),
    ensures
        r.id@.len() == 36,
        r.namespace@ == ns@,
        kind@ == "secrets"@ || kind@ == "configmaps"@ ==> r.key@ == "/registry/"@ + kind@ + "/"@
            + ns@ + "/"@ + name@,
        kind@ != "pods"@ && kind@ != "deployments"@ && kind@ != "services"@ && kind@ != "secrets"@
            && kind@ != "configmaps"@ ==> r.key@ == "/registry/"@ + kind@ + "/"@ + ns@ + "/"@ + r.id@,
{
}

} // verus!
