//! Endpoints: the addresses behind each service.
use vstd::prelude::*;
use vstd::string::*;
use crate::collections::{matches_selector, lemma_filter_map_step};
#[allow(unused_imports)]
use crate::collections::{lemma_filter_map_has, selects};
use crate::keys::key_in;
#[allow(unused_imports)]
use crate::keys::ns_key;
use crate::model::{Endpoint, EndpointAddress, EndpointPort, Pod, PodStatus, Service, ServicePort};
#[allow(unused_imports)]
use crate::model::{EndpointAddressV, EndpointPortV, EndpointV, PodV, ServicePortV, ServiceV};
use crate::text::{clone_opt, str_eq};

verus! {

/// The VPC that a service belongs to.
pub open spec fn service_vpc(svc: ServiceV) -> Seq<char> {
    match svc.vpc {
        Some(v) => v,
        None => "default"@,
    }
}

/// The VPC that a pod belongs to: where it was placed, else where it asked to be.
pub open spec fn pod_vpc(pod: PodV) -> Seq<char> {
    match pod.vpc_name {
        Some(v) => v,
        None => match pod.spec.vpc {
            Some(v) => v,
            None => "default"@,
        },
    }
}

/// Whether a pod stands behind a service: it runs, in the same namespace and
/// VPC, with the labels that the service selects.
pub open spec fn serves(pod: PodV, svc: ServiceV) -> bool {
    &&& pod.namespace == svc.namespace
    &&& pod.status == PodStatus::Running
    &&& selects(svc.spec.selector, pod.labels)
    &&& pod_vpc(pod) == service_vpc(svc)
}

/// The addresses of the pods behind a service, of those that have one.
pub open spec fn address_rule(svc: ServiceV) -> spec_fn(PodV) -> Option<EndpointAddressV> {
    |p: PodV|
        if serves(p, svc) && p.ghost_ipv6 is Some {
            Some(
                EndpointAddressV {
                    ip: p.ghost_ipv6->0,
                    node_name: p.node_name,
                    pod_id: Some(p.id),
                },
            )
        } else {
            None
        }
}

/// The ports of a service as its pods offer them.
pub open spec fn target_ports(ports: Seq<ServicePortV>) -> Seq<EndpointPortV> {
    Seq::new(
        ports.len(),
        |i: int|
            EndpointPortV { name: ports[i].name, port: ports[i].target_port, protocol: "TCP"@ },
    )
}

/// What stands behind a service.
pub open spec fn endpoint_of(svc: ServiceV, pods: Seq<PodV>, now: i128) -> EndpointV {
    EndpointV {
        id: svc.id,
        service_id: svc.id,
        service_name: svc.name,
        namespace: svc.namespace,
        addresses: pods.filter_map(address_rule(svc)),
        ports: target_ports(svc.spec.ports),
        created_at: now,
    }
}

/// The endpoints to store, for each service that selects anything.
pub open spec fn endpoint_rule(pods: Seq<PodV>, now: i128) -> spec_fn(ServiceV) -> Option<
    (Seq<char>, EndpointV),
> {
    |s: ServiceV|
        if s.spec.selector =~= Map::<Seq<char>, Seq<char>>::empty() {
            None
        } else {
            Some((ns_key("endpoints"@, s.namespace, s.id), endpoint_of(s, pods, now)))
        }
}

fn stands_behind(pod: &Pod, svc: &Service) -> (r: bool)
    ensures
        r == serves(pod.deep_view(), svc.deep_view()),
{
    let svc_vpc: &str = match &svc.vpc {
        Some(v) => v.as_str(),
        None => "default",
    };
    let vpc: &str = match &pod.vpc_name {
        Some(v) => v.as_str(),
        None => match &pod.spec.vpc {
            Some(v) => v.as_str(),
            None => "default",
        },
    };
    str_eq(pod.namespace.as_str(), svc.namespace.as_str()) && pod.status == PodStatus::Running
        && matches_selector(&pod.labels, &svc.spec.selector) && str_eq(vpc, svc_vpc)
}

fn addresses(pods: &Vec<Pod>, svc: &Service) -> (r: Vec<EndpointAddress>)
    ensures
        r.deep_view() == pods.deep_view().filter_map(address_rule(svc.deep_view())),
{
    let ghost all = pods.deep_view();
    let ghost f = address_rule(svc.deep_view());
    let mut out: Vec<EndpointAddress> = Vec::new();
    let mut i: usize = 0;
    assert(all.take(0) =~= Seq::<PodV>::empty());
    assert(out.deep_view() =~= Seq::<EndpointAddressV>::empty());
    while i < pods.len()
        invariant
            i <= pods@.len(),
            all == pods.deep_view(),
            f == address_rule(svc.deep_view()),
            out.deep_view() == all.take(i as int).filter_map(f),
        decreases pods@.len() - i,
    {
        proof {
            lemma_filter_map_step(all, f, i as int);
        }
        let p: &Pod = &pods[i];
        if stands_behind(p, svc) {
            match &p.ghost_ipv6 {
                Some(ip) => {
                    let a: EndpointAddress = EndpointAddress {
                        ip: ip.clone(),
                        node_name: clone_opt(&p.node_name),
                        pod_id: Some(p.id.clone()),
                    };
                    let ghost av = a.deep_view();
                    let ghost before = out.deep_view();
                    out.push(a);
                    assert(out.deep_view() =~= before.push(av));
                    assert(f(all[i as int]) == Some(av));
                },
                None => {},
            }
        }
        i = i + 1;
    }
    assert(all.take(i as int) =~= all);
    out
}

fn ports_of(ports: &Vec<ServicePort>) -> (r: Vec<EndpointPort>)
    ensures
        r.deep_view() == target_ports(ports.deep_view()),
{
    let ghost all = target_ports(ports.deep_view());
    let mut out: Vec<EndpointPort> = Vec::new();
    let mut i: usize = 0;
    assert(out.deep_view() =~= all.take(0));
    while i < ports.len()
        invariant
            i <= ports@.len(),
            all == target_ports(ports.deep_view()),
            out.deep_view() == all.take(i as int),
        decreases ports@.len() - i,
    {
        let p: EndpointPort = EndpointPort {
            name: ports[i].name.clone(),
            port: ports[i].target_port,
            protocol: "TCP".to_owned(),
        };
        let ghost before = out.deep_view();
        let ghost pv = p.deep_view();
        assert(pv == all[i as int]);
        out.push(p);
        assert(out.deep_view() =~= before.push(pv));
        assert(all.take(i + 1) =~= before.push(pv));
        i = i + 1;
    }
    assert(all.take(i as int) =~= all);
    out
}

/// Derives endpoints from running pods.
pub struct EndpointController {
    /// Seconds between two passes.
    pub check_interval_secs: u64,
}

impl EndpointController {
    /// A controller with a given interval.
    pub fn new(check_interval_secs: u64) -> (r: Self)
        ensures
            r.check_interval_secs == check_interval_secs,
    {
        EndpointController { check_interval_secs }
    }

    /// One pass: the endpoints to store, under their keys.
    pub fn reconcile(services: &Vec<Service>, pods: &Vec<Pod>, now: i128) -> (r: Vec<
        (String, Endpoint),
    >)
        ensures
            r.deep_view() == services.deep_view().filter_map(endpoint_rule(pods.deep_view(), now)),
    {
        let ghost all = services.deep_view();
        let ghost f = endpoint_rule(pods.deep_view(), now);
        let mut out: Vec<(String, Endpoint)> = Vec::new();
        let mut i: usize = 0;
        assert(all.take(0) =~= Seq::<ServiceV>::empty());
        assert(out.deep_view() =~= Seq::<(Seq<char>, EndpointV)>::empty());
        while i < services.len()
            invariant
                i <= services@.len(),
                all == services.deep_view(),
                f == endpoint_rule(pods.deep_view(), now),
                out.deep_view() == all.take(i as int).filter_map(f),
            decreases services@.len() - i,
        {
            proof {
                lemma_filter_map_step(all, f, i as int);
            }
            let svc: &Service = &services[i];
            if !svc.spec.selector.is_empty() {
                let e: Endpoint = Endpoint {
                    id: svc.id.clone(),
                    service_id: svc.id.clone(),
                    service_name: svc.name.clone(),
                    namespace: svc.namespace.clone(),
                    addresses: addresses(pods, svc),
                    ports: ports_of(&svc.spec.ports),
                    created_at: now,
                };
                let key: String = key_in("endpoints", svc.namespace.as_str(), svc.id.as_str());
                let ghost x = (key@, e.deep_view());
                let ghost before = out.deep_view();
                out.push((key, e));
                assert(out.deep_view() =~= before.push(x));
                assert(f(all[i as int]) == Some(x));
            }
            i = i + 1;
        }
        assert(all.take(i as int) =~= all);
        out
    }
}

/// Every address behind a service belongs to a running pod of its namespace
/// and VPC that it selects.
pub proof fn law_addresses_are_served(svc: ServiceV, pods: Seq<PodV>, now: i128, i: int)
    requires
        0 <= i < endpoint_of(svc, pods, now).addresses.len(),
    ensures
        exists|p: PodV| #[trigger]
            pods.contains(p) && serves(p, svc) && endpoint_of(svc, pods, now).addresses[i].pod_id
                == Some(p.id) && p.ghost_ipv6 == Some(endpoint_of(svc, pods, now).addresses[i].ip),
{
    let a = endpoint_of(svc, pods, now).addresses;
    assert(a.contains(a[i]));
    pods.lemma_filter_map_contains(address_rule(svc), a[i]);
    let p = choose|p: PodV| #[trigger] pods.contains(p) && address_rule(svc)(p) == Some(a[i]);
    assert(pods.contains(p) && serves(p, svc));
}

/// Every endpoint of a pass is that of a service that selects something, with its
/// names, and every address in it is that of a pod that runs in the namespace and
/// the VPC of the service and whose labels hold each key of the selector with the
/// selector's value.
pub proof fn law_addresses_are_selected(
    services: Vec<Service>,
    pods: Vec<Pod>,
    now: i128,
    r: Vec<(String, Endpoint)>,
    n: int,
)
    requires
        call_ensures(EndpointController::reconcile, (&services, &pods, now), r),
        0 <= n < r.len(),
    ensures
        exists|s: int|
            0 <= s < services.len() && ({
                let svc = (#[trigger] services[s]).deep_view();
                let e = r[n].1.deep_view();
                &&& exists|k: Seq<char>| #[trigger] svc.spec.selector.contains_key(k)
                &&& e.service_id == svc.id
                &&& e.id == svc.id
                &&& e.service_name == svc.name
                &&& e.namespace == svc.namespace
                &&& e.created_at == now
                &&& e.ports.len() == svc.spec.ports.len()
                &&& forall|m: int|
                    0 <= m < e.ports.len() ==> {
                        &&& (#[trigger] e.ports[m]).name == svc.spec.ports[m].name
                        &&& e.ports[m].port == svc.spec.ports[m].target_port
                        &&& e.ports[m].protocol == "TCP"@
                    }
                &&& forall|m: int|
                    0 <= m < e.addresses.len() ==> exists|p: int|
                        0 <= p < pods.len() && ({
                            let pod = (#[trigger] pods[p]).deep_view();
                            let a = #[trigger] e.addresses[m];
                            &&& a.pod_id == Some(pod.id)
                            &&& a.node_name == pod.node_name
                            &&& pod.ghost_ipv6 == Some(a.ip)
                            &&& pod.status == PodStatus::Running
                            &&& pod.namespace == svc.namespace
                            &&& forall|k: Seq<char>| #[trigger]
                                svc.spec.selector.contains_key(k) ==> pod.labels.contains_key(k)
                                    && pod.labels[k] == svc.spec.selector[k]
                            &&& (match (pod.vpc_name, pod.spec.vpc) {
                                (Some(v), _) => v,
                                (None, Some(v)) => v,
                                (None, None) => "default"@,
                            }) == (match svc.vpc {
                                Some(v) => v,
                                None => "default"@,
                            })
                        })
            }),
{
    let all = services.deep_view();
    let ps = pods.deep_view();
    let f = endpoint_rule(ps, now);
    let out = r.deep_view();
    let e = r[n].1.deep_view();
    assert(out[n].1 == e);
    assert(out.contains(out[n]));
    all.lemma_filter_map_contains(f, out[n]);
    let svc = choose|svc: ServiceV| #[trigger] all.contains(svc) && f(svc) == Some(out[n]);
    let s = choose|s: int| 0 <= s < all.len() && all[s] == svc;
    assert(services[s].deep_view() == svc);
    assert(e == endpoint_of(svc, ps, now));
    assert(exists|k: Seq<char>| #[trigger] svc.spec.selector.contains_key(k)) by {
        if forall|k: Seq<char>| !#[trigger] svc.spec.selector.contains_key(k) {
            assert(svc.spec.selector =~= Map::<Seq<char>, Seq<char>>::empty());
        }
    }
    assert forall|m: int| 0 <= m < e.addresses.len() implies exists|p: int|
        0 <= p < pods.len() && ({
            let pod = (#[trigger] pods[p]).deep_view();
            let a = #[trigger] e.addresses[m];
            &&& a.pod_id == Some(pod.id)
            &&& a.node_name == pod.node_name
            &&& pod.ghost_ipv6 == Some(a.ip)
            &&& pod.status == PodStatus::Running
            &&& pod.namespace == svc.namespace
            &&& forall|k: Seq<char>| #[trigger]
                svc.spec.selector.contains_key(k) ==> pod.labels.contains_key(k) && pod.labels[k]
                    == svc.spec.selector[k]
            &&& (match (pod.vpc_name, pod.spec.vpc) {
                (Some(v), _) => v,
                (None, Some(v)) => v,
                (None, None) => "default"@,
            }) == (match svc.vpc {
                Some(v) => v,
                None => "default"@,
            })
        }) by {
        let a = e.addresses[m];
        assert(e.addresses.contains(a));
        ps.lemma_filter_map_contains(address_rule(svc), a);
        let pod = choose|p: PodV| #[trigger] ps.contains(p) && address_rule(svc)(p) == Some(a);
        let p = choose|p: int| 0 <= p < ps.len() && ps[p] == pod;
        assert(pods[p].deep_view() == pod);
        assert(serves(pod, svc));
    }
}

/// Every pod that runs in the namespace and the VPC of a service, has an address,
/// and whose labels hold each key of the selector with the selector's value, is
/// listed in the endpoint of the service.
pub proof fn law_selected_pods_are_listed(
    services: Vec<Service>,
    pods: Vec<Pod>,
    now: i128,
    r: Vec<(String, Endpoint)>,
    s: int,
    p: int,
    key: Seq<char>,
)
    requires
        call_ensures(EndpointController::reconcile, (&services, &pods, now), r),
        0 <= s < services.len(),
        0 <= p < pods.len(),
        pods[p].status == PodStatus::Running,
        pods[p].namespace@ == services[s].namespace@,
        pods[p].ghost_ipv6 is Some,
        services[s].deep_view().spec.selector.contains_key(key),
        forall|k: Seq<char>| #[trigger]
            services[s].deep_view().spec.selector.contains_key(k) ==> pods[p].deep_view().labels.contains_key(k)
                && pods[p].deep_view().labels[k] == services[s].deep_view().spec.selector[k],
        (match (pods[p].deep_view().vpc_name, pods[p].deep_view().spec.vpc) {
            (Some(v), _) => v,
            (None, Some(v)) => v,
            (None, None) => "default"@,
        }) == (match services[s].deep_view().vpc {
            Some(v) => v,
            None => "default"@,
        }),
    ensures
        exists|n: int, m: int|
            0 <= n < r.len() && 0 <= m < r[n].1.addresses.len() && ({
                let e = r[n].1.deep_view();
                let a = (#[trigger] r[n].1.addresses[m]).deep_view();
                &&& e.service_id == services[s].id@
                &&& e.namespace == services[s].namespace@
                &&& Some(a.ip) == pods[p].deep_view().ghost_ipv6
                &&& a.node_name == pods[p].deep_view().node_name
                &&& a.pod_id == Some(pods[p].id@)
            }),
{
    let all = services.deep_view();
    let ps = pods.deep_view();
    let f = endpoint_rule(ps, now);
    let out = r.deep_view();
    let svc = services[s].deep_view();
    let pod = pods[p].deep_view();
    assert(all[s] == svc);
    assert(ps[p] == pod);
    assert(!(svc.spec.selector =~= Map::<Seq<char>, Seq<char>>::empty())) by {
        assert(svc.spec.selector.contains_key(key));
    }
    lemma_filter_map_has(all, f, s);
    let n = choose|n: int| 0 <= n < out.len() && out[n] == f(svc)->0;
    assert(serves(pod, svc));
    lemma_filter_map_has(ps, address_rule(svc), p);
    let e = endpoint_of(svc, ps, now);
    assert(out[n].1 == e);
    let m = choose|m: int|
        0 <= m < e.addresses.len() && e.addresses[m] == address_rule(svc)(pod)->0;
    assert(r[n].1.deep_view() == e);
    assert(r[n].1.addresses[m].deep_view() == e.addresses[m]);
}

/// The endpoints of a pass follow the services one by one: a further service adds
/// one endpoint at the end where it selects something, and none where it does not,
/// and a further pod adds at most one address to an endpoint.
pub proof fn law_one_endpoint_per_service(
    services: Seq<ServiceV>,
    svc: ServiceV,
    pods: Seq<PodV>,
    pod: PodV,
    now: i128,
)
    ensures
        ({
            let before = services.filter_map(endpoint_rule(pods, now));
            let after = services.push(svc).filter_map(endpoint_rule(pods, now));
            &&& (exists|k: Seq<char>| #[trigger] svc.spec.selector.contains_key(k)) ==> after.len()
                == before.len() + 1 && after.drop_last() == before && after.last().1.service_id
                == svc.id && after.last().0 == "/registry/endpoints/"@ + svc.namespace + "/"@
                + svc.id
            &&& (forall|k: Seq<char>| !#[trigger] svc.spec.selector.contains_key(k)) ==> after
                == before
            &&& ({
                let fewer = endpoint_of(svc, pods, now).addresses;
                let more = endpoint_of(svc, pods.push(pod), now).addresses;
                more == fewer || more.drop_last() == fewer && more.len() == fewer.len() + 1
            })
        }),
{
    let f = endpoint_rule(pods, now);
    let n = services.len() as int;
    lemma_filter_map_step(services.push(svc), f, n);
    assert(services.push(svc).take(n) =~= services);
    assert(services.push(svc).take(n + 1) =~= services.push(svc));
    let before = services.filter_map(f);
    if forall|k: Seq<char>| !#[trigger] svc.spec.selector.contains_key(k) {
        assert(svc.spec.selector =~= Map::<Seq<char>, Seq<char>>::empty());
    } else {
        let k = choose|k: Seq<char>| #[trigger] svc.spec.selector.contains_key(k);
        assert(!(svc.spec.selector =~= Map::<Seq<char>, Seq<char>>::empty()));
        assert(before.push(f(svc)->0).drop_last() =~= before);
        assert((f(svc)->0).0 == "/registry/endpoints/"@ + svc.namespace + "/"@ + svc.id) by {
            reveal_strlit("/registry/endpoints/");
            reveal_strlit("/registry/");
            reveal_strlit("endpoints");
            reveal_strlit("/");
            assert("/registry/"@ + "endpoints"@ + "/"@ =~= "/registry/endpoints/"@);
        }
    }
    let g = address_rule(svc);
    let m = pods.len() as int;
    lemma_filter_map_step(pods.push(pod), g, m);
    assert(pods.push(pod).take(m) =~= pods);
    assert(pods.push(pod).take(m + 1) =~= pods.push(pod));
    let fewer = pods.filter_map(g);
    if g(pod) is Some {
        assert(fewer.push(g(pod)->0).drop_last() =~= fewer);
    }
}

} // verus!
