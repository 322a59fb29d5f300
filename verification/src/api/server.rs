//! What a server prepares as it starts, and its metrics.
use vstd::prelude::*;
use vstd::string::*;
use crate::collections::{Labels, StrMap};
use crate::keys::key_of;
#[allow(unused_imports)]
use crate::keys::cluster_key;
use crate::metrics::MetricsRegistry;
#[allow(unused_imports)]
use crate::metrics::{registered, renders, with_value, wrapped_counter, MetricV};
use crate::model::Namespace;
#[allow(unused_imports)]
use crate::model::NamespaceV;

verus! {

/// The counters of a server.
pub open spec fn server_counters() -> Map<Seq<char>, MetricV> {
    map![
        "k3rs_api_requests_total"@ => MetricV { value: 0, help: "Total API requests served"@ },
        "k3rs_controller_reconcile_total"@ => MetricV {
            value: 0,
            help: "Total controller reconciliation cycles"@,
        }
    ]
}

/// The gauges of a server.
pub open spec fn server_gauges() -> Map<Seq<char>, MetricV> {
    map![
        "k3rs_nodes_total"@ => MetricV { value: 0, help: "Total registered nodes"@ },
        "k3rs_pods_total"@ => MetricV { value: 0, help: "Total pods in the cluster"@ },
        "k3rs_leader_status"@ => MetricV {
            value: 0,
            help: "Whether this server is the leader (1=leader, 0=follower)"@,
        }
    ]
}

proof fn lemma_names_differ()
    ensures
        "k3rs_api_requests_total"@ != "k3rs_controller_reconcile_total"@,
        "k3rs_nodes_total"@ != "k3rs_pods_total"@,
        "k3rs_nodes_total"@ != "k3rs_leader_status"@,
        "k3rs_pods_total"@ != "k3rs_leader_status"@,
{
    reveal_strlit("k3rs_api_requests_total");
    reveal_strlit("k3rs_controller_reconcile_total");
    reveal_strlit("k3rs_nodes_total");
    reveal_strlit("k3rs_pods_total");
    reveal_strlit("k3rs_leader_status");
    assert("k3rs_api_requests_total"@.len() != "k3rs_controller_reconcile_total"@.len());
    assert("k3rs_nodes_total"@.len() != "k3rs_pods_total"@.len());
    assert("k3rs_nodes_total"@.len() != "k3rs_leader_status"@.len());
    assert("k3rs_pods_total"@.len() != "k3rs_leader_status"@.len());
}

/// The metrics of a server.
pub fn server_metrics() -> (r: MetricsRegistry)
    ensures
        r.counters() == server_counters(),
        r.gauges() == server_gauges(),
{
    let mut m: MetricsRegistry = MetricsRegistry::new();
    proof {
        lemma_names_differ();
    }
    m.register_counter("k3rs_api_requests_total", "Total API requests served");
    m.register_counter(
        "k3rs_controller_reconcile_total",
        "Total controller reconciliation cycles",
    );
    m.register_gauge("k3rs_nodes_total", "Total registered nodes");
    m.register_gauge("k3rs_pods_total", "Total pods in the cluster");
    m.register_gauge(
        "k3rs_leader_status",
        "Whether this server is the leader (1=leader, 0=follower)",
    );
    assert(m.counters() =~= server_counters());
    assert(m.gauges() =~= server_gauges());
    m
}

/// The gauges after a scrape: nodes and pods as they were counted, or none where
/// they could not be.
pub open spec fn scraped_gauges(
    gauges: Map<Seq<char>, MetricV>,
    nodes: Option<i64>,
    pods: Option<i64>,
) -> Map<Seq<char>, MetricV> {
    with_value(
        with_value(
            gauges,
            "k3rs_nodes_total"@,
            match nodes {
                Some(n) => n as int,
                None => 0,
            },
        ),
        "k3rs_pods_total"@,
        match pods {
            Some(n) => n as int,
            None => 0,
        },
    )
}

/// The counters after a scrape, which counts as a request.
pub open spec fn scraped_counters(counters: Map<Seq<char>, MetricV>) -> Map<Seq<char>, MetricV> {
    with_value(
        counters,
        "k3rs_api_requests_total"@,
        wrapped_counter(counters["k3rs_api_requests_total"@].value + 1),
    )
}

/// Counts a request for the metrics and renders them with the numbers of nodes
/// and pods that the store has, or zero where it could not tell.
pub fn metrics_handler(metrics: &mut MetricsRegistry, nodes: Option<i64>, pods: Option<i64>) -> (r:
    String)
    ensures
        final(metrics).gauges() == scraped_gauges(old(metrics).gauges(), nodes, pods),
        final(metrics).counters() == scraped_counters(old(metrics).counters()),
        renders(r@, final(metrics).counters(), final(metrics).gauges()),
{
    let node_count: i64 = match nodes {
        Some(n) => n,
        None => 0,
    };
    let pod_count: i64 = match pods {
        Some(n) => n,
        None => 0,
    };
    metrics.gauge_set("k3rs_nodes_total", node_count);
    metrics.gauge_set("k3rs_pods_total", pod_count);
    metrics.counter_inc("k3rs_api_requests_total");
    metrics.render()
}

/// The namespaces that every cluster has.
pub open spec fn seed_names() -> Seq<Seq<char>> {
    seq!["default"@, "k3rs-system"@]
}

/// Names the namespaces that every cluster has.
pub fn seed_namespace_names() -> (r: Vec<&'static str>)
    ensures
        r.deep_view() == seed_names(),
{
    let mut out: Vec<&'static str> = Vec::new();
    out.push("default");
    out.push("k3rs-system");
    assert(out.deep_view() =~= seed_names());
    out
}

/// A namespace to seed, with its key; none where it is there already.
pub fn seed_namespace(name: &str, present: bool, now: i128) -> (r: Option<(String, Namespace)>)
    ensures
        match r {
            Some(x) => !present && x.0@ == cluster_key("namespaces"@, name@) && x.1.deep_view() == (
            NamespaceV {
                name: name@,
                labels: Map::<Seq<char>, Seq<char>>::empty(),
                created_at: now,
            }),
            None => present,
        },
{
    if present {
        return None;
    }
    let labels: Labels = StrMap::new();
    Some(
        (
            key_of("namespaces", name),
            Namespace { name: name.to_owned(), labels, created_at: now },
        ),
    )
}

/// Whatever was scraped, the metrics of a server keep their names.
pub proof fn law_scrape_keeps_names(gauges: Map<Seq<char>, MetricV>, nodes: int, pods: int)
    ensures
        with_value(
            with_value(gauges, "k3rs_nodes_total"@, nodes),
            "k3rs_pods_total"@,
            pods,
        ).dom() == gauges.dom(),
        gauges.contains_key("k3rs_nodes_total"@) ==> with_value(
            with_value(gauges, "k3rs_nodes_total"@, nodes),
            "k3rs_pods_total"@,
            pods,
        )["k3rs_nodes_total"@].value == nodes,
{
    lemma_names_differ();
    assert(with_value(
        with_value(gauges, "k3rs_nodes_total"@, nodes),
        "k3rs_pods_total"@,
        pods,
    ).dom() =~= gauges.dom());
}

/// A scrape shows the nodes and pods as they were counted, and zero where they could
/// not be; it leaves every other gauge as it was, and counts as one request.
pub proof fn law_scrape_counts(
    gauges: Map<Seq<char>, MetricV>,
    counters: Map<Seq<char>, MetricV>,
    nodes: Option<i64>,
    pods: Option<i64>,
    name: Seq<char>,
)
    requires
        gauges.contains_key("k3rs_nodes_total"@),
        gauges.contains_key("k3rs_pods_total"@),
        counters.contains_key("k3rs_api_requests_total"@),
        0 <= counters["k3rs_api_requests_total"@].value < u64::MAX,
    ensures
        nodes matches Some(n) ==> scraped_gauges(gauges, nodes, pods)["k3rs_nodes_total"@].value
            == n,
        nodes is None ==> scraped_gauges(gauges, nodes, pods)["k3rs_nodes_total"@].value == 0,
        pods matches Some(n) ==> scraped_gauges(gauges, nodes, pods)["k3rs_pods_total"@].value == n,
        pods is None ==> scraped_gauges(gauges, nodes, pods)["k3rs_pods_total"@].value == 0,
        name != "k3rs_nodes_total"@ && name != "k3rs_pods_total"@ && gauges.contains_key(name)
            ==> scraped_gauges(gauges, nodes, pods)[name] == gauges[name],
        scraped_counters(counters)["k3rs_api_requests_total"@].value
            == counters["k3rs_api_requests_total"@].value + 1,
        name != "k3rs_api_requests_total"@ && counters.contains_key(name) ==> scraped_counters(
            counters,
        )[name] == counters[name],
{
    lemma_names_differ();
}

/// A cluster is given the namespaces `default` and `k3rs-system`, each only where it
/// is missing, under its name.
pub proof fn law_namespaces_are_seeded(
    name: &str,
    present: bool,
    now: i128,
    r: Option<(String, Namespace)>,
    names: Vec<&'static str>,
)
    requires
        call_ensures(seed_namespace, (name, present, now), r),
        call_ensures(seed_namespace_names, (), names),
    ensures
        r is Some <==> !present,
        r matches Some(x) ==> x.0@ == "/registry/"@ + "namespaces"@ + "/"@ + name@ && x.1.name@
            == name@ && x.1.created_at == now,
        names.deep_view().contains("default"@),
        names.deep_view().contains("k3rs-system"@),
        names.len() == 2,
{
    assert(names.deep_view().len() == names.len());
    assert(names.deep_view()[0] == "default"@);
    assert(names.deep_view()[1] == "k3rs-system"@);
}

/// What a scrape shows and counts is what the registry holds afterwards.
pub proof fn law_scrape_is_shown(
    m: &mut MetricsRegistry,
    nodes: Option<i64>,
    pods: Option<i64>,
    r: String,
)
    requires
        call_ensures(metrics_handler, (m, nodes, pods), r),
        m.gauges().contains_key("k3rs_nodes_total"@),
        m.gauges().contains_key("k3rs_pods_total"@),
        m.counters().contains_key("k3rs_api_requests_total"@),
        0 <= m.counters()["k3rs_api_requests_total"@].value < u64::MAX,
    ensures
        renders(r@, final(m).counters(), final(m).gauges()),
        nodes matches Some(n) ==> final(m).gauges()["k3rs_nodes_total"@].value == n,
        pods matches Some(n) ==> final(m).gauges()["k3rs_pods_total"@].value == n,
        nodes is None ==> final(m).gauges()["k3rs_nodes_total"@].value == 0,
        pods is None ==> final(m).gauges()["k3rs_pods_total"@].value == 0,
        final(m).counters()["k3rs_api_requests_total"@].value
            == old(m).counters()["k3rs_api_requests_total"@].value + 1,
{
    law_scrape_counts(old(m).gauges(), old(m).counters(), nodes, pods, Seq::empty());
}

/// The metrics that a server starts with are those that a scrape sets: once scraped,
/// they show the nodes, the pods and one request, and the leader's status is kept.
pub proof fn law_server_metrics_are_scraped(
    m: &mut MetricsRegistry,
    start: MetricsRegistry,
    nodes: Option<i64>,
    pods: Option<i64>,
    r: String,
)
    requires
        call_ensures(server_metrics, (), start),
        m.counters() == start.counters(),
        m.gauges() == start.gauges(),
        call_ensures(metrics_handler, (m, nodes, pods), r),
    ensures
        final(m).gauges().contains_key("k3rs_nodes_total"@),
        final(m).gauges().contains_key("k3rs_pods_total"@),
        final(m).gauges().contains_key("k3rs_leader_status"@),
        final(m).counters().contains_key("k3rs_api_requests_total"@),
        final(m).counters().contains_key("k3rs_controller_reconcile_total"@),
        nodes matches Some(n) ==> final(m).gauges()["k3rs_nodes_total"@].value == n,
        pods matches Some(n) ==> final(m).gauges()["k3rs_pods_total"@].value == n,
        final(m).gauges()["k3rs_leader_status"@].value == 0,
        final(m).counters()["k3rs_api_requests_total"@].value == 1,
        final(m).counters()["k3rs_controller_reconcile_total"@].value == 0,
{
    lemma_names_differ();
    reveal_strlit("k3rs_nodes_total");
    reveal_strlit("k3rs_pods_total");
    reveal_strlit("k3rs_leader_status");
    reveal_strlit("k3rs_api_requests_total");
    reveal_strlit("k3rs_controller_reconcile_total");
    assert("k3rs_nodes_total"@.len() == 16 && "k3rs_pods_total"@.len() == 15);
    assert("k3rs_leader_status"@.len() == 18);
    assert("k3rs_api_requests_total"@.len() == 23);
    assert("k3rs_controller_reconcile_total"@.len() == 31);
    law_scrape_counts(start.gauges(), start.counters(), nodes, pods, "k3rs_leader_status"@);
    law_scrape_counts(
        start.gauges(),
        start.counters(),
        nodes,
        pods,
        "k3rs_controller_reconcile_total"@,
    );
}

} // verus!
