//! The decisions behind the HTTP API.
use k3rs::api::auth::{
    action_from_method, authenticate, authorize, resource_from_path, AuthHeader, AuthUser,
};
use k3rs::api::backup::{
    backup_failed, backup_filename, backup_status, backup_success, compress_backup,
    content_disposition, create_backup, decompress_backup, do_restore, last_backup_key,
    perform_restore, refuse_backup, refuse_restore, restore_begins, restore_ends, restore_guard,
    restore_reply, validate_backup, BackupFile, StoreOp,
};
use k3rs::api::cluster::{cluster_info, nodes_not_listed, request_id};
use k3rs::api::exec::{agent_unreachable, exec_into_pod, pod_key};
use k3rs::api::images::{
    delete_image, get_runtime_info, list_images, pull_image, report_node_images, upgrade_runtime,
};
use k3rs::api::nodes::{
    action_done, action_failed, check_join_token, cordon, cordon_node, drain_node, drain_pods,
    heartbeat_reply, node_heartbeat, register_as, register_node, registration_failed,
    master_node_as, seed_master_node, uncordon, uncordon_node, NodeAction, NodeRegistrationRequest,
};
use k3rs::api::reply::Lookup;
use k3rs::api::resources::{
    create_deployment, create_endpoint, create_failed, create_namespace, create_pod,
    create_service, create_service_at, delete_pod, delete_resource, delete_status, get_pod,
    list_resources, new_pod, new_stamp, Stored,
};
use k3rs::api::server::{metrics_handler, seed_namespace, seed_namespace_names, server_metrics};
use k3rs::api::vpc::{
    change_failed, create_vpc, create_vpc_peering, delete_vpc, delete_vpc_peering, get_vpc,
    VpcChange, VpcController,
};
use k3rs::api::watch::{list_processes, wants, watch_start, WatchQuery};
use k3rs::collections::Labels;
use k3rs::container::image::ImageInfo;
use k3rs::model::{
    Deployment, DeploymentSpec, DeploymentStatus, DeploymentStrategy, Endpoint, Namespace, Node,
    NodeStatus, PeeringStatus, Pod, PodSpec, PodStatus, ResourceRequirements, Service,
    ServiceSpec, Taint, TaintEffect, Vpc, VpcPeering, VpcStatus,
};

fn node(name: &str) -> Node {
    Node {
        id: format!("id-{}", name),
        name: name.to_string(),
        status: NodeStatus::Unknown,
        registered_at: 0,
        last_heartbeat: 0,
        labels: Labels::new(),
        taints: vec![],
        capacity: ResourceRequirements { cpu_millis: 0, memory_bytes: 0 },
        allocated: ResourceRequirements { cpu_millis: 0, memory_bytes: 0 },
        unschedulable: false,
        address: "10.0.0.7".to_string(),
        agent_api_port: 10250,
    }
}

fn pod(id: &str, on: Option<&str>) -> Pod {
    Pod {
        id: id.to_string(),
        name: id.to_string(),
        namespace: "default".to_string(),
        spec: PodSpec { containers: vec![], vpc: None },
        status: PodStatus::Running,
        node_name: on.map(|n| n.to_string()),
        labels: Labels::new(),
        owner_ref: None,
        restart_count: 0,
        runtime_info: None,
        ghost_ipv6: None,
        vpc_name: None,
        created_at: 0,
    }
}

fn is_uuid(s: &str) -> bool {
    let b: Vec<char> = s.chars().collect();
    b.len() == 36
        && b.iter().enumerate().all(|(i, c)| match i {
            8 | 13 | 18 | 23 => *c == '-',
            _ => c.is_ascii_hexdigit() && !c.is_ascii_uppercase(),
        })
}

// Authentication

fn bearer(t: &str) -> AuthHeader {
    AuthHeader::Text(format!("Bearer {}", t))
}

#[test]
fn the_join_token_makes_the_administrator() {
    let u = authenticate(&bearer("secret"), "secret").unwrap();
    assert_eq!(u.name, "admin");
    assert_eq!(u.token, "secret");
    assert_eq!(authenticate(&bearer("other"), "secret").unwrap_err(), 401);
    assert_eq!(authenticate(&AuthHeader::Missing, "secret").unwrap_err(), 401);
    assert_eq!(authenticate(&AuthHeader::Opaque, "secret").unwrap_err(), 401);
    assert_eq!(
        authenticate(&AuthHeader::Text("Basic secret".to_string()), "secret").unwrap_err(),
        401
    );
    assert_eq!(authenticate(&bearer("Bearer secret"), "secret").unwrap_err(), 401);
    assert_eq!(authenticate(&AuthHeader::Text("secret".to_string()), "secret").unwrap_err(), 401);
    assert_eq!(authenticate(&bearer("Bearer odd"), "Bearer odd").unwrap().token, "Bearer odd");
}

#[test]
fn only_the_administrator_may() {
    let user = |name: &str| AuthUser { name: name.to_string(), token: String::new() };
    assert!(authorize(Some(&user("admin"))).is_ok());
    assert_eq!(authorize(Some(&user("eve"))).unwrap_err(), 403);
    assert_eq!(authorize(None).unwrap_err(), 401);
    assert_eq!(action_from_method("PATCH"), "update");
    assert_eq!(action_from_method("DELETE"), "delete");
    assert_eq!(action_from_method("OPTIONS"), "");
    assert_eq!(resource_from_path("/api/v1/namespaces/default/pods"), "pods");
    assert_eq!(resource_from_path("/api/v1/nodes"), "nodes");
    assert_eq!(resource_from_path("/metrics"), "*");
}

// Backups

fn sample() -> BackupFile {
    create_backup(
        &vec![
            ("/registry/nodes/a".to_string(), br#"{"id":"a"}"#.to_vec()),
            ("/registry/pods/default/p".to_string(), br#"[1,-2,true]"#.to_vec()),
            ("/registry/raw".to_string(), vec![0xff]),
        ],
        "pem",
        "1.0",
        1_700_000_000_000_000_000,
    )
}

#[test]
fn backups_hold_every_value_that_is_json() {
    let b = sample();
    assert_eq!(b.version, "1.0");
    assert_eq!(b.cluster_name, "k3rs");
    assert_eq!(b.node_count, 1);
    assert_eq!(b.key_count, 2);
    assert_eq!(b.entries[0].key, "/registry/nodes/a");
    assert_eq!(b.entries[0].value["id"], "a");
    assert_eq!(b.entries[1].value[1], -2);
    assert_eq!(b.ca_cert, "pem");
}

#[test]
fn compression_is_undone() {
    let text = b"{\"a\":[1,2,3]}".repeat(50);
    let packed = compress_backup(&text).unwrap();
    assert_eq!(&packed[..2], &[0x1f, 0x8b]);
    assert!(packed.len() < text.len());
    assert_eq!(decompress_backup(&packed).unwrap(), text);
    assert!(decompress_backup(&b"plain".to_vec()).is_err());
}

#[test]
fn backups_are_validated() {
    assert!(validate_backup(&sample(), "1.0").is_ok());
    assert_eq!(
        validate_backup(&sample(), "2.0").unwrap_err(),
        "Unsupported backup version '1.0' (expected '2.0')"
    );
    let mut empty = sample();
    empty.entries = vec![];
    assert_eq!(
        validate_backup(&empty, "1.0").unwrap_err(),
        "Backup contains no entries"
    );
    assert_eq!(
        backup_filename(1_700_000_000_000_000_000),
        "backup-20231114-221320.k3rs-backup.json.gz"
    );
    assert_eq!(content_disposition("f"), "attachment; filename=\"f\"");
}

#[test]
fn backup_state_is_told() {
    assert_eq!(backup_status(false, None).status, "no_backup");
    assert_eq!(backup_status(true, None).status, "unknown");
    let s = backup_status(true, Some(backup_success(3, "/b/f", 7)));
    assert_eq!(s.status, "success");
    assert_eq!(s.last_backup_at, Some(3));
    assert_eq!(s.last_backup_file, Some("/b/f".to_string()));
    assert_eq!(s.key_count, Some(7));
    assert_eq!(last_backup_key(), "/registry/_backup/last");
    let r = refuse_backup(true).unwrap();
    assert_eq!((r.status, r.body.as_str()), (503, "{\"error\":\"restore in progress\"}"));
    assert!(refuse_backup(false).is_none());
    let f = backup_failed("disk \"full\"");
    assert_eq!((f.status, f.body.as_str()), (500, "{\"error\":\"disk \\\"full\\\"\"}"));
}

#[test]
fn only_valid_backups_are_restored() {
    assert!(refuse_restore(true).is_none());
    assert_eq!(refuse_restore(false).unwrap().status, 403);
    assert!(do_restore(&Ok(sample()), "1.0", false).is_none());
    let dry = do_restore(&Ok(sample()), "1.0", true).unwrap();
    assert_eq!(dry.status, 200);
    let v: serde_json::Value = serde_json::from_str(&dry.body).unwrap();
    assert_eq!(v["dry_run"], true);
    assert_eq!(v["would_restore"], 2);
    assert_eq!(v["backup_created_at"], "2023-11-14T22:13:20Z");
    assert_eq!(v["backup_version"], "1.0");
    assert_eq!(v["cluster_name"], "k3rs");
    let bad = do_restore(&Err("eof".to_string()), "1.0", false).unwrap();
    assert_eq!(
        (bad.status, bad.body.as_str()),
        (400, "{\"error\":\"Failed to parse backup: eof\"}")
    );
    let old = do_restore(&Ok(sample()), "2.0", true).unwrap();
    assert_eq!(old.status, 400);
    assert!(old.body.contains("Invalid backup: Unsupported backup version"));
}

#[test]
fn a_restore_replaces_the_store() {
    let existing = vec![
        "/registry/old".to_string(),
        "/registry/_backup/last".to_string(),
        "/registry/_restore/status".to_string(),
    ];
    let plan = perform_restore(&existing, &sample());
    assert_eq!(plan.imported, 2);
    let ops: Vec<String> = plan
        .ops
        .iter()
        .map(|o| match o {
            StoreOp::Delete(k) => format!("- {}", k),
            StoreOp::Put(k, v) => format!("+ {} {}", k, v),
        })
        .collect();
    assert_eq!(
        ops,
        vec![
            "- /registry/old".to_string(),
            "+ /registry/nodes/a {\"id\":\"a\"}".to_string(),
            "+ /registry/pods/default/p [1,-2,true]".to_string(),
        ]
    );
    assert!(matches!(restore_begins(), StoreOp::Put(_, _)));
    assert!(restore_ends(true, 5).len() > restore_ends(false, 5).len());
    let done = restore_reply(Ok(2), 1_700_000_000_000_000_000);
    assert_eq!(done.status, 200);
    assert_eq!(restore_reply(Err("store"), 0).status, 500);
}

#[test]
fn requests_wait_for_a_restore() {
    assert!(restore_guard(false, "/api/v1/pods").is_none());
    assert_eq!(restore_guard(true, "/api/v1/pods").unwrap().status, 503);
}

// Cluster and sessions

#[test]
fn the_cluster_describes_itself() {
    let c = cluster_info("0.0.0.0:6443", Some(3));
    assert_eq!(c.endpoint, "http://0.0.0.0:6443");
    assert_eq!(c.version, "v0.1.0+k3rs");
    assert_eq!(c.node_count, 3);
    assert_eq!(cluster_info("x", None).node_count, 0);
    assert_eq!(nodes_not_listed().body, "Failed to list nodes");
    let id = request_id();
    assert!(is_uuid(&id));
    assert_ne!(id, request_id());
}

#[test]
fn sessions_go_to_the_node_of_the_pod() {
    let nodes = Some(vec![node("a"), node("b")]);
    assert_eq!(
        exec_into_pod(&Some(Some(pod("p", Some("id-b")))), &nodes).unwrap(),
        "ws://10.0.0.7:10250/exec/p"
    );
    assert_eq!(
        exec_into_pod(&Some(Some(pod("p", Some("b")))), &nodes).unwrap(),
        "ws://10.0.0.7:10250/exec/p"
    );
    let status = |p: Option<Option<Pod>>, n: &Option<Vec<Node>>| {
        exec_into_pod(&p, n).unwrap_err().status
    };
    assert_eq!(status(None, &nodes), 500);
    assert_eq!(status(Some(None), &nodes), 404);
    assert_eq!(status(Some(Some(pod("p", None))), &nodes), 400);
    assert_eq!(status(Some(Some(pod("p", Some("id-b")))), &None), 500);
    assert_eq!(status(Some(Some(pod("p", Some("id-z")))), &nodes), 404);
    assert_eq!(pod_key("default", "p"), "/registry/pods/default/p");
    assert_eq!(
        agent_unreachable("refused"),
        "Error: Failed to connect to agent: refused\r\n"
    );
}

// Images

fn image(id: &str, size: u64) -> ImageInfo {
    ImageInfo {
        id: id.to_string(),
        node_name: String::new(),
        size,
        size_human: String::new(),
        layers: 0,
        architecture: String::new(),
        os: String::new(),
        created: String::new(),
    }
}

#[test]
fn images_of_all_nodes_are_listed() {
    let (key, tagged) = report_node_images("n1", &vec![image("a", 1)]);
    assert_eq!(key, "/registry/images/n1");
    assert_eq!(tagged[0].node_name, "n1");
    let all = list_images(&vec![tagged, vec![image("b", 5), image("c", 1)]]);
    let ids: Vec<&str> = all.iter().map(|i| i.id.as_str()).collect();
    assert_eq!(ids, vec!["b", "a", "c"]);
    assert_eq!(pull_image().status, 501);
    assert_eq!(delete_image().status, 501);
    assert!(get_runtime_info().body.starts_with("{\"error\":\"Runtime info is available"));
    assert!(upgrade_runtime().body.starts_with("{\"error\":\"Runtime upgrade is handled"));
}

// Nodes

fn request(token: &str) -> NodeRegistrationRequest {
    NodeRegistrationRequest {
        token: token.to_string(),
        node_name: "n".to_string(),
        labels: Labels::new(),
    }
}

#[test]
fn nodes_join_with_the_token() {
    let issued = || Some(("cert".to_string(), "key".to_string()));
    let r = match register_as(&request("t"), "t", issued(), "ca", "i", 9) {
        Ok(r) => r,
        Err(e) => panic!("{}", e.body),
    };
    assert_eq!(r.key, "/registry/nodes/n");
    assert_eq!(r.node.id, "i");
    assert_eq!(r.node.status, NodeStatus::Ready);
    assert_eq!(r.node.last_heartbeat, 9);
    assert_eq!(r.response.certificate, "cert");
    assert_eq!(r.response.private_key, "key");
    assert_eq!(r.response.server_ca, "ca");
    let fresh = match register_node(&request("t"), "t", issued(), "ca") {
        Ok(r) => r,
        Err(e) => panic!("{}", e.body),
    };
    assert!(is_uuid(&fresh.node.id));
    assert!(fresh.node.registered_at > 1_600_000_000_000_000_000);
    let refused = |token: &str, i: Option<(String, String)>| {
        let e = register_node(&request(token), "t", i, "ca").err().unwrap();
        (e.status, e.body)
    };
    assert_eq!(refused("", issued()), (401, "Missing join token".to_string()));
    assert_eq!(refused("x", issued()), (403, "Invalid join token".to_string()));
    assert_eq!(
        refused("t", None),
        (500, "Certificate generation failed".to_string())
    );
    assert!(check_join_token("t", "t").is_none());
    assert_eq!(registration_failed(true).body, "Failed to persist node");
    assert_eq!(registration_failed(false).body, "Serialization failed");
}

#[test]
fn the_server_seeds_itself() {
    assert!(seed_master_node("m", true, 3).is_none());
    assert!(is_uuid(&seed_master_node("m", false, 3).unwrap().1.id));
    let (key, m) = master_node_as("m", "i", 3);
    assert_eq!(key, "/registry/nodes/m");
    assert_eq!(m.labels.get("node-role.kubernetes.io/master"), Some(&"true".to_string()));
    assert_eq!(m.taints.len(), 1);
    assert_eq!(m.taints[0].effect, TaintEffect::NoSchedule);
}

#[test]
fn heartbeats_are_taken_in() {
    let nodes = vec![("k".to_string(), node("a"))];
    let (key, n) = node_heartbeat(&nodes, "a", 44).unwrap();
    assert_eq!(key, "k");
    assert_eq!(n.last_heartbeat, 44);
    assert_eq!(n.status, NodeStatus::Ready);
    assert!(node_heartbeat(&nodes, "z", 44).is_none());
    assert_eq!(heartbeat_reply(false, false, false).status, 500);
    assert_eq!(heartbeat_reply(true, false, false).status, 404);
    assert_eq!(heartbeat_reply(true, true, false).status, 500);
    assert_eq!(heartbeat_reply(true, true, true).body, "{\"status\":\"ok\"}");
}

#[test]
fn uncordoning_undoes_cordoning() {
    let mut n = node("a");
    n.status = NodeStatus::Ready;
    n.taints = vec![Taint {
        key: "gpu".to_string(),
        value: "only".to_string(),
        effect: TaintEffect::NoExecute,
    }];
    let c = cordon(&n);
    assert!(c.unschedulable);
    assert_eq!(c.taints.len(), 2);
    assert_eq!(c.taints[1].key, "node.kubernetes.io/unschedulable");
    assert_eq!(cordon(&c).taints.len(), 2);
    let u = uncordon(&c);
    assert!(!u.unschedulable);
    assert_eq!(u.taints.len(), 1);
    assert_eq!(u.taints[0].key, "gpu");
    assert_eq!(u.status, NodeStatus::Ready);
}

#[test]
fn drained_nodes_give_up_their_pods() {
    let nodes = vec![("k".to_string(), node("a"))];
    let (_, d) = drain_node(&nodes, "a").unwrap();
    assert!(d.unschedulable);
    assert_eq!(d.status, NodeStatus::NotReady);
    let pods = vec![
        ("1".to_string(), pod("1", Some("a"))),
        ("2".to_string(), pod("2", Some("b"))),
        ("3".to_string(), pod("3", Some("id-a"))),
    ];
    let moved = drain_pods(&pods, &d);
    assert_eq!(moved.len(), 2);
    assert_eq!(moved[1].0, "3");
    assert_eq!(moved[0].1.node_name, None);
    assert_eq!(moved[0].1.status, PodStatus::Pending);
    assert_eq!(cordon_node(&nodes, "z").unwrap_err().body, "Node not found: z");
    assert!(uncordon_node(&nodes, "a").is_ok());
    assert_eq!(
        action_done(NodeAction::Drain, 3).body,
        "{\"evicted_pods\":3,\"status\":\"drained\"}"
    );
    assert_eq!(action_done(NodeAction::Cordon, 0).body, "{\"status\":\"cordoned\"}");
    assert_eq!(action_failed("x").status, 500);
}

// Resources

fn service(ip: Option<&str>) -> Service {
    Service {
        id: String::new(),
        name: "web".to_string(),
        namespace: String::new(),
        spec: ServiceSpec { selector: Labels::new(), ports: vec![] },
        vpc: None,
        cluster_ip: ip.map(|s| s.to_string()),
        created_at: 0,
    }
}

#[test]
fn services_get_an_address() {
    let (key, s) = create_service_at(service(None), "default", "i", 4, 251);
    assert_eq!(key, "/registry/services/default/web");
    assert_eq!(s.id, "i");
    assert_eq!(s.cluster_ip, Some("10.43.0.3".to_string()));
    let (_, kept) = create_service_at(service(Some("10.43.0.99")), "default", "i", 4, 1);
    assert_eq!(kept.cluster_ip, Some("10.43.0.99".to_string()));
    let mut seen: Vec<String> = (0..40)
        .map(|_| create_service(service(None), "default").1.cluster_ip.unwrap())
        .collect();
    for ip in &seen {
        let last: u32 = ip.strip_prefix("10.43.0.").unwrap().parse().unwrap();
        assert!((2..252).contains(&last));
    }
    seen.sort();
    seen.dedup();
    assert!(seen.len() > 1);
}

#[test]
fn new_resources_are_stamped() {
    let stamp = new_stamp("secrets", "default", "s");
    assert!(is_uuid(&stamp.id));
    assert_eq!(stamp.key, "/registry/secrets/default/s");
    assert_eq!(new_stamp("configmaps", "a", "b").key, "/registry/configmaps/a/b");
    let unnamed = new_stamp("ingresses", "default", "i");
    assert_eq!(unnamed.key, format!("/registry/ingresses/default/{}", unnamed.id));
    let p = new_pod(pod("x", None), "team");
    assert!(is_uuid(&p.id));
    assert_eq!(p.namespace, "team");
    assert_eq!(p.status, PodStatus::Pending);
    let (key, placed) = create_pod(p, Some("n".to_string()));
    assert_eq!(key, format!("/registry/pods/team/{}", placed.name));
    assert_eq!(key, pod_key("team", &placed.name));
    assert_eq!(placed.status, PodStatus::Scheduled);
    let (key, ns) = create_namespace(Namespace {
        name: "team".to_string(),
        labels: Labels::new(),
        created_at: 0,
    });
    assert_eq!(key, "/registry/namespaces/team");
    assert!(ns.created_at > 1_600_000_000_000_000_000);
    let (key, d) = create_deployment(
        Deployment {
            id: String::new(),
            name: "web".to_string(),
            namespace: String::new(),
            spec: DeploymentSpec {
                replicas: 1,
                selector: Labels::new(),
                template: PodSpec { containers: vec![], vpc: None },
                strategy: DeploymentStrategy::Recreate,
            },
            status: DeploymentStatus {
                ready_replicas: 0,
                available_replicas: 0,
                updated_replicas: 0,
            },
            generation: 1,
            observed_generation: 0,
            created_at: 0,
        },
        "team",
    );
    assert_eq!(key, "/registry/deployments/team/web");
    assert!(is_uuid(&d.id));
    let (key, e) = create_endpoint(
        Endpoint {
            id: String::new(),
            service_id: "s".to_string(),
            service_name: "web".to_string(),
            namespace: String::new(),
            addresses: vec![],
            ports: vec![],
            created_at: 0,
        },
        "team",
    );
    assert_eq!(key, "/registry/endpoints/team/s");
    assert!(is_uuid(&e.id));
}

#[test]
fn answers_about_resources() {
    assert!(create_failed("pods", Stored::Written).is_none());
    assert_eq!(
        create_failed("pods", Stored::StoreFailed).unwrap().body,
        "Failed to create pod"
    );
    assert_eq!(
        create_failed("pods", Stored::NotSerialized).unwrap().body,
        "Serialization failed"
    );
    assert_eq!(get_pod(Lookup::Found, true), 200);
    assert_eq!(get_pod(Lookup::Found, false), 500);
    assert_eq!(get_pod(Lookup::Missing, false), 404);
    assert_eq!(delete_status(true), 204);
    assert_eq!(delete_pod("a", "b"), "/registry/pods/a/b");
    assert_eq!(delete_resource("services", "a", "b"), "/registry/services/a/b");
    assert_eq!(list_resources("services", "a"), "/registry/services/a/");
}

// The server

#[test]
fn metrics_are_scraped() {
    let mut m = server_metrics();
    let text = metrics_handler(&mut m, Some(3), None);
    assert!(text.contains("# TYPE k3rs_api_requests_total counter\nk3rs_api_requests_total 1\n"));
    assert!(text.contains("k3rs_nodes_total 3\n"));
    assert!(text.contains("k3rs_pods_total 0\n"));
    let again = metrics_handler(&mut m, Some(4), Some(5));
    assert!(again.contains("k3rs_api_requests_total 2\n"));
    assert!(again.contains("k3rs_pods_total 5\n"));
}

#[test]
fn namespaces_are_seeded_once() {
    assert_eq!(seed_namespace_names(), vec!["default", "k3rs-system"]);
    let (key, ns) = seed_namespace("default", false, 3).unwrap();
    assert_eq!(key, "/registry/namespaces/default");
    assert_eq!(ns.created_at, 3);
    assert!(seed_namespace("default", true, 3).is_none());
}

// VPCs

fn vpc(name: &str, id: u16, cidr: &str) -> Vpc {
    Vpc {
        name: name.to_string(),
        vpc_id: id,
        ipv4_cidr: cidr.to_string(),
        status: VpcStatus::Active,
        created_at: 0,
        deleted_at: None,
    }
}

#[test]
fn vpcs_do_not_overlap() {
    let existing = vec![vpc("a", 4, "10.1.0.0/16"), vpc("b", 2, "10.2.0.0/16")];
    let (key, v) = create_vpc(vpc("c", 0, "10.3.0.0/16"), &existing, 8).unwrap();
    assert_eq!(key, "/registry/vpcs/c");
    assert_eq!(v.vpc_id, 5);
    assert_eq!(v.created_at, 8);
    let clash = create_vpc(vpc("c", 0, "10.2.128.0/17"), &existing, 8).unwrap_err();
    assert_eq!(clash.status, 409);
    assert_eq!(clash.body, "CIDR 10.2.128.0/17 overlaps with VPC 'b' (10.2.0.0/16)");
    let bad = create_vpc(vpc("c", 0, "10.2.0.0"), &existing, 8).unwrap_err();
    assert_eq!((bad.status, bad.body.as_str()), (400, "Invalid CIDR format"));
}

#[test]
fn vpcs_are_deleted_once() {
    let (v, changed) = delete_vpc("a", Some(vpc("a", 4, "10.1.0.0/16"))).unwrap();
    assert_eq!(v.status, VpcStatus::Terminating);
    assert!(changed);
    let (again, changed) = delete_vpc("a", Some(v)).unwrap();
    assert_eq!(again.status, VpcStatus::Terminating);
    assert!(!changed);
    assert_eq!(delete_vpc("default", None).unwrap_err().status, 400);
    assert_eq!(delete_vpc("a", None).unwrap_err().status, 404);
    assert!(get_vpc(Lookup::Found, true).is_none());
    assert_eq!(get_vpc(Lookup::Missing, false).unwrap().body, "VPC not found");
    assert_eq!(get_vpc(Lookup::Failed, false).unwrap().body, "Store error");
    assert_eq!(change_failed(VpcChange::Update).body, "Failed to update VPC");
    assert_eq!(VpcController::new().check_interval_secs > 0, true);
    let (_, d) = VpcController::ensure_default_vpc(false, 1).unwrap();
    assert_eq!((d.vpc_id, d.ipv4_cidr.as_str()), (1, "10.42.0.0/16"));
    assert!(VpcController::ensure_default_vpc(true, 1).is_none());
}

#[test]
fn peerings_join_two_vpcs() {
    let p = || VpcPeering {
        name: "p".to_string(),
        vpc_a: "a".to_string(),
        vpc_b: "b".to_string(),
        status: PeeringStatus::Pending,
        created_at: 0,
    };
    let (key, made) = create_vpc_peering(p(), Lookup::Found, Lookup::Found, 2).unwrap();
    assert_eq!(key, "/registry/vpc-peerings/p");
    assert_eq!(made.status, PeeringStatus::Active);
    let e = create_vpc_peering(p(), Lookup::Found, Lookup::Missing, 2).unwrap_err();
    assert_eq!((e.status, e.body.as_str()), (400, "VPC 'b' not found"));
    let e = create_vpc_peering(p(), Lookup::Missing, Lookup::Found, 2).unwrap_err();
    assert_eq!(e.body, "VPC 'a' not found");
    assert_eq!(
        create_vpc_peering(p(), Lookup::Failed, Lookup::Found, 2).unwrap_err().status,
        500
    );
    assert_eq!(delete_vpc_peering(true).status, 204);
    assert_eq!(delete_vpc_peering(false).body, "Failed to delete VPC peering");
}

// Watching

#[test]
fn watchers_see_what_they_ask_for() {
    let q = WatchQuery { prefix: Some("/registry/pods/".to_string()), seq: Some(7) };
    assert_eq!(watch_start(&q), 7);
    assert!(wants(&q, "/registry/pods/default/p"));
    assert!(!wants(&q, "/registry/nodes/a"));
    let all = WatchQuery { prefix: None, seq: None };
    assert_eq!(watch_start(&all), 0);
    assert!(wants(&all, "anything"));
}

#[test]
fn own_processes_are_listed_by_memory() {
    let names: Vec<String> = ["bash", "K3RS-agent", "k3rs-server", "vim"]
        .iter()
        .map(|s| s.to_string())
        .collect();
    assert_eq!(list_processes(&names, &vec![9, 2, 5, 1]), vec![2, 1]);
}
