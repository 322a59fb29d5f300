//! Controllers: what each decides from what it finds.
use k3rs::collections::Labels;
use k3rs::controllers::backup::{BackupController, BackupCopy};
use k3rs::controllers::cronjob::{is_schedule_due, CronJobController};
use k3rs::controllers::daemonset::DaemonSetController;
use k3rs::keys::key_of_pod;
use k3rs::controllers::deployment::{compute_template_hash, DeploymentController};
use k3rs::controllers::endpoint::EndpointController;
use k3rs::controllers::events::{
    endpoint_prefixes, eviction_prefixes, on_event, vpc_prefixes, LeaderAction, LeaderEvent,
    LeaderGate, WakeAction, WakeEvent,
};
use k3rs::controllers::hpa::HPAController;
use k3rs::controllers::job::JobController;
use k3rs::controllers::node::{EvictionController, NodeController};
use k3rs::controllers::replicaset::ReplicaSetController;
use k3rs::controllers::restore_watcher::RestoreWatcher;
use k3rs::model::{
    ContainerSpec, CronJob, CronJobSpec, CronJobStatus, DaemonSet, DaemonSetSpec, DaemonSetStatus,
    Deployment, DeploymentSpec, DeploymentStatus, DeploymentStrategy, HorizontalPodAutoscaler,
    HpaMetrics, HpaSpec, HpaStatus, Job, JobCondition, JobSpec, JobStatus, Node, NodeStatus, Pod,
    PodRuntimeInfo, PodSpec, PodStatus, ReplicaSet, ReplicaSetSpec, ReplicaSetStatus,
    ResourceRequirements, Service, ServicePort, ServiceSpec,
};

const SECOND: i128 = 1_000_000_000;
const MINUTE: i128 = 60 * SECOND;

fn labels(items: &[(&str, &str)]) -> Labels {
    let mut l = Labels::new();
    for (k, v) in items {
        l.insert(k.to_string(), v.to_string());
    }
    l
}

fn strings(items: &[&str]) -> Vec<String> {
    items.iter().map(|s| s.to_string()).collect()
}

fn resources(cpu: u64) -> ResourceRequirements {
    ResourceRequirements {
        cpu_millis: cpu,
        memory_bytes: 0,
    }
}

fn container(image: &str, cpu: u64) -> ContainerSpec {
    ContainerSpec {
        name: "main".to_string(),
        image: image.to_string(),
        command: strings(&["serve"]),
        env: Labels::new(),
        resources: resources(cpu),
    }
}

fn pod_spec(cpu: u64) -> PodSpec {
    PodSpec {
        containers: vec![container("nginx", cpu)],
        vpc: None,
    }
}

fn pod(id: &str, owner: Option<&str>, status: PodStatus, node: Option<&str>, at: i128) -> Pod {
    Pod {
        id: id.to_string(),
        name: format!("pod-{}", id),
        namespace: "default".to_string(),
        spec: pod_spec(100),
        status,
        node_name: node.map(|n| n.to_string()),
        labels: labels(&[("app", "web")]),
        owner_ref: owner.map(|o| o.to_string()),
        restart_count: 0,
        runtime_info: None,
        ghost_ipv6: None,
        vpc_name: None,
        created_at: at,
    }
}

fn stored(p: Pod) -> (String, Pod) {
    (format!("/registry/pods/default/{}", p.id), p)
}

fn node(name: &str, status: NodeStatus, heartbeat: i128) -> Node {
    Node {
        id: format!("id-{}", name),
        name: name.to_string(),
        status,
        registered_at: 0,
        last_heartbeat: heartbeat,
        labels: Labels::new(),
        taints: vec![],
        capacity: resources(0),
        allocated: resources(0),
        unschedulable: false,
        address: String::new(),
        agent_api_port: 10250,
    }
}

fn replicaset(id: &str, owner: &str, hash: &str, replicas: u32) -> ReplicaSet {
    ReplicaSet {
        id: id.to_string(),
        name: format!("rs-{}", id),
        namespace: "default".to_string(),
        spec: ReplicaSetSpec {
            replicas,
            selector: labels(&[("app", "web")]),
            template: pod_spec(100),
        },
        status: ReplicaSetStatus {
            replicas: 0,
            ready_replicas: 2,
            available_replicas: 1,
        },
        owner_ref: Some(owner.to_string()),
        template_hash: hash.to_string(),
        created_at: 0,
    }
}

fn deployment(replicas: u32, strategy: DeploymentStrategy) -> Deployment {
    Deployment {
        id: "d".to_string(),
        name: "web".to_string(),
        namespace: "default".to_string(),
        spec: DeploymentSpec {
            replicas,
            selector: labels(&[("app", "web")]),
            template: pod_spec(100),
            strategy,
        },
        status: DeploymentStatus {
            ready_replicas: 0,
            available_replicas: 0,
            updated_replicas: 0,
        },
        generation: 4,
        observed_generation: 0,
        created_at: 0,
    }
}

fn rolling(max_surge: u32) -> DeploymentStrategy {
    DeploymentStrategy::RollingUpdate {
        max_surge,
        max_unavailable: 0,
    }
}

// Replica sets

#[test]
fn missing_replicas_are_created() {
    let rs = replicaset("r", "d", "h", 3);
    let pods = vec![
        stored(pod("a", Some("r"), PodStatus::Running, None, 1)),
        stored(pod("b", Some("other"), PodStatus::Running, None, 2)),
    ];
    let plan = ReplicaSetController::plan_scale(&rs, &pods);
    assert_eq!(plan.create, 2);
    assert!(plan.delete.is_empty());
}

#[test]
fn newest_replicas_in_excess_are_deleted() {
    let rs = replicaset("r", "d", "h", 1);
    let pods = vec![
        stored(pod("a", Some("r"), PodStatus::Running, None, 5)),
        stored(pod("b", Some("r"), PodStatus::Running, None, 9)),
        stored(pod("c", Some("r"), PodStatus::Running, None, 7)),
    ];
    let plan = ReplicaSetController::plan_scale(&rs, &pods);
    assert_eq!(plan.create, 0);
    assert_eq!(
        plan.delete,
        strings(&["/registry/pods/default/b", "/registry/pods/default/c"])
    );
}

#[test]
fn replicas_are_made_from_the_template() {
    let rs = replicaset("r", "d", "h", 1);
    let p = ReplicaSetController::pod_from_template("default", &rs, "0123456789", 3);
    assert_eq!(p.name, "rs-r-01234567");
    assert_eq!(p.owner_ref, Some("r".to_string()));
    assert_eq!(p.labels.get("app"), Some(&"web".to_string()));
    assert_eq!(p.status, PodStatus::Pending);
    let fresh = ReplicaSetController::create_pod("default", &rs, 3);
    assert_eq!(fresh.id.len(), 36);
    assert_eq!(fresh.name, format!("rs-r-{}", &fresh.id[..8]));
    let placed = ReplicaSetController::place(p, Some("n".to_string()));
    assert_eq!(placed.status, PodStatus::Scheduled);
    assert_eq!(placed.node_name, Some("n".to_string()));
    let left = ReplicaSetController::place(fresh, None);
    assert_eq!(left.status, PodStatus::Pending);
}

#[test]
fn containers_of_scheduled_pods_are_started() {
    let rs = replicaset("r", "d", "h", 1);
    let p = pod("a", Some("r"), PodStatus::Scheduled, Some("n"), 1);
    let start = ReplicaSetController::plan_start(&rs, &p).unwrap();
    assert_eq!(start.image, "nginx");
    assert_eq!(start.command, strings(&["serve"]));
    assert_eq!(start.creating.unwrap().status, PodStatus::ContainerCreating);
    let running = ReplicaSetController::finish_start(
        &p,
        Some(PodRuntimeInfo {
            backend: "youki".to_string(),
            version: "0.6".to_string(),
        }),
    );
    assert_eq!(running.status, PodStatus::Running);
    assert_eq!(running.runtime_info.unwrap().backend, "youki");
    assert_eq!(
        ReplicaSetController::finish_start(&p, None).status,
        PodStatus::Failed
    );
    let other = pod("b", Some("x"), PodStatus::Scheduled, Some("n"), 1);
    assert!(ReplicaSetController::plan_start(&rs, &other).is_none());
    let mut bare = pod("c", Some("r"), PodStatus::ContainerCreating, Some("n"), 1);
    bare.spec.containers = vec![];
    let start = ReplicaSetController::plan_start(&rs, &bare).unwrap();
    assert_eq!(start.image, "busybox:latest");
    assert!(start.creating.is_none());
}

#[test]
fn replica_status_counts_its_pods() {
    let pods = vec![
        stored(pod("a", Some("r"), PodStatus::Running, None, 1)),
        stored(pod("b", Some("r"), PodStatus::Scheduled, None, 1)),
        stored(pod("c", Some("r"), PodStatus::Failed, None, 1)),
        stored(pod("d", None, PodStatus::Running, None, 1)),
    ];
    let rs = ReplicaSetController::recount(replicaset("r", "d", "h", 3), &pods);
    assert_eq!(rs.status.replicas, 3);
    assert_eq!(rs.status.ready_replicas, 2);
    assert_eq!(rs.status.available_replicas, 1);
}

// Deployments

#[test]
fn templates_are_hashed() {
    assert_eq!(compute_template_hash(""), "0000000000000000");
    assert_eq!(compute_template_hash("ab"), format!("{:016x}", 97 * 31 + 98));
    let long = "x".repeat(100);
    let mut h: u64 = 0;
    for b in long.bytes() {
        h = h.wrapping_mul(31).wrapping_add(b as u64);
    }
    assert_eq!(compute_template_hash(&long), format!("{:016x}", h));
}

#[test]
fn rolling_updates_go_step_by_step() {
    let d = deployment(3, rolling(2));
    let old = ("k".to_string(), replicaset("o", "d", "old", 5));
    let plan = DeploymentController::plan_rollout(&d, "new", &vec![old]);
    assert_eq!(plan.create, Some(2));
    assert_eq!(plan.updates.len(), 1);
    assert_eq!(plan.updates[0].1.spec.replicas, 3);

    let sets = vec![
        ("k".to_string(), replicaset("o", "d", "old", 5)),
        ("c".to_string(), replicaset("c", "d", "new", 2)),
    ];
    let next = DeploymentController::plan_rollout(&d, "new", &sets);
    assert_eq!(next.create, None);
    let sizes: Vec<(&str, u32)> = next
        .updates
        .iter()
        .map(|(k, r)| (k.as_str(), r.spec.replicas))
        .collect();
    assert_eq!(sizes, vec![("c", 3), ("k", 0)]);
}

#[test]
fn rollouts_settle() {
    for strategy in [rolling(2), rolling(0), DeploymentStrategy::Recreate] {
        let d = deployment(3, strategy);
        let mut sets = vec![
            ("k".to_string(), replicaset("o", "d", "old", 5)),
            ("x".to_string(), replicaset("x", "other", "old", 5)),
            ("c".to_string(), replicaset("c", "d", "new", 2)),
            ("e".to_string(), replicaset("e", "d", "new", 9)),
        ];
        let plan = DeploymentController::plan_rollout(&d, "new", &sets);
        for (key, set) in plan.updates {
            for entry in sets.iter_mut() {
                if entry.0 == key {
                    entry.1.spec.replicas = set.spec.replicas;
                }
            }
        }
        assert_eq!(sets[1].1.spec.replicas, 5);
        assert_eq!(sets[2].1.spec.replicas, 3);
        let next = DeploymentController::plan_rollout(&d, "new", &sets);
        assert_eq!(next.create, None);
        assert!(next.updates.is_empty());
    }
}

#[test]
fn recreation_empties_the_old_set_first() {
    let d = deployment(3, DeploymentStrategy::Recreate);
    let old = vec![("k".to_string(), replicaset("o", "d", "old", 5))];
    let plan = DeploymentController::plan_rollout(&d, "new", &old);
    assert_eq!(plan.create, Some(3));
    assert!(!plan.create_first);
    assert_eq!(plan.updates[0].1.spec.replicas, 0);
    let made = DeploymentController::replicaset_for("default", &d, "0123456789abcdef", 3, "i", 7);
    assert_eq!(made.name, "web-01234567");
    assert_eq!(made.owner_ref, Some("d".to_string()));
    assert_eq!(made.template_hash, "0123456789abcdef");
    let fresh = DeploymentController::create_replicaset("default", &d, "h", 3, 7);
    assert_eq!(fresh.id.len(), 36);
    assert_eq!(fresh.spec.replicas, 3);
}

#[test]
fn deployment_status_sums_its_sets() {
    let sets = vec![
        ("a".to_string(), replicaset("a", "d", "new", 1)),
        ("b".to_string(), replicaset("b", "d", "old", 1)),
        ("c".to_string(), replicaset("c", "x", "new", 1)),
    ];
    let d = DeploymentController::update_status(deployment(3, rolling(1)), "new", &sets);
    assert_eq!(d.status.ready_replicas, 4);
    assert_eq!(d.status.available_replicas, 2);
    assert_eq!(d.status.updated_replicas, 2);
    assert_eq!(d.observed_generation, 4);
}

// Autoscaling

fn hpa(cpu: Option<u32>, memory: Option<u32>) -> HorizontalPodAutoscaler {
    HorizontalPodAutoscaler {
        id: "h".to_string(),
        name: "web".to_string(),
        namespace: "default".to_string(),
        spec: HpaSpec {
            target_deployment: "web".to_string(),
            min_replicas: 1,
            max_replicas: 4,
            metrics: HpaMetrics {
                cpu_utilization_percent: cpu,
                memory_utilization_percent: memory,
            },
        },
        status: HpaStatus {
            current_replicas: 0,
            desired_replicas: 0,
            current_cpu_utilization_percent: None,
            current_memory_utilization_percent: None,
            last_scale_time: None,
        },
        created_at: 0,
    }
}

fn scaled(replicas: u32, cpu: Option<u32>, memory: Option<u32>) -> (u32, Option<u32>) {
    let sets = vec![replicaset("r", "d", "h", replicas)];
    let pods = vec![pod("a", Some("r"), PodStatus::Running, None, 1)];
    let out = HPAController::evaluate(
        hpa(cpu, memory),
        deployment(replicas, rolling(1)),
        &sets,
        &pods,
        9,
    );
    let changed = match out.deploy {
        Some(d) => {
            assert_eq!(d.generation, 5);
            assert_eq!(out.hpa.status.last_scale_time, Some(9));
            Some(d.spec.replicas)
        }
        None => None,
    };
    (out.hpa.status.desired_replicas, changed)
}

#[test]
fn utilization_drives_the_replicas() {
    assert_eq!(scaled(2, Some(50), None), (3, Some(3)));
    assert_eq!(scaled(2, Some(90), None), (1, Some(1)));
    assert_eq!(scaled(2, Some(75), None), (2, None));
    assert_eq!(scaled(4, Some(50), None), (4, None));
    assert_eq!(scaled(1, Some(90), None), (1, None));
    assert_eq!(scaled(2, Some(50), Some(50)), (4, Some(4)));
    assert_eq!(scaled(2, None, None), (2, None));
}

#[test]
fn autoscaling_waits_for_pods() {
    let out = HPAController::evaluate(
        hpa(Some(50), Some(50)),
        deployment(2, rolling(1)),
        &vec![],
        &vec![pod("a", Some("r"), PodStatus::Running, None, 1)],
        9,
    );
    assert!(out.deploy.is_none());
    assert_eq!(out.hpa.status.desired_replicas, 2);
    assert_eq!(out.hpa.status.current_cpu_utilization_percent, None);
}

// Jobs

fn job(completions: u32, parallelism: u32, backoff: u32) -> Job {
    Job {
        id: "j".to_string(),
        name: "batch".to_string(),
        namespace: "default".to_string(),
        spec: JobSpec {
            template: pod_spec(0),
            completions,
            parallelism,
            backoff_limit: backoff,
        },
        status: JobStatus {
            active: 0,
            succeeded: 0,
            failed: 0,
            condition: JobCondition::Running,
            start_time: None,
            completion_time: None,
        },
        owner_ref: None,
        created_at: 0,
    }
}

fn job_pods(states: &[PodStatus]) -> Vec<(String, Pod)> {
    states
        .iter()
        .enumerate()
        .map(|(i, s)| stored(pod(&i.to_string(), Some("j"), *s, None, 0)))
        .collect()
}

#[test]
fn jobs_start_what_completion_needs() {
    let first = JobController::advance(job(5, 2, 3), &vec![], 8).unwrap();
    assert_eq!(first.create, 2);
    assert_eq!(first.job.status.start_time, Some(8));
    let pods = job_pods(&[
        PodStatus::Succeeded,
        PodStatus::Succeeded,
        PodStatus::Succeeded,
        PodStatus::Succeeded,
    ]);
    let near = JobController::advance(job(5, 2, 3), &pods, 8).unwrap();
    assert_eq!(near.create, 1);
    assert_eq!(near.job.status.succeeded, 4);
}

#[test]
fn jobs_end() {
    let done = JobController::advance(
        job(1, 1, 3),
        &job_pods(&[PodStatus::Succeeded, PodStatus::Running]),
        8,
    )
    .unwrap();
    assert_eq!(done.job.status.condition, JobCondition::Complete);
    assert_eq!(done.job.status.completion_time, Some(8));
    assert_eq!(done.create, 0);
    let failed =
        JobController::advance(job(2, 1, 1), &job_pods(&[PodStatus::Failed]), 8).unwrap();
    assert_eq!(failed.job.status.condition, JobCondition::Failed);
    assert_eq!(failed.create, 0);
    assert!(JobController::advance(failed.job, &vec![], 9).is_none());
    let p = JobController::create_job_pod("default", &job(1, 1, 1), 8);
    assert_eq!(p.name, format!("batch-{}", &p.id[..8]));
    assert_eq!(p.owner_ref, Some("j".to_string()));
}

// Cron jobs

#[test]
fn schedules_come_due() {
    assert!(is_schedule_due("* * * * *", 0, MINUTE));
    assert!(!is_schedule_due("* * * * *", 0, MINUTE - 1));
    assert!(is_schedule_due("*/5 * * * *", 0, 5 * MINUTE));
    assert!(!is_schedule_due("*/5 * * * *", 0, 4 * MINUTE));
    assert!(is_schedule_due("7 * * * *", 0, 7 * MINUTE));
    assert!(!is_schedule_due("8 * * * *", 0, 7 * MINUTE));
    assert!(is_schedule_due("7", MINUTE, 67 * MINUTE));
    assert!(!is_schedule_due("", 0, 100 * MINUTE));
    assert!(!is_schedule_due("often", 0, 100 * MINUTE));
    assert!(!is_schedule_due("*/x", 0, 100 * MINUTE));
}

fn cronjob(suspend: bool, last: Option<i128>) -> CronJob {
    CronJob {
        id: "c".to_string(),
        name: "nightly".to_string(),
        namespace: "default".to_string(),
        spec: CronJobSpec {
            schedule: "*/5 * * * *".to_string(),
            job_template: JobSpec {
                template: pod_spec(0),
                completions: 1,
                parallelism: 1,
                backoff_limit: 1,
            },
            suspend,
        },
        status: CronJobStatus {
            last_schedule_time: last,
            active_jobs: strings(&["x", "y"]),
        },
        created_at: 0,
    }
}

#[test]
fn cron_jobs_make_jobs() {
    assert!(CronJobController::should_run(&cronjob(false, None), 0));
    assert!(!CronJobController::should_run(&cronjob(true, None), 0));
    assert!(!CronJobController::should_run(&cronjob(false, Some(0)), MINUTE));
    let now = 1_700_000_000 * SECOND;
    let run = CronJobController::run("default", cronjob(false, None), now);
    assert_eq!(run.job.name, "nightly-20231114221320");
    assert_eq!(run.job.owner_ref, Some("c".to_string()));
    assert_eq!(run.cronjob.status.last_schedule_time, Some(now));
    assert_eq!(run.cronjob.status.active_jobs.len(), 3);
    assert_eq!(run.cronjob.status.active_jobs[2], run.job.id);
    let pruned = CronJobController::prune(cronjob(false, None), &vec![false, true]).unwrap();
    assert_eq!(pruned.status.active_jobs, strings(&["y"]));
    assert!(CronJobController::prune(cronjob(false, None), &vec![true, true]).is_none());
    assert!(CronJobController::prune(cronjob(true, None), &vec![false, true]).is_none());
}

// Daemon sets

fn daemonset() -> DaemonSet {
    DaemonSet {
        id: "ds".to_string(),
        name: "agent".to_string(),
        namespace: "default".to_string(),
        spec: DaemonSetSpec {
            node_selector: labels(&[("disk", "ssd")]),
            template: pod_spec(0),
        },
        status: DaemonSetStatus {
            desired_number_scheduled: 0,
            current_number_scheduled: 0,
            number_ready: 0,
        },
        created_at: 0,
    }
}

#[test]
fn every_eligible_node_runs_one_daemon() {
    let ssd = |name: &str, status: NodeStatus| {
        let mut n = node(name, status, 0);
        n.labels = labels(&[("disk", "ssd")]);
        n
    };
    let nodes = vec![
        ssd("a", NodeStatus::Ready),
        ssd("b", NodeStatus::Ready),
        ssd("c", NodeStatus::NotReady),
        node("d", NodeStatus::Ready, 0),
    ];
    let pods = vec![
        stored(pod("1", Some("ds"), PodStatus::Running, Some("a"), 0)),
        stored(pod("2", Some("ds"), PodStatus::Running, Some("d"), 0)),
    ];
    let plan = DaemonSetController::plan(daemonset(), &nodes, &pods);
    let names: Vec<&str> = plan.create.iter().map(|n| n.name.as_str()).collect();
    assert_eq!(names, vec!["b"]);
    assert_eq!(plan.delete, strings(&["/registry/pods/default/2"]));
    assert_eq!(plan.daemonset.status.desired_number_scheduled, 2);
    assert_eq!(plan.daemonset.status.number_ready, 2);

    let made = DaemonSetController::daemon_pod("default", &daemonset(), &nodes[1], "3", 5);
    assert_eq!(made.name, "agent-b");
    assert_eq!(made.node_name, Some("b".to_string()));
    let settled = DaemonSetController::plan(
        daemonset(),
        &nodes,
        &vec![
            stored(pod("1", Some("ds"), PodStatus::Running, Some("a"), 0)),
            stored(made),
        ],
    );
    assert!(settled.create.is_empty());
    assert!(settled.delete.is_empty());
    assert_eq!(settled.daemonset.status.desired_number_scheduled, 2);
    assert_eq!(settled.daemonset.status.number_ready, 2);
    let fresh = DaemonSetController::create_pod_on_node("default", &daemonset(), &nodes[0], 5);
    assert_eq!(fresh.id.len(), 36);
    assert_eq!(key_of_pod(&fresh), "/registry/pods/default/agent-a");
}

#[test]
fn surplus_daemons_go() {
    let ready = |name: &str| {
        let mut n = node(name, NodeStatus::Ready, 0);
        n.labels = labels(&[("disk", "ssd")]);
        n
    };
    let nodes = vec![ready("a"), ready("b")];
    let at = |id: &str, place: Option<&str>| {
        stored(pod(id, Some("ds"), PodStatus::Running, place, 0))
    };
    let pods = vec![
        at("1", Some("a")),
        at("2", Some("id-a")),
        at("3", None),
        at("4", Some("z")),
        at("5", Some("a")),
        at("6", Some("id-b")),
    ];
    let plan = DaemonSetController::plan(daemonset(), &nodes, &pods);
    assert!(plan.create.is_empty());
    assert_eq!(
        plan.delete,
        strings(&[
            "/registry/pods/default/2",
            "/registry/pods/default/4",
            "/registry/pods/default/5",
        ])
    );
    let left: Vec<(String, Pod)> =
        pods.into_iter().filter(|(k, _)| !plan.delete.contains(k)).collect();
    let again = DaemonSetController::plan(daemonset(), &nodes, &left);
    assert!(again.create.is_empty() && again.delete.is_empty());
    assert_eq!(again.daemonset.status.number_ready, 2);
    assert_eq!(again.daemonset.status.desired_number_scheduled, 2);
}

// Nodes

#[test]
fn health_follows_the_heartbeat() {
    let controller = NodeController::new();
    let at = |secs: i128| controller.assess(&node("a", NodeStatus::Ready, 0), secs * SECOND);
    assert_eq!(at(29), NodeStatus::Ready);
    assert_eq!(at(30), NodeStatus::NotReady);
    assert_eq!(at(59), NodeStatus::NotReady);
    assert_eq!(at(60), NodeStatus::Unknown);
    let mut master = node("m", NodeStatus::Unknown, 0);
    master.labels = labels(&[("node-role.kubernetes.io/master", "true")]);
    assert_eq!(controller.assess(&master, 1000 * SECOND), NodeStatus::Ready);
    let eager = NodeController {
        check_interval_secs: 1,
        not_ready_threshold_secs: 2,
        unknown_threshold_secs: 3,
    };
    assert_eq!(eager.assess(&node("a", NodeStatus::Ready, 0), 2 * SECOND), NodeStatus::NotReady);
    assert_eq!(eager.assess(&node("a", NodeStatus::Ready, 0), 3 * SECOND), NodeStatus::Unknown);
    let changed = controller.reconcile(
        &vec![
            ("m".to_string(), master),
            ("a".to_string(), node("a", NodeStatus::Ready, 999 * SECOND)),
        ],
        1000 * SECOND,
    );
    assert_eq!(changed.len(), 1);
    assert_eq!(changed[0].0, "m");
}

#[test]
fn pods_leave_failed_nodes() {
    let nodes = vec![
        node("a", NodeStatus::Unknown, 0),
        node("b", NodeStatus::Unknown, 100 * SECOND),
        node("c", NodeStatus::NotReady, 0),
    ];
    let now = 300 * SECOND;
    let controller = EvictionController::new();
    let failed: Vec<String> =
        controller.failed_nodes(&nodes, now).iter().map(|n| n.name.clone()).collect();
    assert_eq!(failed, strings(&["a"]));
    let late = EvictionController { check_interval_secs: 1, grace_period_secs: 301 };
    assert!(late.failed_nodes(&nodes, now).is_empty());
    let pods = vec![
        stored(pod("1", None, PodStatus::Running, Some("a"), 0)),
        stored(pod("2", None, PodStatus::Succeeded, Some("a"), 0)),
        stored(pod("3", None, PodStatus::Running, Some("b"), 0)),
        stored(pod("4", None, PodStatus::Running, Some("id-a"), 0)),
    ];
    let moved = controller.reconcile(&nodes, &pods, now);
    assert_eq!(moved.len(), 2);
    assert_eq!(moved[1].1.id, "4");
    assert_eq!(moved[0].1.id, "1");
    assert_eq!(moved[0].1.status, PodStatus::Pending);
    assert_eq!(moved[0].1.node_name, None);
}

// Endpoints

#[test]
fn running_pods_stand_behind_a_service() {
    let svc = Service {
        id: "s".to_string(),
        name: "web".to_string(),
        namespace: "default".to_string(),
        spec: ServiceSpec {
            selector: labels(&[("app", "web")]),
            ports: vec![ServicePort {
                name: "http".to_string(),
                port: 80,
                target_port: 8080,
            }],
        },
        vpc: None,
        cluster_ip: None,
        created_at: 0,
    };
    let addressed = |id: &str, status: PodStatus, vpc: Option<&str>| {
        let mut p = pod(id, None, status, Some("n"), 0);
        p.ghost_ipv6 = Some(format!("fd00::{}", id));
        p.vpc_name = vpc.map(|v| v.to_string());
        p
    };
    let pods = vec![
        addressed("1", PodStatus::Running, None),
        addressed("2", PodStatus::Pending, None),
        addressed("3", PodStatus::Running, Some("other")),
        pod("4", None, PodStatus::Running, None, 0),
    ];
    let made = EndpointController::reconcile(&vec![svc], &pods, 6);
    assert_eq!(made.len(), 1);
    assert_eq!(made[0].0, "/registry/endpoints/default/s");
    let ep = &made[0].1;
    assert_eq!(ep.addresses.len(), 1);
    assert_eq!(ep.addresses[0].ip, "fd00::1");
    assert_eq!(ep.addresses[0].pod_id, Some("1".to_string()));
    assert_eq!(ep.ports[0].port, 8080);
    assert_eq!(ep.ports[0].protocol, "TCP");
}

// Events

#[test]
fn changes_wake_the_controllers_that_watch_them() {
    let prefixes = endpoint_prefixes();
    let change = |k: &str| WakeEvent::Change(k.to_string());
    assert_eq!(
        on_event(&change("/registry/services/default/s"), &prefixes),
        WakeAction::PassAndReset { drain: true }
    );
    assert_eq!(on_event(&change("/registry/nodes/a"), &prefixes), WakeAction::Wait);
    assert_eq!(on_event(&WakeEvent::Tick, &prefixes), WakeAction::Pass);
    assert_eq!(
        on_event(&WakeEvent::Lagged, &prefixes),
        WakeAction::PassAndReset { drain: false }
    );
    assert_eq!(on_event(&WakeEvent::Closed, &prefixes), WakeAction::Stop);
    assert_eq!(
        on_event(&change("/registry/nodes/a"), &eviction_prefixes()),
        WakeAction::PassAndReset { drain: true }
    );
    assert_eq!(
        on_event(&change("/registry/vpcs/a"), &vpc_prefixes()),
        WakeAction::PassAndReset { drain: true }
    );
}

#[test]
fn controllers_run_while_the_server_leads() {
    let mut g = LeaderGate::new();
    assert_eq!(g.observe(LeaderEvent::Follows), LeaderAction::Wait);
    assert_eq!(g.observe(LeaderEvent::Leads), LeaderAction::Start);
    assert_eq!(g.observe(LeaderEvent::Leads), LeaderAction::Wait);
    assert_eq!(g.observe(LeaderEvent::Follows), LeaderAction::Stop);
    assert_eq!(g.observe(LeaderEvent::Closed), LeaderAction::Leave);
}

// Backups and restores

#[test]
fn restores_are_noticed_once() {
    let mut w = RestoreWatcher::new(Some("1".to_string()));
    assert!(!w.observe(false, Some("1".to_string())));
    assert!(!w.observe(true, Some("2".to_string())));
    assert!(w.observe(false, Some("2".to_string())));
    assert!(!w.observe(false, Some("2".to_string())));
    assert!(!w.observe(false, None));
}

#[test]
fn backups_are_named_and_rotated() {
    let c = BackupController::new("/b", 3600, 2, "pem");
    let snapshot = vec![
        ("/registry/nodes/a".to_string(), b"{\"id\":1}".to_vec()),
        ("/registry/pods/x".to_string(), b"oops".to_vec()),
    ];
    let run = c.run_backup(&snapshot, "1", 1_700_000_000 * SECOND);
    assert_eq!(run.path, "/b/backup-20231114-221320.k3rs-backup.json.gz");
    assert_eq!(run.backup.key_count, 1);
    assert_eq!(run.backup.node_count, 1);
    assert_eq!(run.status.status, "success");
    let copy = |name: &str, at: i128| BackupCopy {
        name: name.to_string(),
        path: format!("/b/{}", name),
        modified: at,
    };
    let files = vec![
        copy("a.k3rs-backup.json.gz", 1),
        copy("b.k3rs-backup.json.gz", 3),
        copy("notes.txt", 9),
        copy("c.k3rs-backup.json.gz", 2),
        copy("d.k3rs-backup.json.gz", 0),
    ];
    assert_eq!(
        c.rotate_backups(&files),
        strings(&["/b/a.k3rs-backup.json.gz", "/b/d.k3rs-backup.json.gz"])
    );
    assert!(BackupController::new("/b", 1, 9, "").rotate_backups(&files).is_empty());
}
