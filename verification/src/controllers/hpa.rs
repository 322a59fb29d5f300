//! Autoscaling: adjusting the replicas of a deployment to its utilization.
use vstd::prelude::*;
#[allow(unused_imports)]
use crate::model::{ContainerSpecV, DeploymentSpecV, DeploymentV, HorizontalPodAutoscalerV, HpaMetricsV, HpaSpecV, HpaStatusV, PodV, ReplicaSetV};
use crate::model::{ContainerSpec, Deployment, HorizontalPodAutoscaler, HpaStatus, Pod, PodStatus, ReplicaSet};
use crate::text::{opt_is, str_eq};

verus! {

/// Whether some replica set of the listing belongs to `deploy` and has the id.
pub open spec fn owns_id(sets: Seq<ReplicaSetV>, deploy: Seq<char>, id: Seq<char>) -> bool {
    exists|i: int|
        0 <= i < sets.len() && (#[trigger] sets[i]).owner_ref == Some(deploy) && sets[i].id == id
}

/// Whether a pod runs, or is about to, for a deployment.
pub open spec fn counts_for(pod: PodV, sets: Seq<ReplicaSetV>, deploy: Seq<char>) -> bool {
    &&& pod.status == PodStatus::Running || pod.status == PodStatus::Scheduled
    &&& match pod.owner_ref {
        Some(o) => owns_id(sets, deploy, o),
        None => false,
    }
}

/// Whether some container asks for CPU time.
pub open spec fn asks_cpu(cs: Seq<ContainerSpecV>) -> bool {
    exists|i: int| 0 <= i < cs.len() && (#[trigger] cs[i]).resources.cpu_millis > 0
}

/// Whether a deployment has any running pod.
pub open spec fn has_pods(pods: Seq<PodV>, sets: Seq<ReplicaSetV>, deploy: Seq<char>) -> bool {
    exists|i: int| 0 <= i < pods.len() && counts_for(#[trigger] pods[i], sets, deploy)
}

/// Whether a running pod of a deployment asks for CPU time.
pub open spec fn has_cpu(pods: Seq<PodV>, sets: Seq<ReplicaSetV>, deploy: Seq<char>) -> bool {
    exists|i: int|
        0 <= i < pods.len() && counts_for(#[trigger] pods[i], sets, deploy) && asks_cpu(
            pods[i].spec.containers,
        )
}

/// One step of scaling: up by one above the target, down by one where the
/// utilization is more than ten percent points below it, within the bounds.
pub open spec fn scale_step(util: u32, target: u32, replicas: u32, min: u32, max: u32) -> u32 {
    if util > target && replicas < max {
        (replicas + 1) as u32
    } else if util < target - 10 && replicas > min {
        (replicas - 1) as u32
    } else {
        replicas
    }
}

/// The CPU utilization that is assumed of the running pods, in percent.
pub open spec fn cpu_util(pods: Seq<PodV>, sets: Seq<ReplicaSetV>, deploy: Seq<char>) -> u32 {
    if has_cpu(pods, sets, deploy) {
        70
    } else {
        0
    }
}

/// The replicas that an autoscaler wants of a deployment.
pub open spec fn desired(
    hpa: HorizontalPodAutoscalerV,
    d: DeploymentV,
    sets: Seq<ReplicaSetV>,
    pods: Seq<PodV>,
) -> u32 {
    let min = hpa.spec.min_replicas;
    let max = hpa.spec.max_replicas;
    if has_pods(pods, sets, d.id) {
        let after_cpu = match hpa.spec.metrics.cpu_utilization_percent {
            Some(t) => scale_step(cpu_util(pods, sets, d.id), t, d.spec.replicas, min, max),
            None => d.spec.replicas,
        };
        match hpa.spec.metrics.memory_utilization_percent {
            Some(t) => scale_step(60, t, after_cpu, min, max),
            None => after_cpu,
        }
    } else {
        d.spec.replicas
    }
}

/// What an autoscaler records after a pass.
pub open spec fn status_after(
    hpa: HorizontalPodAutoscalerV,
    d: DeploymentV,
    sets: Seq<ReplicaSetV>,
    pods: Seq<PodV>,
    now: i128,
) -> HpaStatusV {
    HpaStatusV {
        current_replicas: d.spec.replicas,
        desired_replicas: desired(hpa, d, sets, pods),
        current_cpu_utilization_percent: if hpa.spec.metrics.cpu_utilization_percent is Some
            && has_pods(pods, sets, d.id) {
            Some(cpu_util(pods, sets, d.id))
        } else {
            hpa.status.current_cpu_utilization_percent
        },
        current_memory_utilization_percent: if hpa.spec.metrics.memory_utilization_percent is Some
            && has_pods(pods, sets, d.id) {
            Some(60)
        } else {
            hpa.status.current_memory_utilization_percent
        },
        last_scale_time: if desired(hpa, d, sets, pods) != d.spec.replicas {
            Some(now)
        } else {
            hpa.status.last_scale_time
        },
    }
}

/// What a pass over an autoscaler changes.
pub struct HpaOutcome {
    /// The autoscaler to store.
    pub hpa: HorizontalPodAutoscaler,
    /// The deployment to store first, where it was scaled.
    pub deploy: Option<Deployment>,
}

fn owns(sets: &Vec<ReplicaSet>, deploy: &str, id: &str) -> (r: bool)
    ensures
        r == owns_id(sets.deep_view(), deploy@, id@),
{
    let ghost all = sets.deep_view();
    let mut i: usize = 0;
    while i < sets.len()
        invariant
            i <= sets@.len(),
            all == sets.deep_view(),
            forall|j: int|
                0 <= j < i ==> !((#[trigger] all[j]).owner_ref == Some(deploy@) && all[j].id == id@),
        decreases sets@.len() - i,
    {
        assert(all[i as int] == sets@[i as int].deep_view());
        if opt_is(&sets[i].owner_ref, deploy) && str_eq(sets[i].id.as_str(), id) {
            return true;
        }
        i = i + 1;
    }
    false
}

fn counts(pod: &Pod, sets: &Vec<ReplicaSet>, deploy: &str) -> (r: bool)
    ensures
        r == counts_for(pod.deep_view(), sets.deep_view(), deploy@),
{
    if pod.status != PodStatus::Running && pod.status != PodStatus::Scheduled {
        return false;
    }
    match &pod.owner_ref {
        Some(o) => owns(sets, deploy, o.as_str()),
        None => false,
    }
}

fn wants_cpu(cs: &Vec<ContainerSpec>) -> (r: bool)
    ensures
        r == asks_cpu(cs.deep_view()),
{
    let ghost all = cs.deep_view();
    let mut i: usize = 0;
    while i < cs.len()
        invariant
            i <= cs@.len(),
            all == cs.deep_view(),
            forall|j: int| 0 <= j < i ==> !((#[trigger] all[j]).resources.cpu_millis > 0),
        decreases cs@.len() - i,
    {
        assert(all[i as int] == cs@[i as int].deep_view());
        if cs[i].resources.cpu_millis > 0 {
            return true;
        }
        i = i + 1;
    }
    false
}

fn step(util: u32, target: u32, replicas: u32, min: u32, max: u32) -> (r: u32)
    ensures
        r == scale_step(util, target, replicas, min, max),
{
    if util > target && replicas < max {
        replicas + 1
    } else if util < target.saturating_sub(10) && replicas > min {
        replicas - 1
    } else {
        replicas
    }
}

/// Scales deployments by their utilization.
pub struct HPAController {
    /// Seconds between two passes.
    pub check_interval_secs: u64,
}

impl HPAController {
    /// A controller with the standard interval.
    pub fn new() -> (r: Self)
        ensures
            r.check_interval_secs == 30,
    {
        HPAController { check_interval_secs: 30 }
    }

    /// Evaluates one autoscaler against its deployment.
    pub fn evaluate(
        hpa: HorizontalPodAutoscaler,
        deploy: Deployment,
        sets: &Vec<ReplicaSet>,
        pods: &Vec<Pod>,
        now: i128,
    ) -> (r: HpaOutcome)
        requires
            desired(hpa.deep_view(), deploy.deep_view(), sets.deep_view(), pods.deep_view())
                != deploy.spec.replicas ==> deploy.generation < u64::MAX,
        ensures
            r.hpa.deep_view() == (HorizontalPodAutoscalerV {
                status: status_after(
                    hpa.deep_view(),
                    deploy.deep_view(),
                    sets.deep_view(),
                    pods.deep_view(),
                    now,
                ),
                ..hpa.deep_view()
            }),
            r.deploy.deep_view() == ({
                let n = desired(
                    hpa.deep_view(),
                    deploy.deep_view(),
                    sets.deep_view(),
                    pods.deep_view(),
                );
                if n != deploy.spec.replicas {
                    Some(
                        DeploymentV {
                            spec: DeploymentSpecV { replicas: n, ..deploy.spec.deep_view() },
                            generation: (deploy.generation + 1) as u64,
                            ..deploy.deep_view()
                        },
                    )
                } else {
                    None
                }
            }),
    {
        let ghost all = pods.deep_view();
        let ghost rs = sets.deep_view();
        let mut any: bool = false;
        let mut cpu: bool = false;
        let mut i: usize = 0;
        while i < pods.len()
            invariant
                i <= pods@.len(),
                all == pods.deep_view(),
                rs == sets.deep_view(),
                any == exists|j: int|
                    0 <= j < i && counts_for(#[trigger] all[j], rs, deploy.id@),
                cpu == exists|j: int|
                    0 <= j < i && counts_for(#[trigger] all[j], rs, deploy.id@) && asks_cpu(
                        all[j].spec.containers,
                    ),
            decreases pods@.len() - i,
        {
            assert(all[i as int] == pods@[i as int].deep_view());
            if counts(&pods[i], sets, deploy.id.as_str()) {
                any = true;
                if wants_cpu(&pods[i].spec.containers) {
                    cpu = true;
                }
            }
            i = i + 1;
        }
        let min: u32 = hpa.spec.min_replicas;
        let max: u32 = hpa.spec.max_replicas;
        let current: u32 = deploy.spec.replicas;
        let mut wanted: u32 = current;
        let mut cpu_seen: Option<u32> = hpa.status.current_cpu_utilization_percent;
        let mut mem_seen: Option<u32> = hpa.status.current_memory_utilization_percent;
        if any {
            if let Some(target) = hpa.spec.metrics.cpu_utilization_percent {
                let util: u32 = if cpu {
                    70
                } else {
                    0
                };
                cpu_seen = Some(util);
                wanted = step(util, target, wanted, min, max);
            }
            if let Some(target) = hpa.spec.metrics.memory_utilization_percent {
                mem_seen = Some(60);
                wanted = step(60, target, wanted, min, max);
            }
        }
        let scaled: bool = wanted != current;
        let mut h: HorizontalPodAutoscaler = hpa;
        h.status = HpaStatus {
            current_replicas: current,
            desired_replicas: wanted,
            current_cpu_utilization_percent: cpu_seen,
            current_memory_utilization_percent: mem_seen,
            last_scale_time: if scaled {
                Some(now)
            } else {
                h.status.last_scale_time
            },
        };
        let d: Option<Deployment> = if scaled {
            let mut x: Deployment = deploy;
            x.spec.replicas = wanted;
            x.generation = x.generation + 1;
            Some(x)
        } else {
            None
        };
        HpaOutcome { hpa: h, deploy: d }
    }
}

/// The wanted replicas stay within the bounds wherever the current ones are,
/// and differ from them by at most one per metric.
pub proof fn law_scaling_stays_in_bounds(
    hpa: HorizontalPodAutoscalerV,
    d: DeploymentV,
    sets: Seq<ReplicaSetV>,
    pods: Seq<PodV>,
)
    requires
        hpa.spec.min_replicas <= d.spec.replicas <= hpa.spec.max_replicas,
    ensures
        hpa.spec.min_replicas <= desired(hpa, d, sets, pods) <= hpa.spec.max_replicas,
        -2 <= desired(hpa, d, sets, pods) - d.spec.replicas <= 2,
{
}

/// Without running pods, and without targets, nothing is scaled.
pub proof fn law_no_scaling_without_cause(
    hpa: HorizontalPodAutoscalerV,
    d: DeploymentV,
    sets: Seq<ReplicaSetV>,
    pods: Seq<PodV>,
)
    requires
        !has_pods(pods, sets, d.id) || (hpa.spec.metrics.cpu_utilization_percent is None
            && hpa.spec.metrics.memory_utilization_percent is None),
    ensures
        desired(hpa, d, sets, pods) == d.spec.replicas,
{
}

/// Where the memory target stands alone, utilization above it adds a replica up
/// to the maximum, utilization more than ten points below it takes one away down
/// to the minimum, and nothing else changes the wanted number.
pub proof fn law_memory_target_decides(
    hpa: HorizontalPodAutoscalerV,
    d: DeploymentV,
    sets: Seq<ReplicaSetV>,
    pods: Seq<PodV>,
    i: int,
    j: int,
)
    requires
        hpa.spec.metrics.cpu_utilization_percent is None,
        0 <= i < pods.len(),
        0 <= j < sets.len(),
        pods[i].status == PodStatus::Running || pods[i].status == PodStatus::Scheduled,
        pods[i].owner_ref == Some(sets[j].id),
        sets[j].owner_ref == Some(d.id),
    ensures
        ({
            let had = d.spec.replicas;
            let wanted = desired(hpa, d, sets, pods);
            match hpa.spec.metrics.memory_utilization_percent {
                Some(target) => {
                    &&& target < 60 ==> wanted >= had
                    &&& target < 60 && had < hpa.spec.max_replicas ==> wanted == had + 1
                    &&& target < 60 && had >= hpa.spec.max_replicas ==> wanted == had
                    &&& target > 70 ==> wanted <= had
                    &&& target > 70 && had > hpa.spec.min_replicas ==> wanted == had - 1
                    &&& target > 70 && had <= hpa.spec.min_replicas ==> wanted == had
                    &&& 60 <= target <= 70 ==> wanted == had
                },
                None => wanted == had,
            }
        }),
{
    assert(owns_id(sets, d.id, sets[j].id));
    assert(counts_for(pods[i], sets, d.id));
}

/// Where the CPU target stands alone, and a container of a pod of the deployment
/// asks for CPU time, the utilization is seventy percent: above the target it
/// adds a replica up to the maximum, more than ten points below it takes one
/// away down to the minimum, and nothing else changes the wanted number.
pub proof fn law_cpu_target_decides(
    hpa: HorizontalPodAutoscalerV,
    d: DeploymentV,
    sets: Seq<ReplicaSetV>,
    pods: Seq<PodV>,
    i: int,
    j: int,
    k: int,
)
    requires
        hpa.spec.metrics.memory_utilization_percent is None,
        0 <= i < pods.len(),
        0 <= j < sets.len(),
        0 <= k < pods[i].spec.containers.len(),
        pods[i].status == PodStatus::Running || pods[i].status == PodStatus::Scheduled,
        pods[i].owner_ref == Some(sets[j].id),
        sets[j].owner_ref == Some(d.id),
        pods[i].spec.containers[k].resources.cpu_millis > 0,
    ensures
        ({
            let had = d.spec.replicas;
            let wanted = desired(hpa, d, sets, pods);
            match hpa.spec.metrics.cpu_utilization_percent {
                Some(target) => {
                    &&& target < 70 ==> wanted >= had
                    &&& target < 70 && had < hpa.spec.max_replicas ==> wanted == had + 1
                    &&& target < 70 && had >= hpa.spec.max_replicas ==> wanted == had
                    &&& target > 80 ==> wanted <= had
                    &&& target > 80 && had > hpa.spec.min_replicas ==> wanted == had - 1
                    &&& target > 80 && had <= hpa.spec.min_replicas ==> wanted == had
                    &&& 70 <= target <= 80 ==> wanted == had
                },
                None => wanted == had,
            }
        }),
{
    assert(owns_id(sets, d.id, sets[j].id));
    assert(counts_for(pods[i], sets, d.id));
    assert(asks_cpu(pods[i].spec.containers));
}

/// Where the CPU target stands alone, pods are under way and none of their
/// containers asks for CPU time, the utilization is zero: a target above ten
/// takes one replica away down to the minimum, and none is ever added.
pub proof fn law_idle_cpu_scales_down(
    hpa: HorizontalPodAutoscalerV,
    d: DeploymentV,
    sets: Seq<ReplicaSetV>,
    pods: Seq<PodV>,
    i: int,
    j: int,
)
    requires
        hpa.spec.metrics.memory_utilization_percent is None,
        0 <= i < pods.len(),
        0 <= j < sets.len(),
        pods[i].status == PodStatus::Running || pods[i].status == PodStatus::Scheduled,
        pods[i].owner_ref == Some(sets[j].id),
        sets[j].owner_ref == Some(d.id),
        forall|p: int, k: int|
            0 <= p < pods.len() && 0 <= k < pods[p].spec.containers.len()
                ==> (#[trigger] pods[p].spec.containers[k]).resources.cpu_millis == 0,
    ensures
        ({
            let had = d.spec.replicas;
            let wanted = desired(hpa, d, sets, pods);
            match hpa.spec.metrics.cpu_utilization_percent {
                Some(target) => {
                    &&& wanted <= had
                    &&& target > 10 && had > hpa.spec.min_replicas ==> wanted == had - 1
                    &&& target <= 10 || had <= hpa.spec.min_replicas ==> wanted == had
                },
                None => wanted == had,
            }
        }),
{
    assert(owns_id(sets, d.id, sets[j].id));
    assert(counts_for(pods[i], sets, d.id));
}

/// Two targets act one after the other: what both want is what the memory target
/// wants of the replicas that the CPU target asks for.
pub proof fn law_targets_act_in_turn(
    hpa: HorizontalPodAutoscalerV,
    d: DeploymentV,
    sets: Seq<ReplicaSetV>,
    pods: Seq<PodV>,
)
    ensures
        ({
            let metrics = hpa.spec.metrics;
            let cpu_only = HorizontalPodAutoscalerV {
                spec: HpaSpecV {
                    metrics: HpaMetricsV { memory_utilization_percent: None, ..metrics },
                    ..hpa.spec
                },
                ..hpa
            };
            let memory_only = HorizontalPodAutoscalerV {
                spec: HpaSpecV {
                    metrics: HpaMetricsV { cpu_utilization_percent: None, ..metrics },
                    ..hpa.spec
                },
                ..hpa
            };
            let between = DeploymentV {
                spec: DeploymentSpecV { replicas: desired(cpu_only, d, sets, pods), ..d.spec },
                ..d
            };
            desired(hpa, d, sets, pods) == desired(memory_only, between, sets, pods)
        }),
{
}

/// A lower target never wants fewer replicas: of two autoscalers that differ in
/// their targets alone, the one with the lower ones wants at least as many.
pub proof fn law_lower_targets_want_more(
    a: HorizontalPodAutoscalerV,
    b: HorizontalPodAutoscalerV,
    d: DeploymentV,
    sets: Seq<ReplicaSetV>,
    pods: Seq<PodV>,
)
    requires
        a.spec.min_replicas == b.spec.min_replicas,
        a.spec.max_replicas == b.spec.max_replicas,
        a.spec.min_replicas <= d.spec.replicas <= a.spec.max_replicas,
        match (a.spec.metrics.cpu_utilization_percent, b.spec.metrics.cpu_utilization_percent) {
            (Some(x), Some(y)) => x <= y,
            (None, None) => true,
            _ => false,
        },
        match (
            a.spec.metrics.memory_utilization_percent,
            b.spec.metrics.memory_utilization_percent,
        ) {
            (Some(x), Some(y)) => x <= y,
            (None, None) => true,
            _ => false,
        },
    ensures
        desired(a, d, sets, pods) >= desired(b, d, sets, pods),
{
}

/// Pods that do not run, that have no owner, or whose owner is no replica set of
/// the deployment scale nothing.
pub proof fn law_other_pods_scale_nothing(
    hpa: HorizontalPodAutoscalerV,
    d: DeploymentV,
    sets: Seq<ReplicaSetV>,
    pods: Seq<PodV>,
)
    requires
        forall|i: int, j: int|
            0 <= i < pods.len() && 0 <= j < sets.len() ==> {
                ||| (#[trigger] pods[i]).status != PodStatus::Running && pods[i].status
                    != PodStatus::Scheduled
                ||| pods[i].owner_ref != Some((#[trigger] sets[j]).id)
                ||| sets[j].owner_ref != Some(d.id)
            },
    ensures
        desired(hpa, d, sets, pods) == d.spec.replicas,
{
    if has_pods(pods, sets, d.id) {
        let i = choose|i: int| 0 <= i < pods.len() && counts_for(#[trigger] pods[i], sets, d.id);
        let o = pods[i].owner_ref->0;
        let j = choose|j: int|
            0 <= j < sets.len() && (#[trigger] sets[j]).owner_ref == Some(d.id) && sets[j].id == o;
        assert(pods[i].owner_ref == Some(sets[j].id));
    }
}

/// An evaluation stores the deployment exactly where it wants another number of
/// replicas than the deployment has: with that number, one generation on and
/// otherwise unchanged. It records both numbers, and the moment where it scaled.
pub proof fn law_scaling_is_recorded(
    hpa: HorizontalPodAutoscaler,
    deploy: Deployment,
    sets: Vec<ReplicaSet>,
    pods: Vec<Pod>,
    now: i128,
    r: HpaOutcome,
)
    requires
        call_ensures(HPAController::evaluate, (hpa, deploy, &sets, &pods, now), r),
        deploy.generation < u64::MAX,
    ensures
        r.hpa.status.desired_replicas == desired(
            hpa.deep_view(),
            deploy.deep_view(),
            sets.deep_view(),
            pods.deep_view(),
        ),
        r.hpa.status.current_replicas == deploy.spec.replicas,
        r.deploy is Some <==> r.hpa.status.desired_replicas != deploy.spec.replicas,
        r.deploy matches Some(x) ==> {
            &&& x.spec.replicas == r.hpa.status.desired_replicas
            &&& x.generation == deploy.generation + 1
            &&& x.id@ == deploy.id@
            &&& x.name@ == deploy.name@
            &&& x.namespace@ == deploy.namespace@
            &&& x.deep_view().spec.template == deploy.deep_view().spec.template
            &&& x.deep_view().spec.selector == deploy.deep_view().spec.selector
            &&& x.deep_view().status == deploy.deep_view().status
            &&& r.hpa.status.last_scale_time == Some(now)
        },
        r.deploy is None ==> r.hpa.status.last_scale_time == hpa.status.last_scale_time,
        r.hpa.deep_view().spec == hpa.deep_view().spec,
        r.hpa.name@ == hpa.name@,
{
}

/// An evaluation records the utilization of each metric that has a target, where
/// a pod of the deployment is under way, and leaves the others as they were.
pub proof fn law_utilization_is_recorded(
    hpa: HorizontalPodAutoscaler,
    deploy: Deployment,
    sets: Vec<ReplicaSet>,
    pods: Vec<Pod>,
    now: i128,
    r: HpaOutcome,
    i: int,
    j: int,
)
    requires
        call_ensures(HPAController::evaluate, (hpa, deploy, &sets, &pods, now), r),
        0 <= i < pods.len(),
        0 <= j < sets.len(),
        pods[i].status == PodStatus::Running || pods[i].status == PodStatus::Scheduled,
        pods[i].deep_view().owner_ref == Some(sets[j].id@),
        sets[j].deep_view().owner_ref == Some(deploy.id@),
    ensures
        r.hpa.status.current_memory_utilization_percent == (
        if hpa.spec.metrics.memory_utilization_percent is Some {
            Some(60u32)
        } else {
            hpa.status.current_memory_utilization_percent
        }),
        hpa.spec.metrics.cpu_utilization_percent is None
            ==> r.hpa.status.current_cpu_utilization_percent
            == hpa.status.current_cpu_utilization_percent,
        hpa.spec.metrics.cpu_utilization_percent is Some
            ==> r.hpa.status.current_cpu_utilization_percent == Some(70u32)
            || r.hpa.status.current_cpu_utilization_percent == Some(0u32),
        forall|k: int|
            hpa.spec.metrics.cpu_utilization_percent is Some && 0 <= k
                < pods[i].spec.containers.len() && (
            #[trigger] pods[i].spec.containers[k]).resources.cpu_millis > 0
                ==> r.hpa.status.current_cpu_utilization_percent == Some(70u32),
        (forall|p: int, k: int|
            0 <= p < pods.len() && 0 <= k < pods[p].spec.containers.len() ==> (
            #[trigger] pods[p].spec.containers[k]).resources.cpu_millis == 0)
            && hpa.spec.metrics.cpu_utilization_percent is Some
            ==> r.hpa.status.current_cpu_utilization_percent == Some(0u32),
{
    let all = pods.deep_view();
    let rs = sets.deep_view();
    assert(all[i] == pods[i].deep_view());
    assert(rs[j] == sets[j].deep_view());
    assert(owns_id(rs, deploy.id@, rs[j].id));
    assert(counts_for(all[i], rs, deploy.id@));
    assert forall|k: int|
        0 <= k < pods[i].spec.containers.len() && (
        #[trigger] pods[i].spec.containers[k]).resources.cpu_millis > 0 implies asks_cpu(
        all[i].spec.containers,
    ) by {
        assert(all[i].spec.containers[k] == pods[i].spec.containers[k].deep_view());
    }
    if (forall|p: int, k: int|
        0 <= p < pods.len() && 0 <= k < pods[p].spec.containers.len() ==> (
        #[trigger] pods[p].spec.containers[k]).resources.cpu_millis == 0) {
        assert forall|p: int, k: int|
            0 <= p < all.len() && 0 <= k < all[p].spec.containers.len() implies (
        #[trigger] all[p].spec.containers[k]).resources.cpu_millis == 0 by {
            assert(all[p].spec.containers[k] == pods[p].spec.containers[k].deep_view());
        }
    }
}

} // verus!
