//! Replica sets: keeping the wanted number of pods.
use vstd::prelude::*;
use vstd::string::*;
#[allow(unused_imports)]
use crate::collections::{
    arranged,
    descending,
    int_keys,
    lemma_descending_is_complete,
    lemma_filter_map_has,
    positions,
};
use crate::collections::{clone_labels, order_descending};
use crate::collections::lemma_filter_map_step;
use crate::ids::fresh_id;
#[allow(unused_imports)]
use crate::ids::{is_uuid, lemma_uuid_ascii};
use crate::model::{clone_strings, Pod, PodRuntimeInfo, PodStatus, ReplicaSet, ReplicaSetStatus};
#[allow(unused_imports)]
use crate::model::{
    ContainerSpecV,
    PodRuntimeInfoV,
    PodV,
    ReplicaSetStatusV,
    ReplicaSetV,
};
use crate::text::{cat3, first_chars, opt_is};
#[allow(unused_imports)]
use crate::text::head;

verus! {

/// A pod with the key that it is stored under.
pub type StoredPod = (String, Pod);

/// Keeps the pods that belong to an owner.
pub open spec fn owned_rule(owner: Seq<char>) -> spec_fn((Seq<char>, PodV)) -> Option<
    (Seq<char>, PodV),
> {
    |e: (Seq<char>, PodV)|
        if e.1.owner_ref == Some(owner) {
            Some(e)
        } else {
            None
        }
}

/// The pods of a listing that belong to an owner, in order.
pub open spec fn owned(pods: Seq<(Seq<char>, PodV)>, owner: Seq<char>) -> Seq<(Seq<char>, PodV)> {
    pods.filter_map(owned_rule(owner))
}

/// Selects the pods that belong to an owner.
pub fn owned_pods(pods: &Vec<StoredPod>, owner: &str) -> (r: Vec<StoredPod>)
    ensures
        r.deep_view() == owned(pods.deep_view(), owner@),
        r@.len() <= pods@.len(),
{
    let ghost all = pods.deep_view();
    let ghost f = owned_rule(owner@);
    let mut out: Vec<StoredPod> = Vec::new();
    let mut i: usize = 0;
    assert(all.take(0) =~= Seq::<(Seq<char>, PodV)>::empty());
    assert(out.deep_view() =~= Seq::<(Seq<char>, PodV)>::empty());
    while i < pods.len()
        invariant
            i <= pods@.len(),
            all == pods.deep_view(),
            f == owned_rule(owner@),
            out.deep_view() == all.take(i as int).filter_map(f),
            out@.len() <= i,
        decreases pods@.len() - i,
    {
        proof {
            lemma_filter_map_step(all, f, i as int);
        }
        if opt_is(&pods[i].1.owner_ref, owner) {
            let ghost before = out.deep_view();
            out.push((pods[i].0.clone(), pods[i].1.clone()));
            assert(out.deep_view() =~= before.push(all[i as int]));
        }
        i = i + 1;
    }
    assert(all.take(i as int) =~= all);
    out
}

/// What brings a replica set to its wanted size.
pub struct ScalePlan {
    /// How many pods to create.
    pub create: u32,
    /// The keys of the pods to delete, in order.
    pub delete: Vec<String>,
}

/// When each pod was created.
pub open spec fn creation_times(pods: Seq<(Seq<char>, PodV)>) -> Seq<int> {
    Seq::new(pods.len(), |i: int| pods[i].1.created_at as int)
}

/// The keys of stored pods.
pub open spec fn pod_keys(pods: Seq<(Seq<char>, PodV)>) -> Seq<Seq<char>> {
    Seq::new(pods.len(), |i: int| pods[i].0)
}

/// Whether a plan scales the owned pods to `replicas`: the missing ones are
/// created, or the newest of those in excess are deleted.
pub open spec fn scales(
    mine: Seq<(Seq<char>, PodV)>,
    replicas: int,
    create: int,
    delete: Seq<Seq<char>>,
) -> bool {
    &&& create == if mine.len() < replicas {
        replicas - mine.len()
    } else {
        0
    }
    &&& exists|order: Seq<int>| #[trigger]
        descending(creation_times(mine), order) && delete == arranged(pod_keys(mine), order).take(
            if mine.len() > replicas {
                mine.len() - replicas
            } else {
                0
            },
        )
}

/// How many of the pods are scheduled or run.
pub open spec fn ready_count(pods: Seq<(Seq<char>, PodV)>) -> int
    decreases pods.len(),
{
    if pods.len() == 0 {
        0
    } else {
        ready_count(pods.drop_last()) + if pods.last().1.status == PodStatus::Running
            || pods.last().1.status == PodStatus::Scheduled {
            1int
        } else {
            0int
        }
    }
}

/// How many of the pods run.
pub open spec fn running_count(pods: Seq<(Seq<char>, PodV)>) -> int
    decreases pods.len(),
{
    if pods.len() == 0 {
        0
    } else {
        running_count(pods.drop_last()) + if pods.last().1.status == PodStatus::Running {
            1int
        } else {
            0int
        }
    }
}

/// A pod made from the template of a replica set.
pub open spec fn templated_pod(
    ns: Seq<char>,
    rs: ReplicaSetV,
    id: Seq<char>,
    now: i128,
) -> PodV {
    PodV {
        id,
        name: rs.name + "-"@ + head(id, 8),
        namespace: ns,
        spec: rs.spec.template,
        status: PodStatus::Pending,
        node_name: None,
        labels: rs.spec.selector,
        owner_ref: Some(rs.id),
        restart_count: 0,
        runtime_info: None,
        ghost_ipv6: None,
        vpc_name: None,
        created_at: now,
    }
}

/// A pod after the scheduler has answered: bound where it named a node.
pub open spec fn placed(pod: PodV, node: Option<Seq<char>>) -> PodV {
    match node {
        Some(n) => PodV { node_name: Some(n), status: PodStatus::Scheduled, ..pod },
        None => pod,
    }
}

/// What it takes to start the container of a pod.
pub struct ContainerStart {
    /// Id of the container.
    pub container_id: String,
    /// Image reference.
    pub image: String,
    /// Command line; empty for that of the image.
    pub command: Vec<String>,
    /// The pod to store first, where its status changes before the start.
    pub creating: Option<Pod>,
}

/// Whether a replica set starts the container of a pod.
pub open spec fn wants_start(pod: PodV, owner: Seq<char>) -> bool {
    pod.owner_ref == Some(owner) && (pod.status == PodStatus::Scheduled || pod.status
        == PodStatus::ContainerCreating)
}

/// The image of the first container, or a default.
pub open spec fn start_image(cs: Seq<ContainerSpecV>) -> Seq<char> {
    if cs.len() > 0 {
        cs[0].image
    } else {
        "busybox:latest"@
    }
}

/// The command of the first container, or none.
pub open spec fn start_command(cs: Seq<ContainerSpecV>) -> Seq<Seq<char>> {
    if cs.len() > 0 {
        cs[0].command
    } else {
        Seq::empty()
    }
}

/// A pod after its container was started, or failed to.
pub open spec fn after_start(pod: PodV, started: Option<PodRuntimeInfoV>) -> PodV {
    match started {
        Some(info) => PodV { status: PodStatus::Running, runtime_info: Some(info), ..pod },
        None => PodV { status: PodStatus::Failed, ..pod },
    }
}

/// Ensures that the desired number of pod replicas are running.
pub struct ReplicaSetController {
    /// Seconds between two passes.
    pub check_interval_secs: u64,
}

impl ReplicaSetController {
    /// A controller with the standard interval.
    pub fn new() -> (r: Self)
        ensures
            r.check_interval_secs == 10,
    {
        ReplicaSetController { check_interval_secs: 10 }
    }

    /// Decides which pods to create and delete.
    pub fn plan_scale(rs: &ReplicaSet, pods: &Vec<StoredPod>) -> (r: ScalePlan)
        requires
            pods@.len() <= u32::MAX,
        ensures
            scales(
                owned(pods.deep_view(), rs.id@),
                rs.spec.replicas as int,
                r.create as int,
                r.delete.deep_view(),
            ),
    {
        let mine: Vec<StoredPod> = owned_pods(pods, rs.id.as_str());
        let ghost m = mine.deep_view();
        let count: u32 = mine.len() as u32;
        let mut times: Vec<i128> = Vec::new();
        let mut i: usize = 0;
        while i < mine.len()
            invariant
                i <= mine@.len(),
                m == mine.deep_view(),
                times@.len() == i,
                forall|j: int| 0 <= j < i ==> times@[j] == m[j].1.created_at,
            decreases mine@.len() - i,
        {
            times.push(mine[i].1.created_at);
            i = i + 1;
        }
        let order: Vec<usize> = order_descending(&times);
        let ghost o = positions(order@);
        assert(int_keys(times@) =~= creation_times(m));
        let excess: usize = if count > rs.spec.replicas {
            (count - rs.spec.replicas) as usize
        } else {
            0
        };
        let mut delete: Vec<String> = Vec::new();
        let mut k: usize = 0;
        assert(delete.deep_view() =~= arranged(pod_keys(m), o).take(0));
        while k < excess
            invariant
                k <= excess <= mine@.len(),
                m == mine.deep_view(),
                o == positions(order@),
                descending(creation_times(m), o),
                delete.deep_view() == arranged(pod_keys(m), o).take(k as int),
            decreases excess - k,
        {
            assert(o[k as int] == order@[k as int]);
            let ghost before = delete.deep_view();
            let key: String = mine[order[k]].0.clone();
            let ghost kv = key@;
            delete.push(key);
            assert(delete.deep_view() =~= before.push(kv));
            assert(arranged(pod_keys(m), o).take(k + 1) =~= before.push(kv));
            k = k + 1;
        }
        let create: u32 = if count < rs.spec.replicas {
            rs.spec.replicas - count
        } else {
            0
        };
        ScalePlan { create, delete }
    }

    /// Makes a pod from the template, under a given id.
    pub fn pod_from_template(ns: &str, rs: &ReplicaSet, id: &str, now: i128) -> (r: Pod)
        requires
            id@.len() >= 8,
            id.is_ascii(),
        ensures
            r.deep_view() == templated_pod(ns@, rs.deep_view(), id@, now),
    {
        let short: String = first_chars(id, 8);
        Pod {
            id: id.to_owned(),
            name: cat3(rs.name.as_str(), "-", short.as_str()),
            namespace: ns.to_owned(),
            spec: rs.spec.template.clone(),
            status: PodStatus::Pending,
            node_name: None,
            labels: clone_labels(&rs.spec.selector),
            owner_ref: Some(rs.id.clone()),
            restart_count: 0,
            runtime_info: None,
            ghost_ipv6: None,
            vpc_name: None,
            created_at: now,
        }
    }

    /// Makes a pod from the template, under a fresh id.
    pub fn create_pod(ns: &str, rs: &ReplicaSet, now: i128) -> (r: Pod)
        ensures
            is_uuid(r.id@),
            r.deep_view() == templated_pod(ns@, rs.deep_view(), r.id@, now),
    {
        let id: String = fresh_id();
        proof {
            lemma_uuid_ascii(id@);
        }
        Self::pod_from_template(ns, rs, id.as_str(), now)
    }

    /// Binds a pod to the node that the scheduler chose, if it chose one.
    pub fn place(pod: Pod, node: Option<String>) -> (r: Pod)
        ensures
            r.deep_view() == placed(pod.deep_view(), node.deep_view()),
    {
        let mut p: Pod = pod;
        match node {
            Some(n) => {
                p.node_name = Some(n);
                p.status = PodStatus::Scheduled;
            },
            None => {},
        }
        p
    }

    /// Decides whether the container of a pod is to be started, and how.
    pub fn plan_start(rs: &ReplicaSet, pod: &Pod) -> (r: Option<ContainerStart>)
        ensures
            r is Some <==> wants_start(pod.deep_view(), rs.id@),
            match r {
                Some(s) => {
                    &&& s.container_id@ == pod.id@
                    &&& s.image@ == start_image(pod.spec.containers.deep_view())
                    &&& s.command.deep_view() == start_command(pod.spec.containers.deep_view())
                    &&& s.creating.deep_view() == if pod.status == PodStatus::Scheduled {
                        Some(PodV { status: PodStatus::ContainerCreating, ..pod.deep_view() })
                    } else {
                        None
                    }
                },
                None => true,
            },
    {
        if !opt_is(&pod.owner_ref, rs.id.as_str()) {
            return None;
        }
        if pod.status != PodStatus::Scheduled && pod.status != PodStatus::ContainerCreating {
            return None;
        }
        let image: String = if pod.spec.containers.len() > 0 {
            pod.spec.containers[0].image.clone()
        } else {
            "busybox:latest".to_owned()
        };
        let command: Vec<String> = if pod.spec.containers.len() > 0 {
            clone_strings(&pod.spec.containers[0].command)
        } else {
            Vec::new()
        };
        assert(command.deep_view() =~= start_command(pod.spec.containers.deep_view()));
        let creating: Option<Pod> = if pod.status == PodStatus::Scheduled {
            let mut p: Pod = pod.clone();
            p.status = PodStatus::ContainerCreating;
            Some(p)
        } else {
            None
        };
        Some(ContainerStart { container_id: pod.id.clone(), image, command, creating })
    }

    /// The pod after the attempt to start its container.
    pub fn finish_start(pod: &Pod, started: Option<PodRuntimeInfo>) -> (r: Pod)
        ensures
            r.deep_view() == after_start(pod.deep_view(), started.deep_view()),
    {
        let mut p: Pod = pod.clone();
        match started {
            Some(info) => {
                p.status = PodStatus::Running;
                p.runtime_info = Some(info);
            },
            None => {
                p.status = PodStatus::Failed;
            },
        }
        p
    }

    /// The replica set with its status counted afresh.
    pub fn recount(rs: ReplicaSet, pods: &Vec<StoredPod>) -> (r: ReplicaSet)
        requires
            pods@.len() <= u32::MAX,
        ensures
            r.deep_view() == (ReplicaSetV {
                status: ReplicaSetStatusV {
                    replicas: owned(pods.deep_view(), rs.id@).len() as u32,
                    ready_replicas: ready_count(owned(pods.deep_view(), rs.id@)) as u32,
                    available_replicas: running_count(owned(pods.deep_view(), rs.id@)) as u32,
                },
                ..rs.deep_view()
            }),
    {
        let mine: Vec<StoredPod> = owned_pods(pods, rs.id.as_str());
        let ghost m = mine.deep_view();
        let mut ready: u32 = 0;
        let mut available: u32 = 0;
        let mut i: usize = 0;
        assert(m.take(0) =~= Seq::<(Seq<char>, PodV)>::empty());
        while i < mine.len()
            invariant
                i <= mine@.len() <= u32::MAX,
                m == mine.deep_view(),
                ready == ready_count(m.take(i as int)),
                available == running_count(m.take(i as int)),
                available <= ready <= i,
            decreases mine@.len() - i,
        {
            assert(m.take(i + 1).drop_last() =~= m.take(i as int));
            assert(m.take(i + 1).last() == m[i as int]);
            if mine[i].1.status == PodStatus::Running {
                ready = ready + 1;
                available = available + 1;
            } else if mine[i].1.status == PodStatus::Scheduled {
                ready = ready + 1;
            }
            i = i + 1;
        }
        assert(m.take(i as int) =~= m);
        let mut out: ReplicaSet = rs;
        out.status = ReplicaSetStatus {
            replicas: mine.len() as u32,
            ready_replicas: ready,
            available_replicas: available,
        };
        out
    }
}

/// Carrying out a plan leaves exactly the wanted number of pods: what was
/// there, less what is deleted, plus what is created.
pub proof fn law_scaling_reaches_size(
    mine: Seq<(Seq<char>, PodV)>,
    replicas: int,
    create: int,
    delete: Seq<Seq<char>>,
)
    requires
        replicas >= 0,
        scales(mine, replicas, create, delete),
    ensures
        mine.len() - delete.len() + create == replicas,
        create == 0 || delete.len() == 0,
{
}

/// A replica set of the right size is left alone.
pub proof fn law_scaling_is_stable(
    mine: Seq<(Seq<char>, PodV)>,
    create: int,
    delete: Seq<Seq<char>>,
)
    requires
        scales(mine, mine.len() as int, create, delete),
    ensures
        create == 0,
        delete.len() == 0,
{
}

/// Pods are deleted from the newest on: none that is kept is newer than one
/// that is deleted.
pub proof fn law_newest_deleted_first(
    mine: Seq<(Seq<char>, PodV)>,
    replicas: int,
    create: int,
    delete: Seq<Seq<char>>,
)
    requires
        replicas >= 0,
        scales(mine, replicas, create, delete),
    ensures
        exists|order: Seq<int>| #[trigger]
            descending(creation_times(mine), order) && forall|i: int, j: int|
                0 <= i < delete.len() && delete.len() <= j < mine.len() ==> mine[#[trigger] order[i]].0
                    == delete[i] && mine[order[i]].1.created_at >= mine[#[trigger] order[j]].1.created_at,
{
    let order = choose|order: Seq<int>| #[trigger]
        descending(creation_times(mine), order) && delete == arranged(pod_keys(mine), order).take(
            if mine.len() > replicas {
                mine.len() - replicas
            } else {
                0
            },
        );
    assert forall|i: int, j: int| 0 <= i < delete.len() && delete.len() <= j < mine.len() implies
        mine[#[trigger] order[i]].0 == delete[i] && mine[order[i]].1.created_at >= mine[
        #[trigger] order[j]].1.created_at by {
        assert(creation_times(mine)[order[i]] >= creation_times(mine)[order[j]]);
    }
}

/// How many of the stored pods belong to an owner and have a status.
pub open spec fn pods_in(pods: Seq<(Seq<char>, PodV)>, owner: Seq<char>, s: PodStatus) -> nat {
    pods.filter(|e: (Seq<char>, PodV)| e.1.owner_ref == Some(owner) && e.1.status == s).len()
}

/// One more pod counts where it belongs to the owner and has the status.
pub proof fn lemma_pods_in_step(pods: Seq<(Seq<char>, PodV)>, owner: Seq<char>, s: PodStatus)
    requires
        pods.len() > 0,
    ensures
        pods_in(pods, owner, s) == pods_in(pods.drop_last(), owner, s) + if pods.last().1.owner_ref
            == Some(owner) && pods.last().1.status == s {
            1int
        } else {
            0int
        },
{
    reveal(Seq::filter);
}


/// How many of the stored pods belong to an owner.
pub open spec fn pods_of(pods: Seq<(Seq<char>, PodV)>, owner: Seq<char>) -> nat {
    pods.filter(|e: (Seq<char>, PodV)| e.1.owner_ref == Some(owner)).len()
}

proof fn lemma_owned_counts(pods: Seq<(Seq<char>, PodV)>, owner: Seq<char>)
    ensures
        owned(pods, owner).len() == pods_of(pods, owner) <= pods.len(),
        ready_count(owned(pods, owner)) == pods_in(pods, owner, PodStatus::Running) + pods_in(
            pods,
            owner,
            PodStatus::Scheduled,
        ),
        running_count(owned(pods, owner)) == pods_in(pods, owner, PodStatus::Running),
        0 <= running_count(owned(pods, owner)) <= ready_count(owned(pods, owner)) <= pods.len(),
    decreases pods.len(),
{
    reveal(Seq::filter);
    let rule = owned_rule(owner);
    if pods.len() == 0 {
        reveal(Seq::filter_map);
    } else {
        let n = pods.len() - 1;
        lemma_filter_map_step(pods, rule, n);
        assert(pods.take(n + 1) =~= pods);
        assert(pods.take(n) =~= pods.drop_last());
        lemma_owned_counts(pods.drop_last(), owner);
        lemma_pods_in_step(pods, owner, PodStatus::Running);
        lemma_pods_in_step(pods, owner, PodStatus::Scheduled);
        let before = owned(pods.drop_last(), owner);
        match rule(pods[n]) {
            Some(x) => {
                assert(before.push(x).drop_last() =~= before);
                assert(before.push(x).last() == x);
            },
            None => {},
        }
    }
}

/// Scaling makes up the difference to the wanted replicas: the pods that are
/// missing are created, those in excess are deleted, and never both.
pub proof fn law_scaling_makes_up_the_difference(
    rs: ReplicaSet,
    pods: Vec<StoredPod>,
    r: ScalePlan,
)
    requires
        call_ensures(ReplicaSetController::plan_scale, (&rs, &pods), r),
    ensures
        ({
            let have = pods_of(pods.deep_view(), rs.id@);
            let want = rs.spec.replicas;
            &&& have <= want ==> r.create == want - have && r.delete.len() == 0
            &&& have >= want ==> r.create == 0 && r.delete.len() == have - want
        }),
{
    lemma_owned_counts(pods.deep_view(), rs.id@);
    assert(r.delete.deep_view().len() == r.delete.len());
}

/// What scaling deletes belongs to the replica set, and no pod of the replica set
/// that stays is newer than one that goes.
pub proof fn law_scaling_deletes_own_newest(
    rs: ReplicaSet,
    pods: Vec<StoredPod>,
    r: ScalePlan,
    d: int,
)
    requires
        call_ensures(ReplicaSetController::plan_scale, (&rs, &pods), r),
        0 <= d < r.delete.len(),
    ensures
        exists|p: int|
            0 <= p < pods.len() && ({
                let gone = #[trigger] pods.deep_view()[p];
                &&& gone.0 == r.delete[d]@
                &&& gone.1.owner_ref == Some(rs.id@)
                &&& forall|q: int|
                    0 <= q < pods.len() && (#[trigger] pods.deep_view()[q]).1.owner_ref == Some(
                        rs.id@,
                    ) && !r.delete.deep_view().contains(pods.deep_view()[q].0)
                        ==> pods.deep_view()[q].1.created_at <= gone.1.created_at
            }),
{
    let all = pods.deep_view();
    let rule = owned_rule(rs.id@);
    let mine = owned(all, rs.id@);
    let delete = r.delete.deep_view();
    let excess = if mine.len() > rs.spec.replicas {
        mine.len() - rs.spec.replicas
    } else {
        0
    };
    assert(scales(mine, rs.spec.replicas as int, r.create as int, delete));
    let order = choose|order: Seq<int>| #[trigger]
        descending(creation_times(mine), order) && delete == arranged(pod_keys(mine), order).take(
            excess,
        );
    assert(delete.len() == r.delete.len());
    assert(delete.len() == excess);
    assert(0 <= order[d] < creation_times(mine).len());
    assert(delete[d] == r.delete[d]@);
    let g = order[d];
    let gone = mine[g];
    assert(mine.contains(gone));
    all.lemma_filter_map_contains(rule, gone);
    let e = choose|e: (Seq<char>, PodV)| #[trigger] all.contains(e) && rule(e) == Some(gone);
    let p = choose|p: int| 0 <= p < all.len() && all[p] == e;
    assert(all[p] == gone);
    assert forall|q: int|
        0 <= q < pods.len() && (#[trigger] pods.deep_view()[q]).1.owner_ref == Some(rs.id@)
            && !r.delete.deep_view().contains(pods.deep_view()[q].0) implies all[q].1.created_at
        <= gone.1.created_at by {
        lemma_filter_map_has(all, rule, q);
        let k = choose|k: int| 0 <= k < mine.len() && mine[k] == all[q];
        lemma_descending_is_complete(creation_times(mine), order, k);
        let j = choose|j: int| 0 <= j < order.len() && #[trigger] order[j] == k;
        if j < excess {
            assert(delete[j] == all[q].0);
            assert(delete.contains(delete[j]));
        } else {
            assert(creation_times(mine)[order[d]] >= creation_times(mine)[order[j]]);
        }
    }
}

/// A recount finds as many replicas as pods belong to the replica set, as many
/// ready as run or are scheduled, and as many available as run.
pub proof fn law_recount_counts_own_pods(rs: ReplicaSet, pods: Vec<StoredPod>, r: ReplicaSet)
    requires
        call_ensures(ReplicaSetController::recount, (rs, &pods), r),
        pods.len() <= u32::MAX,
    ensures
        r.status.replicas == pods_of(pods.deep_view(), rs.id@),
        r.status.ready_replicas == pods_in(pods.deep_view(), rs.id@, PodStatus::Running) + pods_in(
            pods.deep_view(),
            rs.id@,
            PodStatus::Scheduled,
        ),
        r.status.available_replicas == pods_in(pods.deep_view(), rs.id@, PodStatus::Running),
        r.deep_view().spec == rs.deep_view().spec,
        r.id@ == rs.id@,
        r.name@ == rs.name@,
        r.template_hash@ == rs.template_hash@,
        r.deep_view().owner_ref == rs.deep_view().owner_ref,
{
    lemma_owned_counts(pods.deep_view(), rs.id@);
}

/// A pod made from a template belongs to the replica set, carries the labels that
/// the replica set selects, runs its template and waits to be placed.
pub proof fn law_replica_follows_the_template(
    ns: &str,
    rs: ReplicaSet,
    id: &str,
    now: i128,
    r: Pod,
)
    requires
        call_ensures(ReplicaSetController::pod_from_template, (ns, &rs, id, now), r),
        id@.len() >= 8,
    ensures
        r.id@ == id@,
        r.name@ == rs.name@ + "-"@ + id@.take(8),
        r.namespace@ == ns@,
        r.deep_view().spec == rs.deep_view().spec.template,
        r.deep_view().labels == rs.deep_view().spec.selector,
        r.deep_view().owner_ref == Some(rs.id@),
        r.status == PodStatus::Pending,
        r.node_name is None,
        r.restart_count == 0,
        r.runtime_info is None,
        r.ghost_ipv6 is None,
        r.vpc_name is None,
        r.created_at == now,
{
}

/// A pod that the scheduler found a node for is bound to that node and scheduled;
/// another one stays as it is.
pub proof fn law_placement_binds(pod: Pod, node: Option<String>, r: Pod)
    requires
        call_ensures(ReplicaSetController::place, (pod, node), r),
    ensures
        node is None ==> r.deep_view() == pod.deep_view(),
        node matches Some(n) ==> r.status == PodStatus::Scheduled && r.deep_view().node_name
            == Some(n@),
        r.id@ == pod.id@,
        r.deep_view().spec == pod.deep_view().spec,
        r.deep_view().labels == pod.deep_view().labels,
        r.deep_view().owner_ref == pod.deep_view().owner_ref,
        r.created_at == pod.created_at,
{
}

/// The container of a pod is started exactly where the pod belongs to the replica
/// set and is scheduled or about to start: under the pod's id, from the image and
/// with the command of its first container.
pub proof fn law_scheduled_pods_are_started(rs: ReplicaSet, pod: Pod, r: Option<ContainerStart>)
    requires
        call_ensures(ReplicaSetController::plan_start, (&rs, &pod), r),
    ensures
        r is Some <==> pod.deep_view().owner_ref == Some(rs.id@) && (pod.status
            == PodStatus::Scheduled || pod.status == PodStatus::ContainerCreating),
        r matches Some(s) ==> {
            &&& s.container_id@ == pod.id@
            &&& pod.spec.containers.len() > 0 ==> s.image@ == pod.spec.containers[0].image@
                && s.command.deep_view() == pod.spec.containers[0].command.deep_view()
            &&& pod.spec.containers.len() == 0 ==> s.image@ == "busybox:latest"@
                && s.command.len() == 0
            &&& s.creating is Some <==> pod.status == PodStatus::Scheduled
            &&& s.creating matches Some(c) ==> c.status == PodStatus::ContainerCreating && c.id@
                == pod.id@ && c.deep_view().node_name == pod.deep_view().node_name
                && c.deep_view().spec == pod.deep_view().spec && c.deep_view().owner_ref
                == pod.deep_view().owner_ref
        },
{
    if r is Some {
        assert(r->0.command.deep_view().len() == r->0.command.len());
        if pod.spec.containers.len() > 0 {
            assert(pod.spec.containers.deep_view()[0] == pod.spec.containers[0].deep_view());
        }
    }
}

/// A pod runs once its container was started, with what started it, and has failed
/// where that went wrong; it stays on its node either way.
pub proof fn law_start_decides(pod: Pod, started: Option<PodRuntimeInfo>, r: Pod)
    requires
        call_ensures(ReplicaSetController::finish_start, (&pod, started), r),
    ensures
        started is Some ==> r.status == PodStatus::Running && r.deep_view().runtime_info
            == started.deep_view(),
        started is None ==> r.status == PodStatus::Failed && r.deep_view().runtime_info
            == pod.deep_view().runtime_info,
        r.id@ == pod.id@,
        r.name@ == pod.name@,
        r.deep_view().node_name == pod.deep_view().node_name,
        r.deep_view().spec == pod.deep_view().spec,
        r.deep_view().owner_ref == pod.deep_view().owner_ref,
        r.deep_view().ghost_ipv6 == pod.deep_view().ghost_ipv6,
        r.restart_count == pod.restart_count,
{
}

/// A pod that is made from the template is the one made under its id, and has an id of
/// its own.
pub proof fn law_created_replica_is_the_made_one(
    ns: &str,
    rs: ReplicaSet,
    id: &str,
    now: i128,
    r: Pod,
    q: Pod,
)
    requires
        call_ensures(ReplicaSetController::create_pod, (ns, &rs, now), r),
        call_ensures(ReplicaSetController::pod_from_template, (ns, &rs, id, now), q),
        id@ == r.id@,
    ensures
        r.deep_view() == q.deep_view(),
        r.id@.len() == 36,
{
}

} // verus!
