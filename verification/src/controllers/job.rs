//! Jobs: running pods to completion.
use vstd::prelude::*;
use vstd::string::*;
use crate::collections::StrMap;
#[allow(unused_imports)]
use crate::collections::lemma_filter_map_step;
use crate::controllers::replicaset::{owned_pods, StoredPod};
#[allow(unused_imports)]
use crate::controllers::replicaset::{owned, owned_rule, lemma_pods_in_step, pods_in};
use crate::ids::fresh_id;
#[allow(unused_imports)]
use crate::ids::{is_uuid, lemma_uuid_ascii};
use crate::model::{Job, JobCondition, JobStatus, Pod, PodStatus};
#[allow(unused_imports)]
use crate::model::{JobStatusV, JobV, PodV};
use crate::text::{cat3, first_chars};
#[allow(unused_imports)]
use crate::text::head;

verus! {

/// Whether a pod is under way.
pub open spec fn is_active(s: PodStatus) -> bool {
    s == PodStatus::Pending || s == PodStatus::Scheduled || s == PodStatus::Running
}

/// How many pods are under way, have succeeded and have failed.
pub open spec fn tally(pods: Seq<(Seq<char>, PodV)>) -> (int, int, int)
    decreases pods.len(),
{
    if pods.len() == 0 {
        (0, 0, 0)
    } else {
        let t = tally(pods.drop_last());
        let s = pods.last().1.status;
        (
            t.0 + if is_active(s) {
                1int
            } else {
                0int
            },
            t.1 + if s == PodStatus::Succeeded {
                1int
            } else {
                0int
            },
            t.2 + if s == PodStatus::Failed {
                1int
            } else {
                0int
            },
        )
    }
}

/// The condition that a job moves to, given how its pods stand.
pub open spec fn next_condition(job: JobV, t: (int, int, int)) -> JobCondition {
    if t.1 >= job.spec.completions {
        JobCondition::Complete
    } else if t.2 >= job.spec.backoff_limit {
        JobCondition::Failed
    } else {
        job.status.condition
    }
}

/// How many pods a job starts: as many as parallelism allows and completion
/// still needs, unless it has ended.
pub open spec fn pods_to_start(job: JobV, t: (int, int, int)) -> int {
    let free = job.spec.parallelism - t.0;
    let needed = job.spec.completions - t.0 - t.1;
    if t.1 >= job.spec.completions || t.2 >= job.spec.backoff_limit || free <= 0 || needed <= 0 {
        0
    } else if free <= needed {
        free
    } else {
        needed
    }
}

/// The status of a job after a pass.
pub open spec fn job_status_after(job: JobV, t: (int, int, int), now: i128) -> JobStatusV {
    JobStatusV {
        active: t.0 as u32,
        succeeded: t.1 as u32,
        failed: t.2 as u32,
        condition: next_condition(job, t),
        start_time: match job.status.start_time {
            Some(s) => Some(s),
            None => Some(now),
        },
        completion_time: if t.1 >= job.spec.completions {
            Some(now)
        } else {
            job.status.completion_time
        },
    }
}

/// A pod of a job.
pub open spec fn job_pod_of(ns: Seq<char>, job: JobV, id: Seq<char>, now: i128) -> PodV {
    PodV {
        id,
        name: job.name + "-"@ + head(id, 8),
        namespace: ns,
        spec: job.spec.template,
        status: PodStatus::Pending,
        node_name: None,
        labels: Map::empty(),
        owner_ref: Some(job.id),
        restart_count: 0,
        runtime_info: None,
        ghost_ipv6: None,
        vpc_name: None,
        created_at: now,
    }
}

proof fn lemma_tally_bound(pods: Seq<(Seq<char>, PodV)>)
    ensures
        tally(pods).0 >= 0,
        tally(pods).1 >= 0,
        tally(pods).2 >= 0,
        tally(pods).0 + tally(pods).1 + tally(pods).2 <= pods.len(),
    decreases pods.len(),
{
    if pods.len() > 0 {
        lemma_tally_bound(pods.drop_last());
    }
}

/// What a pass over a job changes.
pub struct JobOutcome {
    /// The job to store, after the pods were created.
    pub job: Job,
    /// How many pods to create.
    pub create: u32,
}

/// Manages the lifecycle of jobs.
pub struct JobController {
    /// Seconds between two passes.
    pub check_interval_secs: u64,
}

impl JobController {
    /// A controller with the standard interval.
    pub fn new() -> (r: Self)
        ensures
            r.check_interval_secs == 10,
    {
        JobController { check_interval_secs: 10 }
    }

    /// Decides what becomes of a job; nothing where it has already ended.
    pub fn advance(job: Job, pods: &Vec<StoredPod>, now: i128) -> (r: Option<JobOutcome>)
        requires
            pods@.len() <= u32::MAX,
        ensures
            r is None <==> (job.status.condition == JobCondition::Complete || job.status.condition
                == JobCondition::Failed),
            match r {
                Some(o) => {
                    let t = tally(owned(pods.deep_view(), job.id@));
                    &&& o.create == pods_to_start(job.deep_view(), t)
                    &&& o.job.deep_view() == (JobV {
                        status: job_status_after(job.deep_view(), t, now),
                        ..job.deep_view()
                    })
                },
                None => true,
            },
    {
        if job.status.condition == JobCondition::Complete || job.status.condition
            == JobCondition::Failed {
            return None;
        }
        let mine: Vec<StoredPod> = owned_pods(pods, job.id.as_str());
        let ghost m = mine.deep_view();
        let mut active: u32 = 0;
        let mut succeeded: u32 = 0;
        let mut failed: u32 = 0;
        let mut i: usize = 0;
        assert(m.take(0) =~= Seq::<(Seq<char>, PodV)>::empty());
        while i < mine.len()
            invariant
                i <= mine@.len() <= u32::MAX,
                m == mine.deep_view(),
                active == tally(m.take(i as int)).0,
                succeeded == tally(m.take(i as int)).1,
                failed == tally(m.take(i as int)).2,
                active + succeeded + failed <= i,
            decreases mine@.len() - i,
        {
            assert(m.take(i + 1).drop_last() =~= m.take(i as int));
            assert(m.take(i + 1).last() == m[i as int]);
            match mine[i].1.status {
                PodStatus::Pending | PodStatus::Scheduled | PodStatus::Running => {
                    active = active + 1;
                },
                PodStatus::Succeeded => {
                    succeeded = succeeded + 1;
                },
                PodStatus::Failed => {
                    failed = failed + 1;
                },
                PodStatus::ContainerCreating => {},
            }
            i = i + 1;
        }
        assert(m.take(i as int) =~= m);
        let spec_completions: u32 = job.spec.completions;
        let done: bool = succeeded >= spec_completions;
        let given_up: bool = !done && failed >= job.spec.backoff_limit;
        let create: u32 = if !done && !given_up && active < job.spec.parallelism && active
            + succeeded < spec_completions {
            let free: u32 = job.spec.parallelism - active;
            let needed: u32 = spec_completions - active - succeeded;
            if free <= needed {
                free
            } else {
                needed
            }
        } else {
            0
        };
        let condition: JobCondition = if done {
            JobCondition::Complete
        } else if given_up {
            JobCondition::Failed
        } else {
            job.status.condition
        };
        let mut out: Job = job;
        out.status = JobStatus {
            active,
            succeeded,
            failed,
            condition,
            start_time: match out.status.start_time {
                Some(s) => Some(s),
                None => Some(now),
            },
            completion_time: if done {
                Some(now)
            } else {
                out.status.completion_time
            },
        };
        Some(JobOutcome { job: out, create })
    }

    /// Makes a pod of a job, under a given id.
    pub fn job_pod(ns: &str, job: &Job, id: &str, now: i128) -> (r: Pod)
        requires
            id@.len() >= 8,
            id.is_ascii(),
        ensures
            r.deep_view() == job_pod_of(ns@, job.deep_view(), id@, now),
    {
        let short: String = first_chars(id, 8);
        Pod {
            id: id.to_owned(),
            name: cat3(job.name.as_str(), "-", short.as_str()),
            namespace: ns.to_owned(),
            spec: job.spec.template.clone(),
            status: PodStatus::Pending,
            node_name: None,
            labels: StrMap::new(),
            owner_ref: Some(job.id.clone()),
            restart_count: 0,
            runtime_info: None,
            ghost_ipv6: None,
            vpc_name: None,
            created_at: now,
        }
    }

    /// Makes a pod of a job, under a fresh id.
    pub fn create_job_pod(ns: &str, job: &Job, now: i128) -> (r: Pod)
        ensures
            is_uuid(r.id@),
            r.deep_view() == job_pod_of(ns@, job.deep_view(), r.id@, now),
    {
        let id: String = fresh_id();
        proof {
            lemma_uuid_ascii(id@);
        }
        Self::job_pod(ns, job, id.as_str(), now)
    }
}

/// Starting pods never exceeds the parallelism, nor what completion needs.
pub proof fn law_job_limits(job: JobV, pods: Seq<(Seq<char>, PodV)>)
    ensures
        ({
            let t = tally(pods);
            let n = pods_to_start(job, t);
            &&& n >= 0
            &&& n > 0 ==> t.0 + n <= job.spec.parallelism
            &&& n > 0 ==> t.0 + t.1 + n <= job.spec.completions
            &&& next_condition(job, t) == JobCondition::Complete ==> n == 0
                || job.status.condition == JobCondition::Complete
        }),
{
    lemma_tally_bound(pods);
}

/// A job is complete from the pass on that finds enough successes, whatever
/// has failed meanwhile.
pub proof fn law_success_wins(job: JobV, t: (int, int, int))
    requires
        t.1 >= job.spec.completions,
    ensures
        next_condition(job, t) == JobCondition::Complete,
        pods_to_start(job, t) == 0,
{
}

proof fn lemma_tally_counts(pods: Seq<(Seq<char>, PodV)>, owner: Seq<char>)
    ensures
        tally(owned(pods, owner)).0 == pods_in(pods, owner, PodStatus::Pending) + pods_in(
            pods,
            owner,
            PodStatus::Scheduled,
        ) + pods_in(pods, owner, PodStatus::Running),
        tally(owned(pods, owner)).1 == pods_in(pods, owner, PodStatus::Succeeded),
        tally(owned(pods, owner)).2 == pods_in(pods, owner, PodStatus::Failed),
    decreases pods.len(),
{
    reveal(Seq::filter);
    let rule = owned_rule(owner);
    if pods.len() == 0 {
        reveal(Seq::filter_map);
    } else {
        let n = pods.len() - 1;
        lemma_filter_map_step(pods, rule, n);
        assert(pods.take(n + 1) =~= pods);
        assert(pods.take(n) =~= pods.drop_last());
        lemma_tally_counts(pods.drop_last(), owner);
        lemma_pods_in_step(pods, owner, PodStatus::Pending);
        lemma_pods_in_step(pods, owner, PodStatus::Scheduled);
        lemma_pods_in_step(pods, owner, PodStatus::Running);
        lemma_pods_in_step(pods, owner, PodStatus::Succeeded);
        lemma_pods_in_step(pods, owner, PodStatus::Failed);
        let before = owned(pods.drop_last(), owner);
        match rule(pods[n]) {
            Some(x) => {
                assert(before.push(x).drop_last() =~= before);
                assert(before.push(x).last() == x);
            },
            None => {},
        }
    }
}

/// A pass over a job reports how many of its pods are under way, have succeeded
/// and have failed, and leaves everything but the status as it was.
pub proof fn law_job_reports_its_pods(
    job: Job,
    pods: Vec<StoredPod>,
    now: i128,
    r: JobOutcome,
)
    requires
        call_ensures(JobController::advance, (job, &pods, now), Some(r)),
        pods.len() <= u32::MAX,
    ensures
        r.job.status.active == pods_in(pods.deep_view(), job.id@, PodStatus::Pending) + pods_in(
            pods.deep_view(),
            job.id@,
            PodStatus::Scheduled,
        ) + pods_in(pods.deep_view(), job.id@, PodStatus::Running),
        r.job.status.succeeded == pods_in(pods.deep_view(), job.id@, PodStatus::Succeeded),
        r.job.status.failed == pods_in(pods.deep_view(), job.id@, PodStatus::Failed),
        r.job.status.start_time is Some,
        job.status.start_time is Some ==> r.job.status.start_time == job.status.start_time,
        job.status.start_time is None ==> r.job.status.start_time == Some(now),
        r.job.deep_view().spec == job.deep_view().spec,
        r.job.id@ == job.id@,
        r.job.name@ == job.name@,
        r.job.namespace@ == job.namespace@,
{
    lemma_tally_counts(pods.deep_view(), job.id@);
    lemma_tally_bound(owned(pods.deep_view(), job.id@));
    lemma_owned_no_longer(pods.deep_view(), job.id@);
}

proof fn lemma_owned_no_longer(pods: Seq<(Seq<char>, PodV)>, owner: Seq<char>)
    ensures
        owned(pods, owner).len() <= pods.len(),
    decreases pods.len(),
{
    let rule = owned_rule(owner);
    reveal(Seq::filter_map);
    if pods.len() > 0 {
        let n = pods.len() - 1;
        lemma_filter_map_step(pods, rule, n);
        assert(pods.take(n + 1) =~= pods);
        assert(pods.take(n) =~= pods.drop_last());
        lemma_owned_no_longer(pods.drop_last(), owner);
    }
}

/// A job goes on while its failures are fewer than the backoff limit and its
/// successes fewer than the completions: it keeps its condition, and it starts as
/// many pods as parallelism leaves free, yet no more than are still missing once
/// those under way succeed.
pub proof fn law_job_goes_on(job: Job, pods: Vec<StoredPod>, now: i128, r: Option<JobOutcome>)
    requires
        call_ensures(JobController::advance, (job, &pods, now), r),
        pods.len() <= u32::MAX,
        job.status.condition != JobCondition::Complete,
        job.status.condition != JobCondition::Failed,
        pods_in(pods.deep_view(), job.id@, PodStatus::Succeeded) < job.spec.completions,
        pods_in(pods.deep_view(), job.id@, PodStatus::Failed) < job.spec.backoff_limit,
    ensures
        r is Some,
        r->0.job.status.condition == job.status.condition,
        r->0.job.status.completion_time == job.status.completion_time,
        ({
            let all = pods.deep_view();
            let active = pods_in(all, job.id@, PodStatus::Pending) + pods_in(
                all,
                job.id@,
                PodStatus::Scheduled,
            ) + pods_in(all, job.id@, PodStatus::Running);
            let done = pods_in(all, job.id@, PodStatus::Succeeded);
            let n = r->0.create;
            &&& n > 0 ==> active + n <= job.spec.parallelism
            &&& n > 0 ==> active + done + n <= job.spec.completions
            &&& active < job.spec.parallelism && active + done < job.spec.completions ==> n > 0
                && (active + n == job.spec.parallelism || active + done + n
                == job.spec.completions)
            &&& active == 0 && job.spec.parallelism <= job.spec.completions - done ==> n
                == job.spec.parallelism
            &&& active == 0 && job.spec.parallelism > job.spec.completions - done ==> n
                == job.spec.completions - done
        }),
{
    lemma_tally_counts(pods.deep_view(), job.id@);
    lemma_tally_bound(owned(pods.deep_view(), job.id@));
    lemma_owned_no_longer(pods.deep_view(), job.id@);
}

/// A job ends once it has as many successes as completions, whatever has failed,
/// or else as many failures as its backoff limit: it is complete in the first case
/// and failed in the second, and starts no further pod.
pub proof fn law_job_ends(job: Job, pods: Vec<StoredPod>, now: i128, r: Option<JobOutcome>)
    requires
        call_ensures(JobController::advance, (job, &pods, now), r),
        pods.len() <= u32::MAX,
        job.status.condition != JobCondition::Complete,
        job.status.condition != JobCondition::Failed,
        pods_in(pods.deep_view(), job.id@, PodStatus::Succeeded) >= job.spec.completions
            || pods_in(pods.deep_view(), job.id@, PodStatus::Failed) >= job.spec.backoff_limit,
    ensures
        r is Some,
        r->0.create == 0,
        pods_in(pods.deep_view(), job.id@, PodStatus::Succeeded) >= job.spec.completions
            ==> r->0.job.status.condition == JobCondition::Complete
            && r->0.job.status.completion_time == Some(now),
        pods_in(pods.deep_view(), job.id@, PodStatus::Succeeded) < job.spec.completions
            ==> r->0.job.status.condition == JobCondition::Failed
            && r->0.job.status.completion_time == job.status.completion_time,
{
    lemma_tally_counts(pods.deep_view(), job.id@);
    lemma_tally_bound(owned(pods.deep_view(), job.id@));
}

/// A job that has ended stays as it is: no pass over it changes anything.
pub proof fn law_ended_job_rests(job: Job, pods: Vec<StoredPod>, now: i128, r: Option<JobOutcome>)
    requires
        call_ensures(JobController::advance, (job, &pods, now), r),
        job.status.condition == JobCondition::Complete || job.status.condition
            == JobCondition::Failed,
    ensures
        r is None,
{
}

/// A pod of a job belongs to it, waits to be placed, and runs the job's template
/// under a name that begins with the job's.
pub proof fn law_job_pod_is_pending(ns: &str, job: Job, id: &str, now: i128, r: Pod)
    requires
        call_ensures(JobController::job_pod, (ns, &job, id, now), r),
    ensures
        r.id@ == id@,
        r.namespace@ == ns@,
        r.deep_view().owner_ref == Some(job.id@),
        r.deep_view().spec == job.deep_view().spec.template,
        r.status == PodStatus::Pending,
        r.node_name is None,
        r.restart_count == 0,
        r.ghost_ipv6 is None,
        r.created_at == now,
        id@.len() >= 8 ==> r.name@ == job.name@ + "-"@ + id@.take(8),
{
}

/// A pod that is made for a job is the one made under its id, and has an id of its own.
pub proof fn law_created_job_pod_is_the_made_one(
    ns: &str,
    job: Job,
    id: &str,
    now: i128,
    r: Pod,
    q: Pod,
)
    requires
        call_ensures(JobController::create_job_pod, (ns, &job, now), r),
        call_ensures(JobController::job_pod, (ns, &job, id, now), q),
        id@ == r.id@,
    ensures
        r.deep_view() == q.deep_view(),
        r.id@.len() == 36,
{
}

} // verus!
