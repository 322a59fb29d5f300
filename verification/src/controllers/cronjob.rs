//! Cron jobs: making jobs on a schedule.
use vstd::prelude::*;
use vstd::string::*;
use crate::ids::fresh_id;
#[allow(unused_imports)]
use crate::ids::is_uuid;
use crate::model::{CronJob, Job, JobCondition, JobStatus};
#[allow(unused_imports)]
use crate::model::{CronJobStatusV, CronJobV, JobStatusV, JobV};
use crate::numbers::{parse_i64, parse_u32};
#[allow(unused_imports)]
use crate::numbers::{decimal, is_digit, law_decimal_is_read_back, lemma_decimal_digits, parse_signed, parse_unsigned};
use crate::split::split_whitespace;
#[allow(unused_imports)]
use crate::split::{is_space, law_first_word, words};
use crate::text::{cat3, str_eq, strip_prefix};
#[allow(unused_imports)]
use crate::text::has_prefix;
use crate::time::{compact_stamp, elapsed_minutes, minute_of_hour};
#[allow(unused_imports)]
use crate::time::{minute_of, minutes_between, stamp_text, valid_time};

verus! {

/// Whether the minute field of a schedule is due: `*` every minute, `*/N`
/// every N minutes, `M` at minute M of the hour.
pub open spec fn field_due(field: Seq<char>, last: i128, now: i128) -> bool {
    let elapsed = minutes_between(last, now);
    if field == "*"@ {
        elapsed >= 1
    } else if has_prefix(field, "*/"@) {
        match parse_signed(field.skip("*/"@.len() as int)) {
            Some(n) => elapsed >= n,
            None => false,
        }
    } else {
        match parse_unsigned(field, 0xffff_ffff) {
            Some(m) => minute_of(now) == m && elapsed >= 1,
            None => false,
        }
    }
}

/// Whether a schedule is due again: by its first field; an empty one never is.
pub open spec fn schedule_due(schedule: Seq<char>, last: i128, now: i128) -> bool {
    words(schedule).len() > 0 && field_due(words(schedule)[0], last, now)
}

/// Decides whether a schedule is due again.
pub fn is_schedule_due(schedule: &str, last_run: i128, now: i128) -> (r: bool)
    requires
        valid_time(last_run),
        valid_time(now),
    ensures
        r == schedule_due(schedule@, last_run, now),
{
    let parts: Vec<String> = split_whitespace(schedule);
    assert(parts.deep_view().len() == parts@.len());
    if parts.len() == 0 {
        return false;
    }
    let field: &str = parts[0].as_str();
    assert(field@ == words(schedule@)[0]);
    let elapsed: i128 = elapsed_minutes(last_run, now);
    if str_eq(field, "*") {
        return elapsed >= 1;
    }
    match strip_prefix(field, "*/") {
        Some(interval) => match parse_i64(interval.as_str()) {
            Some(n) => elapsed >= n as i128,
            None => false,
        },
        None => match parse_u32(field) {
            Some(target) => minute_of_hour(now) == target && elapsed >= 1,
            None => false,
        },
    }
}

/// Whether a cron job makes a job now: unless suspended, if it never did or is due.
pub open spec fn cron_runs(cj: CronJobV, now: i128) -> bool {
    !cj.spec.suspend && match cj.status.last_schedule_time {
        Some(last) => schedule_due(cj.spec.schedule, last, now),
        None => true,
    }
}

/// The job that a cron job makes.
pub open spec fn cron_job(ns: Seq<char>, cj: CronJobV, stamp: Seq<char>, id: Seq<char>, now: i128) -> JobV {
    JobV {
        id,
        name: cj.name + "-"@ + stamp,
        namespace: ns,
        spec: cj.spec.job_template,
        status: JobStatusV {
            active: 0,
            succeeded: 0,
            failed: 0,
            condition: JobCondition::Running,
            start_time: None,
            completion_time: None,
        },
        owner_ref: Some(cj.id),
        created_at: now,
    }
}

/// A cron job after it has made a job.
pub open spec fn after_run(cj: CronJobV, id: Seq<char>, now: i128) -> CronJobV {
    CronJobV {
        status: CronJobStatusV {
            last_schedule_time: Some(now),
            active_jobs: cj.status.active_jobs.push(id),
        },
        ..cj
    }
}

/// The ids whose job still runs.
pub open spec fn still_active(ids: Seq<Seq<char>>, running: Seq<bool>) -> Seq<Seq<char>>
    decreases ids.len(),
{
    if ids.len() == 0 || running.len() != ids.len() {
        Seq::empty()
    } else {
        let rest = still_active(ids.drop_last(), running.drop_last());
        if running.last() {
            rest.push(ids.last())
        } else {
            rest
        }
    }
}

/// What a run of a cron job makes.
pub struct CronRun {
    /// The job to store.
    pub job: Job,
    /// The cron job to store after it.
    pub cronjob: CronJob,
}

/// Makes jobs on a schedule.
pub struct CronJobController {
    /// Seconds between two passes.
    pub check_interval_secs: u64,
}

impl CronJobController {
    /// A controller with the standard interval.
    pub fn new() -> (r: Self)
        ensures
            r.check_interval_secs == 30,
    {
        CronJobController { check_interval_secs: 30 }
    }

    /// Decides whether a cron job makes a job now.
    pub fn should_run(cj: &CronJob, now: i128) -> (r: bool)
        requires
            valid_time(now),
            cj.status.last_schedule_time is Some ==> valid_time(
                cj.status.last_schedule_time->0,
            ),
        ensures
            r == cron_runs(cj.deep_view(), now),
    {
        if cj.spec.suspend {
            return false;
        }
        match cj.status.last_schedule_time {
            Some(last) => is_schedule_due(cj.spec.schedule.as_str(), last, now),
            None => true,
        }
    }

    /// Makes a job, under a given id and time text.
    pub fn run_as(ns: &str, cj: CronJob, stamp: &str, id: String, now: i128) -> (r: CronRun)
        ensures
            r.job.deep_view() == cron_job(ns@, cj.deep_view(), stamp@, id@, now),
            r.cronjob.deep_view() == after_run(cj.deep_view(), id@, now),
    {
        let job: Job = Job {
            id: id.clone(),
            name: cat3(cj.name.as_str(), "-", stamp),
            namespace: ns.to_owned(),
            spec: cj.spec.job_template.clone(),
            status: JobStatus {
                active: 0,
                succeeded: 0,
                failed: 0,
                condition: JobCondition::Running,
                start_time: None,
                completion_time: None,
            },
            owner_ref: Some(cj.id.clone()),
            created_at: now,
        };
        let mut out: CronJob = cj;
        let ghost before = out.status.active_jobs.deep_view();
        let ghost idv = id@;
        out.status.last_schedule_time = Some(now);
        out.status.active_jobs.push(id);
        assert(out.status.active_jobs.deep_view() =~= before.push(idv));
        CronRun { job, cronjob: out }
    }

    /// Makes a job, under a fresh id.
    pub fn run(ns: &str, cj: CronJob, now: i128) -> (r: CronRun)
        requires
            valid_time(now),
        ensures
            is_uuid(r.job.id@),
            r.job.deep_view() == cron_job(
                ns@,
                cj.deep_view(),
                stamp_text(now, "%Y%m%d%H%M%S"@),
                r.job.id@,
                now,
            ),
            r.cronjob.deep_view() == after_run(cj.deep_view(), r.job.id@, now),
    {
        let t: String = compact_stamp(now);
        Self::run_as(ns, cj, t.as_str(), fresh_id(), now)
    }

    /// Drops the ended jobs from the active ones; none where nothing changes or the
    /// cron job is suspended.
    pub fn prune(cj: CronJob, running: &Vec<bool>) -> (r: Option<CronJob>)
        requires
            running@.len() == cj.status.active_jobs@.len(),
        ensures
            r.deep_view() == ({
                let kept = still_active(cj.deep_view().status.active_jobs, running@);
                if !cj.spec.suspend && kept.len() != cj.status.active_jobs@.len() {
                    Some(
                        CronJobV {
                            status: CronJobStatusV {
                                active_jobs: kept,
                                ..cj.deep_view().status
                            },
                            ..cj.deep_view()
                        },
                    )
                } else {
                    None
                }
            }),
    {
        let ghost ids = cj.status.active_jobs.deep_view();
        let ghost flags = running@;
        let mut kept: Vec<String> = Vec::new();
        let mut i: usize = 0;
        assert(kept.deep_view() =~= still_active(ids.take(0), flags.take(0)));
        while i < running.len()
            invariant
                i <= running@.len(),
                running@.len() == cj.status.active_jobs@.len(),
                ids == cj.status.active_jobs.deep_view(),
                flags == running@,
                kept.deep_view() == still_active(ids.take(i as int), flags.take(i as int)),
            decreases running@.len() - i,
        {
            assert(ids.take(i + 1).drop_last() =~= ids.take(i as int));
            assert(flags.take(i + 1).drop_last() =~= flags.take(i as int));
            assert(ids[i as int] == cj.status.active_jobs@[i as int]@);
            if running[i] {
                let ghost before = kept.deep_view();
                kept.push(cj.status.active_jobs[i].clone());
                assert(kept.deep_view() =~= before.push(ids[i as int]));
            }
            i = i + 1;
        }
        assert(ids.take(i as int) =~= ids);
        assert(flags.take(i as int) =~= flags);
        assert(kept.deep_view().len() == kept@.len());
        if !cj.spec.suspend && kept.len() != cj.status.active_jobs.len() {
            let mut out: CronJob = cj;
            out.status.active_jobs = kept;
            Some(out)
        } else {
            None
        }
    }
}

/// A cron job that has just made a job does not make another one at the same
/// moment, unless it asks for intervals of no minutes at all.
pub proof fn law_runs_once(cj: CronJobV, id: Seq<char>, now: i128)
    requires
        words(cj.spec.schedule).len() > 0 && has_prefix(words(cj.spec.schedule)[0], "*/"@) ==> (
        match parse_signed(words(cj.spec.schedule)[0].skip("*/"@.len() as int)) {
            Some(n) => n > 0,
            None => true,
        }),
    ensures
        !cron_runs(after_run(cj, id, now), now),
{
}

/// A suspended cron job never runs.
pub proof fn law_suspended_never_runs(cj: CronJobV, now: i128)
    requires
        cj.spec.suspend,
    ensures
        !cron_runs(cj, now),
{
}

/// A schedule whose first field is `*/N` is due exactly when at least N whole
/// minutes have passed since the last run, for every N.
pub proof fn law_interval_is_kept(
    schedule: &str,
    n: nat,
    rest: Seq<char>,
    last_run: i128,
    now: i128,
    r: bool,
)
    requires
        call_ensures(is_schedule_due, (schedule, last_run, now), r),
        schedule@ == "*/"@ + decimal(n) + rest,
        rest.len() > 0 ==> rest[0] == ' ',
        0 < n <= i64::MAX,
    ensures
        r <==> now - last_run >= n * 60_000_000_000,
{
    let digits = decimal(n);
    let field = "*/"@ + digits;
    reveal_strlit("*/");
    reveal_strlit("*");
    law_decimal_is_read_back(n, i64::MAX as nat);
    lemma_field_has_no_space(n);
    law_first_word(field, rest);
    assert(field.len() > 2);
    assert(field.skip("*/"@.len() as int) =~= digits);
    assert(has_prefix(field, "*/"@)) by {
        assert(field.subrange(0, 2) =~= "*/"@);
    }
}

proof fn lemma_field_has_no_space(n: nat)
    ensures
        decimal(n).len() > 0,
        forall|i: int| 0 <= i < decimal(n).len() ==> !is_space(#[trigger] decimal(n)[i]),
        forall|i: int|
            0 <= i < ("*/"@ + decimal(n)).len() ==> !is_space(#[trigger] ("*/"@ + decimal(n))[i]),
        decimal(n)[0] != '*',
{
    reveal_strlit("*/");
    law_decimal_is_read_back(n, n);
    let d = decimal(n);
    lemma_decimal_digits(n);
    assert forall|i: int| 0 <= i < d.len() implies !is_space(#[trigger] d[i]) by {
        assert(is_digit(d[i]));
    }
    assert forall|i: int| 0 <= i < ("*/"@ + d).len() implies !is_space(
        #[trigger] ("*/"@ + d)[i],
    ) by {
        if i >= 2 {
            assert(("*/"@ + d)[i] == d[i - 2]);
        } else {
            assert(("*/"@ + d)[i] == "*/"@[i]);
        }
    }
    assert(is_digit(d[0]));
}

/// A schedule whose first field is `*` is due exactly when a whole minute has
/// passed since the last run.
pub proof fn law_every_minute(
    schedule: &str,
    rest: Seq<char>,
    last_run: i128,
    now: i128,
    r: bool,
)
    requires
        call_ensures(is_schedule_due, (schedule, last_run, now), r),
        schedule@ == "*"@ + rest,
        rest.len() > 0 ==> rest[0] == ' ',
    ensures
        r <==> now - last_run >= 60_000_000_000,
{
    reveal_strlit("*");
    law_first_word("*"@, rest);
}

/// A schedule whose first field is a number is due exactly in that minute of the
/// hour, and only when a whole minute has passed since the last run.
pub proof fn law_minute_of_the_hour(
    schedule: &str,
    m: nat,
    rest: Seq<char>,
    last_run: i128,
    now: i128,
    r: bool,
)
    requires
        call_ensures(is_schedule_due, (schedule, last_run, now), r),
        schedule@ == decimal(m) + rest,
        rest.len() > 0 ==> rest[0] == ' ',
        m <= u32::MAX,
    ensures
        r <==> (now as int / 60_000_000_000) % 60 == m && now - last_run >= 60_000_000_000,
{
    reveal_strlit("*/");
    reveal_strlit("*");
    law_decimal_is_read_back(m, u32::MAX as nat);
    lemma_field_has_no_space(m);
    law_first_word(decimal(m), rest);
    assert(decimal(m)[0] != '*');
    assert(!has_prefix(decimal(m), "*/"@)) by {
        if has_prefix(decimal(m), "*/"@) {
            assert(decimal(m).subrange(0, 2)[0] == "*/"@[0]);
        }
    }
}

/// A schedule without any field is never due.
pub proof fn law_empty_schedule_never_due(schedule: &str, last_run: i128, now: i128, r: bool)
    requires
        call_ensures(is_schedule_due, (schedule, last_run, now), r),
        schedule@.len() == 0,
    ensures
        !r,
{
}

/// A cron job that is not suspended runs at once where it never ran, and from then
/// on exactly when its schedule is due; a suspended one never does.
pub proof fn law_cron_follows_its_schedule(cj: CronJob, now: i128, r: bool, due: bool)
    requires
        call_ensures(CronJobController::should_run, (&cj, now), r),
        cj.status.last_schedule_time matches Some(last) ==> exists|schedule: &str|
            schedule@ == cj.spec.schedule@ && #[trigger] call_ensures(
                is_schedule_due,
                (schedule, last, now),
                due,
            ),
    ensures
        cj.spec.suspend ==> !r,
        !cj.spec.suspend && cj.status.last_schedule_time is None ==> r,
        !cj.spec.suspend && cj.status.last_schedule_time is Some ==> r == due,
{
}

/// A run makes a job of the cron job: it runs the job template, has done nothing
/// yet, and belongs to the cron job, which counts it as active and takes the
/// moment as its last run.
pub proof fn law_run_makes_a_job(
    ns: &str,
    cj: CronJob,
    stamp: &str,
    id: String,
    now: i128,
    r: CronRun,
)
    requires
        call_ensures(CronJobController::run_as, (ns, cj, stamp, id, now), r),
    ensures
        r.job.id@ == id@,
        r.job.name@ == cj.name@ + "-"@ + stamp@,
        r.job.namespace@ == ns@,
        r.job.deep_view().owner_ref == Some(cj.id@),
        r.job.deep_view().spec == cj.deep_view().spec.job_template,
        r.job.status.condition == JobCondition::Running,
        r.job.status.active == 0,
        r.job.status.succeeded == 0,
        r.job.status.failed == 0,
        r.job.status.start_time is None,
        r.job.status.completion_time is None,
        r.job.created_at == now,
        r.cronjob.status.last_schedule_time == Some(now),
        r.cronjob.deep_view().status.active_jobs == cj.deep_view().status.active_jobs.push(id@),
        r.cronjob.deep_view().spec == cj.deep_view().spec,
        r.cronjob.id@ == cj.id@,
        r.cronjob.name@ == cj.name@,
        r.cronjob.namespace@ == cj.namespace@,
{
}

proof fn lemma_still_active(ids: Seq<Seq<char>>, running: Seq<bool>)
    requires
        ids.len() == running.len(),
    ensures
        still_active(ids, running).len() <= ids.len(),
        still_active(ids, running).len() == ids.len() <==> forall|i: int|
            0 <= i < running.len() ==> #[trigger] running[i],
        forall|i: int|
            0 <= i < ids.len() && running[i] ==> still_active(ids, running).contains(
                #[trigger] ids[i],
            ),
        forall|x: Seq<char>| #[trigger]
            still_active(ids, running).contains(x) ==> exists|i: int|
                0 <= i < ids.len() && #[trigger] ids[i] == x && running[i],
    decreases ids.len(),
{
    if ids.len() > 0 {
        let a = ids.drop_last();
        let b = running.drop_last();
        lemma_still_active(a, b);
        let before = still_active(a, b);
        let after = still_active(ids, running);
        assert forall|i: int| 0 <= i < ids.len() && running[i] implies after.contains(
            #[trigger] ids[i],
        ) by {
            if i < a.len() {
                assert(a[i] == ids[i] && b[i] == running[i]);
                let k = choose|k: int| 0 <= k < before.len() && before[k] == ids[i];
                assert(after[k] == ids[i]);
            } else {
                assert(after[after.len() - 1] == ids[i]);
            }
        }
        assert forall|x: Seq<char>| #[trigger] after.contains(x) implies exists|i: int|
            0 <= i < ids.len() && #[trigger] ids[i] == x && running[i] by {
            let k = choose|k: int| 0 <= k < after.len() && after[k] == x;
            if k < before.len() {
                assert(before.contains(before[k]));
                let i = choose|i: int| 0 <= i < a.len() && #[trigger] a[i] == x && b[i];
                assert(ids[i] == x && running[i]);
            } else {
                assert(ids[ids.len() - 1] == x && running[ids.len() - 1]);
            }
        }
        if forall|i: int| 0 <= i < running.len() ==> #[trigger] running[i] {
            assert forall|i: int| 0 <= i < b.len() implies #[trigger] b[i] by {
                assert(b[i] == running[i]);
            }
            assert(running[running.len() - 1]);
        }
        if after.len() == ids.len() {
            assert forall|i: int| 0 <= i < running.len() implies #[trigger] running[i] by {
                if i < b.len() {
                    assert(b[i]);
                }
            }
        }
    }
}

/// Pruning keeps exactly the active jobs that still run, and stores nothing where
/// all of them do or the cron job is suspended.
pub proof fn law_prune_keeps_the_running(
    cj: CronJob,
    running: Vec<bool>,
    r: Option<CronJob>,
    i: int,
)
    requires
        call_ensures(CronJobController::prune, (cj, &running), r),
        running.len() == cj.status.active_jobs.len(),
        0 <= i < running.len(),
    ensures
        r is Some <==> !cj.spec.suspend && exists|k: int|
            0 <= k < running.len() && !#[trigger] running[k],
        r matches Some(c) ==> {
            &&& running[i] ==> c.deep_view().status.active_jobs.contains(
                cj.status.active_jobs[i]@,
            )
            &&& forall|x: Seq<char>| #[trigger]
                c.deep_view().status.active_jobs.contains(x) ==> exists|k: int|
                    0 <= k < running.len() && #[trigger] cj.status.active_jobs[k]@ == x
                        && running[k]
            &&& c.deep_view().spec == cj.deep_view().spec
            &&& c.status.last_schedule_time == cj.status.last_schedule_time
            &&& c.id@ == cj.id@
        },
{
    let ids = cj.deep_view().status.active_jobs;
    lemma_still_active(ids, running@);
    assert(ids[i] == cj.status.active_jobs[i]@);
    if r is Some {
        let c = r->0;
        assert forall|x: Seq<char>| #[trigger]
            c.deep_view().status.active_jobs.contains(x) implies exists|k: int|
            0 <= k < running.len() && #[trigger] cj.status.active_jobs[k]@ == x && running[k] by {
            let k = choose|k: int| 0 <= k < ids.len() && #[trigger] ids[k] == x && running@[k];
            assert(cj.status.active_jobs[k]@ == x && running[k]);
        }
    }
}

/// A run makes the job that its id and the time of day give, and the cron job remembers
/// it.
pub proof fn law_run_is_the_made_one(
    ns: &str,
    cj: CronJob,
    stamp: String,
    text: &str,
    id: String,
    now: i128,
    r: CronRun,
    q: CronRun,
)
    requires
        call_ensures(CronJobController::run, (ns, cj, now), r),
        call_ensures(compact_stamp, (now,), stamp),
        text@ == stamp@,
        call_ensures(CronJobController::run_as, (ns, cj, text, id, now), q),
        id@ == r.job.id@,
    ensures
        r.job.deep_view() == q.job.deep_view(),
        r.cronjob.deep_view() == q.cronjob.deep_view(),
        r.cronjob.deep_view().status.active_jobs.contains(r.job.id@),
        r.cronjob.deep_view().status.last_schedule_time == Some(now),
        r.job.id@.len() == 36,
{
    let a = r.cronjob.deep_view().status.active_jobs;
    assert(a[a.len() - 1] == r.job.id@);
}

} // verus!
