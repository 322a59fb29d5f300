//! Deployments: turning templates into replica sets.
use vstd::prelude::*;
use vstd::string::*;
use crate::collections::{clone_labels, lemma_filter_map_step};
#[allow(unused_imports)]
use crate::collections::keys_distinct;
use crate::ids::fresh_id;
#[allow(unused_imports)]
use crate::ids::is_uuid;
use crate::model::{
    Deployment,
    DeploymentStatus,
    DeploymentStrategy,
    ReplicaSet,
    ReplicaSetSpec,
    ReplicaSetStatus,
};
#[allow(unused_imports)]
use crate::model::{
    DeploymentStatusV,
    DeploymentV,
    ReplicaSetSpecV,
    ReplicaSetStatusV,
    ReplicaSetV,
};
use crate::numbers::hex16;
#[allow(unused_imports)]
use crate::numbers::{hex_digits, lemma_hex_ascii};
use crate::text::{cat3, first_chars, opt_is, str_eq};
#[allow(unused_imports)]
use crate::text::head;

verus! {

/// A replica set with the key that it is stored under.
pub type StoredReplicaSet = (String, ReplicaSet);

// ---------------------------------------------------------------------------
// Template hash
// ---------------------------------------------------------------------------

/// The polynomial hash of a byte sequence in base 31, modulo two to the 64th.
pub open spec fn poly_hash(bytes: Seq<u8>) -> nat
    decreases bytes.len(),
{
    if bytes.len() == 0 {
        0
    } else {
        (poly_hash(bytes.drop_last()) * 31 + bytes.last() as nat) % 0x1_0000_0000_0000_0000
    }
}

/// The hash of a template, given as its JSON text.
pub open spec fn template_hash(json: Seq<char>) -> Seq<char> {
    hex_digits(poly_hash(vstd::utf8::encode_utf8(json)), 16)
}

/// Computes the hash that tells templates apart.
pub fn compute_template_hash(json: &str) -> (r: String)
    ensures
        r@ == template_hash(json@),
        vstd::utf8::is_ascii_chars(r@),
{
    let bytes: &[u8] = json.as_bytes();
    let ghost b = bytes@;
    let mut hash: u64 = 0;
    let mut i: usize = 0;
    assert(b.take(0) =~= Seq::<u8>::empty());
    while i < bytes.len()
        invariant
            i <= bytes@.len(),
            b == bytes@,
            hash == poly_hash(b.take(i as int)),
        decreases bytes@.len() - i,
    {
        assert(b.take(i + 1).drop_last() =~= b.take(i as int));
        let ghost h = hash as int;
        let x: u64 = hash.wrapping_mul(31);
        let byte: u64 = bytes[i] as u64;
        hash = x.wrapping_add(byte);
        proof {
            lemma_mod_step(h, byte as int);
        }
        i = i + 1;
    }
    assert(b.take(i as int) =~= b);
    proof {
        lemma_hex_ascii(hash as nat, 16);
    }
    hex16(hash)
}

proof fn lemma_mod_step(h: int, byte: int)
    requires
        0 <= h,
        0 <= byte < 256,
    ensures
        ((h * 31) % 0x1_0000_0000_0000_0000 + byte) % 0x1_0000_0000_0000_0000 == (h * 31 + byte)
            % 0x1_0000_0000_0000_0000,
{
}

// ---------------------------------------------------------------------------
// Rollout
// ---------------------------------------------------------------------------

/// Whether a replica set belongs to a deployment and has its current template.
pub open spec fn is_current(rs: ReplicaSetV, owner: Seq<char>, hash: Seq<char>) -> bool {
    rs.owner_ref == Some(owner) && rs.template_hash == hash
}

/// The first replica set of a deployment with its current template.
pub open spec fn current_set(
    sets: Seq<(Seq<char>, ReplicaSetV)>,
    owner: Seq<char>,
    hash: Seq<char>,
) -> Option<(Seq<char>, ReplicaSetV)>
    decreases sets.len(),
{
    if sets.len() == 0 {
        None
    } else {
        match current_set(sets.drop_last(), owner, hash) {
            Some(e) => Some(e),
            None => if is_current(sets.last().1, owner, hash) {
                Some(sets.last())
            } else {
                None
            },
        }
    }
}

/// A replica set with another number of replicas.
pub open spec fn resized(rs: ReplicaSetV, replicas: u32) -> ReplicaSetV {
    ReplicaSetV { spec: ReplicaSetSpecV { replicas, ..rs.spec }, ..rs }
}

/// Shrinks the replica sets of a deployment that have an outdated template and
/// still hold replicas: by `step`, or to none at all.
pub open spec fn shrink_rule(
    owner: Seq<char>,
    hash: Seq<char>,
    step: Option<u32>,
) -> spec_fn((Seq<char>, ReplicaSetV)) -> Option<(Seq<char>, ReplicaSetV)> {
    |e: (Seq<char>, ReplicaSetV)|
        if e.1.owner_ref == Some(owner) && e.1.template_hash != hash && e.1.spec.replicas > 0 {
            Some(
                (
                    e.0,
                    resized(
                        e.1,
                        match step {
                            Some(k) => if e.1.spec.replicas > k {
                                (e.1.spec.replicas - k) as u32
                            } else {
                                0
                            },
                            None => 0,
                        },
                    ),
                ),
            )
        } else {
            None
        }
}

/// The current replica set brought to the wanted size, where it has another.
pub open spec fn fixed_size(e: (Seq<char>, ReplicaSetV), replicas: u32) -> Seq<
    (Seq<char>, ReplicaSetV),
> {
    if e.1.spec.replicas != replicas {
        seq![(e.0, resized(e.1, replicas))]
    } else {
        Seq::empty()
    }
}

/// The lesser of two numbers.
pub open spec fn least(a: u32, b: u32) -> u32 {
    if a <= b {
        a
    } else {
        b
    }
}

/// The size of the new replica set, where one is to be created.
pub open spec fn rollout_create(
    d: DeploymentV,
    hash: Seq<char>,
    sets: Seq<(Seq<char>, ReplicaSetV)>,
) -> Option<u32> {
    match current_set(sets, d.id, hash) {
        Some(_) => None,
        None => Some(
            match d.spec.strategy {
                DeploymentStrategy::RollingUpdate { max_surge, .. } => least(
                    d.spec.replicas,
                    max_surge,
                ),
                DeploymentStrategy::Recreate => d.spec.replicas,
            },
        ),
    }
}

/// The replica sets that a rollout changes, in the order of the changes.
pub open spec fn rollout_updates(
    d: DeploymentV,
    hash: Seq<char>,
    sets: Seq<(Seq<char>, ReplicaSetV)>,
) -> Seq<(Seq<char>, ReplicaSetV)> {
    match (d.spec.strategy, current_set(sets, d.id, hash)) {
        (DeploymentStrategy::RollingUpdate { max_surge, .. }, None) => sets.filter_map(
            shrink_rule(
                d.id,
                hash,
                Some(
                    if max_surge >= 1 {
                        max_surge
                    } else {
                        1
                    },
                ),
            ),
        ),
        (DeploymentStrategy::RollingUpdate { .. }, Some(e)) => fixed_size(e, d.spec.replicas)
            + sets.filter_map(shrink_rule(d.id, hash, None)),
        (DeploymentStrategy::Recreate, None) => sets.filter_map(shrink_rule(d.id, hash, None)),
        (DeploymentStrategy::Recreate, Some(e)) => fixed_size(e, d.spec.replicas),
    }
}

/// What a pass over a deployment changes.
pub struct RolloutPlan {
    /// The size of the replica set to create for the current template, if any.
    pub create: Option<u32>,
    /// Whether the new replica set is created before the updates.
    pub create_first: bool,
    /// The replica sets to store, under their keys, in order.
    pub updates: Vec<StoredReplicaSet>,
}

fn find_current(sets: &Vec<StoredReplicaSet>, owner: &str, hash: &str) -> (r: Option<usize>)
    ensures
        match r {
            Some(i) => i < sets@.len() && current_set(sets.deep_view(), owner@, hash@) == Some(
                sets.deep_view()[i as int],
            ),
            None => current_set(sets.deep_view(), owner@, hash@) is None,
        },
{
    let ghost all = sets.deep_view();
    let mut found: Option<usize> = None;
    let mut i: usize = 0;
    assert(all.take(0) =~= Seq::<(Seq<char>, ReplicaSetV)>::empty());
    while i < sets.len()
        invariant
            i <= sets@.len(),
            all == sets.deep_view(),
            match found {
                Some(k) => k < i && current_set(all.take(i as int), owner@, hash@) == Some(
                    all[k as int],
                ),
                None => current_set(all.take(i as int), owner@, hash@) is None,
            },
        decreases sets@.len() - i,
    {
        assert(all.take(i + 1).drop_last() =~= all.take(i as int));
        assert(all.take(i + 1).last() == all[i as int]);
        if found.is_none() && opt_is(&sets[i].1.owner_ref, owner) && str_eq(
            sets[i].1.template_hash.as_str(),
            hash,
        ) {
            found = Some(i);
        }
        i = i + 1;
    }
    assert(all.take(i as int) =~= all);
    found
}

fn with_replicas(rs: &ReplicaSet, replicas: u32) -> (r: ReplicaSet)
    ensures
        r.deep_view() == resized(rs.deep_view(), replicas),
{
    let mut out: ReplicaSet = rs.clone();
    out.spec.replicas = replicas;
    out
}

fn shrink(
    sets: &Vec<StoredReplicaSet>,
    owner: &str,
    hash: &str,
    step: Option<u32>,
) -> (r: Vec<StoredReplicaSet>)
    ensures
        r.deep_view() == sets.deep_view().filter_map(shrink_rule(owner@, hash@, step)),
{
    let ghost all = sets.deep_view();
    let ghost f = shrink_rule(owner@, hash@, step);
    let mut out: Vec<StoredReplicaSet> = Vec::new();
    let mut i: usize = 0;
    assert(all.take(0) =~= Seq::<(Seq<char>, ReplicaSetV)>::empty());
    assert(out.deep_view() =~= Seq::<(Seq<char>, ReplicaSetV)>::empty());
    while i < sets.len()
        invariant
            i <= sets@.len(),
            all == sets.deep_view(),
            f == shrink_rule(owner@, hash@, step),
            out.deep_view() == all.take(i as int).filter_map(f),
        decreases sets@.len() - i,
    {
        proof {
            lemma_filter_map_step(all, f, i as int);
        }
        let rs: &ReplicaSet = &sets[i].1;
        if opt_is(&rs.owner_ref, owner) && !str_eq(rs.template_hash.as_str(), hash)
            && rs.spec.replicas > 0 {
            let size: u32 = match step {
                Some(k) => if rs.spec.replicas > k {
                    rs.spec.replicas - k
                } else {
                    0
                },
                None => 0,
            };
            let ghost before = out.deep_view();
            out.push((sets[i].0.clone(), with_replicas(rs, size)));
            assert(out.deep_view() =~= before.push(f(all[i as int])->0));
        }
        i = i + 1;
    }
    assert(all.take(i as int) =~= all);
    out
}

fn fix_size(e: &StoredReplicaSet, replicas: u32) -> (r: Vec<StoredReplicaSet>)
    ensures
        r.deep_view() == fixed_size(e.deep_view(), replicas),
{
    let mut out: Vec<StoredReplicaSet> = Vec::new();
    if e.1.spec.replicas != replicas {
        out.push((e.0.clone(), with_replicas(&e.1, replicas)));
    }
    assert(out.deep_view() =~= fixed_size(e.deep_view(), replicas));
    out
}

// ---------------------------------------------------------------------------
// Status
// ---------------------------------------------------------------------------

/// A sum over the replica sets of a deployment: of their ready replicas, those
/// of the current template alone, or their available replicas.
pub open spec fn status_sum(
    sets: Seq<(Seq<char>, ReplicaSetV)>,
    owner: Seq<char>,
    value: spec_fn(ReplicaSetV) -> int,
) -> int
    decreases sets.len(),
{
    if sets.len() == 0 {
        0
    } else {
        status_sum(sets.drop_last(), owner, value) + if sets.last().1.owner_ref == Some(owner) {
            value(sets.last().1)
        } else {
            0
        }
    }
}

/// The ready replicas of a replica set.
pub open spec fn ready_of() -> spec_fn(ReplicaSetV) -> int {
    |rs: ReplicaSetV| rs.status.ready_replicas as int
}

/// The available replicas of a replica set.
pub open spec fn available_of() -> spec_fn(ReplicaSetV) -> int {
    |rs: ReplicaSetV| rs.status.available_replicas as int
}

/// The ready replicas of a replica set with the current template.
pub open spec fn updated_of(hash: Seq<char>) -> spec_fn(ReplicaSetV) -> int {
    |rs: ReplicaSetV|
        if rs.template_hash == hash {
            rs.status.ready_replicas as int
        } else {
            0
        }
}

proof fn lemma_sum_grows(
    sets: Seq<(Seq<char>, ReplicaSetV)>,
    owner: Seq<char>,
    value: spec_fn(ReplicaSetV) -> int,
    i: int,
)
    requires
        0 <= i <= sets.len(),
        forall|rs: ReplicaSetV| #[trigger] value(rs) >= 0,
    ensures
        0 <= status_sum(sets.take(i), owner, value) <= status_sum(sets, owner, value),
    decreases sets.len(),
{
    if i == sets.len() {
        assert(sets.take(i) =~= sets);
        if i > 0 {
            lemma_sum_grows(sets.drop_last(), owner, value, i - 1);
            assert(sets.drop_last().take(i - 1) =~= sets.drop_last());
        }
    } else {
        lemma_sum_grows(sets.drop_last(), owner, value, i);
        assert(sets.drop_last().take(i) =~= sets.take(i));
    }
}

proof fn lemma_updated_below_ready(
    sets: Seq<(Seq<char>, ReplicaSetV)>,
    owner: Seq<char>,
    hash: Seq<char>,
)
    ensures
        status_sum(sets, owner, updated_of(hash)) <= status_sum(sets, owner, ready_of()),
    decreases sets.len(),
{
    if sets.len() > 0 {
        lemma_updated_below_ready(sets.drop_last(), owner, hash);
    }
}

/// Reconciles deployments into replica sets.
pub struct DeploymentController {
    /// Seconds between two passes.
    pub check_interval_secs: u64,
}

impl DeploymentController {
    /// A controller with the standard interval.
    pub fn new() -> (r: Self)
        ensures
            r.check_interval_secs == 10,
    {
        DeploymentController { check_interval_secs: 10 }
    }

    /// Decides what becomes of the replica sets of a deployment.
    pub fn plan_rollout(
        deploy: &Deployment,
        hash: &str,
        sets: &Vec<StoredReplicaSet>,
    ) -> (r: RolloutPlan)
        ensures
            r.create == rollout_create(deploy.deep_view(), hash@, sets.deep_view()),
            r.updates.deep_view() == rollout_updates(deploy.deep_view(), hash@, sets.deep_view()),
            r.create_first == (deploy.spec.strategy is RollingUpdate),
    {
        let owner: &str = deploy.id.as_str();
        let want: u32 = deploy.spec.replicas;
        let current: Option<usize> = find_current(sets, owner, hash);
        match deploy.spec.strategy {
            DeploymentStrategy::RollingUpdate { max_surge, .. } => {
                match current {
                    None => {
                        let step: u32 = if max_surge >= 1 {
                            max_surge
                        } else {
                            1
                        };
                        let create: u32 = if want <= max_surge {
                            want
                        } else {
                            max_surge
                        };
                        RolloutPlan {
                            create: Some(create),
                            create_first: true,
                            updates: shrink(sets, owner, hash, Some(step)),
                        }
                    },
                    Some(i) => {
                        let mut updates: Vec<StoredReplicaSet> = fix_size(&sets[i], want);
                        let mut rest: Vec<StoredReplicaSet> = shrink(sets, owner, hash, None);
                        let ghost a = updates.deep_view();
                        let ghost b = rest.deep_view();
                        updates.append(&mut rest);
                        assert(updates.deep_view() =~= a + b);
                        RolloutPlan { create: None, create_first: true, updates }
                    },
                }
            },
            DeploymentStrategy::Recreate => {
                match current {
                    None => RolloutPlan {
                        create: Some(want),
                        create_first: false,
                        updates: shrink(sets, owner, hash, None),
                    },
                    Some(i) => RolloutPlan {
                        create: None,
                        create_first: false,
                        updates: fix_size(&sets[i], want),
                    },
                }
            },
        }
    }

    /// Makes the replica set for the current template, under a given id.
    pub fn replicaset_for(
        ns: &str,
        deploy: &Deployment,
        hash: &str,
        replicas: u32,
        id: &str,
        now: i128,
    ) -> (r: ReplicaSet)
        requires
            hash.is_ascii(),
        ensures
            r.deep_view() == new_set(ns@, deploy.deep_view(), hash@, replicas, id@, now),
    {
        let short: String = first_chars(hash, 8);
        ReplicaSet {
            id: id.to_owned(),
            name: cat3(deploy.name.as_str(), "-", short.as_str()),
            namespace: ns.to_owned(),
            spec: ReplicaSetSpec {
                replicas,
                selector: clone_labels(&deploy.spec.selector),
                template: deploy.spec.template.clone(),
            },
            status: ReplicaSetStatus { replicas: 0, ready_replicas: 0, available_replicas: 0 },
            owner_ref: Some(deploy.id.clone()),
            template_hash: hash.to_owned(),
            created_at: now,
        }
    }

    /// Makes the replica set for the current template, under a fresh id.
    pub fn create_replicaset(
        ns: &str,
        deploy: &Deployment,
        hash: &str,
        replicas: u32,
        now: i128,
    ) -> (r: ReplicaSet)
        requires
            hash.is_ascii(),
        ensures
            is_uuid(r.id@),
            r.deep_view() == new_set(ns@, deploy.deep_view(), hash@, replicas, r.id@, now),
    {
        let id: String = fresh_id();
        Self::replicaset_for(ns, deploy, hash, replicas, id.as_str(), now)
    }

    /// The deployment with its status summed up afresh.
    pub fn update_status(
        deploy: Deployment,
        hash: &str,
        sets: &Vec<StoredReplicaSet>,
    ) -> (r: Deployment)
        requires
            status_sum(sets.deep_view(), deploy.id@, ready_of()) <= u32::MAX,
            status_sum(sets.deep_view(), deploy.id@, available_of()) <= u32::MAX,
        ensures
            r.deep_view() == (DeploymentV {
                status: DeploymentStatusV {
                    ready_replicas: status_sum(sets.deep_view(), deploy.id@, ready_of()) as u32,
                    available_replicas: status_sum(
                        sets.deep_view(),
                        deploy.id@,
                        available_of(),
                    ) as u32,
                    updated_replicas: status_sum(
                        sets.deep_view(),
                        deploy.id@,
                        updated_of(hash@),
                    ) as u32,
                },
                observed_generation: deploy.generation,
                ..deploy.deep_view()
            }),
    {
        let ghost all = sets.deep_view();
        let ghost owner = deploy.id@;
        let mut ready: u32 = 0;
        let mut available: u32 = 0;
        let mut updated: u32 = 0;
        let mut i: usize = 0;
        assert(all.take(0) =~= Seq::<(Seq<char>, ReplicaSetV)>::empty());
        while i < sets.len()
            invariant
                i <= sets@.len(),
                all == sets.deep_view(),
                owner == deploy.id@,
                status_sum(all, owner, ready_of()) <= u32::MAX,
                status_sum(all, owner, available_of()) <= u32::MAX,
                ready == status_sum(all.take(i as int), owner, ready_of()),
                available == status_sum(all.take(i as int), owner, available_of()),
                updated == status_sum(all.take(i as int), owner, updated_of(hash@)),
            decreases sets@.len() - i,
        {
            proof {
                lemma_sum_grows(all, owner, ready_of(), i + 1);
                lemma_sum_grows(all, owner, available_of(), i + 1);
                lemma_updated_below_ready(all.take(i + 1), owner, hash@);
                assert(all.take(i + 1).drop_last() =~= all.take(i as int));
                assert(all.take(i + 1).last() == all[i as int]);
            }
            let rs: &ReplicaSet = &sets[i].1;
            if opt_is(&rs.owner_ref, deploy.id.as_str()) {
                ready = ready + rs.status.ready_replicas;
                available = available + rs.status.available_replicas;
                if str_eq(rs.template_hash.as_str(), hash) {
                    updated = updated + rs.status.ready_replicas;
                }
            }
            i = i + 1;
        }
        assert(all.take(i as int) =~= all);
        let mut out: Deployment = deploy;
        out.status = DeploymentStatus {
            ready_replicas: ready,
            available_replicas: available,
            updated_replicas: updated,
        };
        out.observed_generation = out.generation;
        out
    }
}

/// The replica set that a deployment makes for its current template.
pub open spec fn new_set(
    ns: Seq<char>,
    d: DeploymentV,
    hash: Seq<char>,
    replicas: u32,
    id: Seq<char>,
    now: i128,
) -> ReplicaSetV {
    ReplicaSetV {
        id,
        name: d.name + "-"@ + head(hash, 8),
        namespace: ns,
        spec: ReplicaSetSpecV { replicas, selector: d.spec.selector, template: d.spec.template },
        status: ReplicaSetStatusV { replicas: 0, ready_replicas: 0, available_replicas: 0 },
        owner_ref: Some(d.id),
        template_hash: hash,
        created_at: now,
    }
}

// ---------------------------------------------------------------------------
// Laws
// ---------------------------------------------------------------------------

/// The new replica set of a rollout is the current one of the next pass, if
/// there was none before: a template is rolled out once.
pub proof fn law_new_set_becomes_current(
    ns: Seq<char>,
    d: DeploymentV,
    hash: Seq<char>,
    sets: Seq<(Seq<char>, ReplicaSetV)>,
    key: Seq<char>,
    replicas: u32,
    id: Seq<char>,
    now: i128,
)
    requires
        rollout_create(d, hash, sets) == Some(replicas),
    ensures
        current_set(sets.push((key, new_set(ns, d, hash, replicas, id, now))), d.id, hash) == Some(
            (key, new_set(ns, d, hash, replicas, id, now)),
        ),
        rollout_create(
            d,
            hash,
            sets.push((key, new_set(ns, d, hash, replicas, id, now))),
        ) is None,
{
    let more = sets.push((key, new_set(ns, d, hash, replicas, id, now)));
    assert(more.drop_last() =~= sets);
}

/// What is stored under a key by a series of updates, the last of which counts.
pub open spec fn update_of(updates: Seq<(Seq<char>, ReplicaSetV)>, key: Seq<char>) -> Option<
    ReplicaSetV,
>
    decreases updates.len(),
{
    if updates.len() == 0 {
        None
    } else if updates.last().0 == key {
        Some(updates.last().1)
    } else {
        update_of(updates.drop_last(), key)
    }
}

/// The replica sets after a series of updates.
pub open spec fn after_updates(
    sets: Seq<(Seq<char>, ReplicaSetV)>,
    updates: Seq<(Seq<char>, ReplicaSetV)>,
) -> Seq<(Seq<char>, ReplicaSetV)> {
    sets.map_values(
        |e: (Seq<char>, ReplicaSetV)|
            match update_of(updates, e.0) {
                Some(rs) => (e.0, rs),
                None => e,
            },
    )
}

/// Shrinking stores nothing under a key that no replica set has.
proof fn lemma_shrunk_elsewhere(
    sets: Seq<(Seq<char>, ReplicaSetV)>,
    owner: Seq<char>,
    hash: Seq<char>,
    step: Option<u32>,
    key: Seq<char>,
)
    requires
        forall|i: int| 0 <= i < sets.len() ==> (#[trigger] sets[i]).0 != key,
    ensures
        update_of(sets.filter_map(shrink_rule(owner, hash, step)), key) is None,
    decreases sets.len(),
{
    let rule = shrink_rule(owner, hash, step);
    reveal(Seq::filter_map);
    if sets.len() > 0 {
        let n = sets.len() - 1;
        lemma_filter_map_step(sets, rule, n);
        assert(sets.take(n + 1) =~= sets);
        assert(sets.take(n) =~= sets.drop_last());
        lemma_shrunk_elsewhere(sets.drop_last(), owner, hash, step, key);
        let before = sets.drop_last().filter_map(rule);
        match rule(sets[n]) {
            Some(x) => {
                assert(before.push(x).drop_last() =~= before);
            },
            None => {},
        }
    }
}

/// What shrinking stores under the key of a replica set.
proof fn lemma_shrunk_at(
    sets: Seq<(Seq<char>, ReplicaSetV)>,
    owner: Seq<char>,
    hash: Seq<char>,
    step: Option<u32>,
    i: int,
)
    requires
        0 <= i < sets.len(),
        keys_distinct(sets),
    ensures
        update_of(sets.filter_map(shrink_rule(owner, hash, step)), sets[i].0) == match shrink_rule(
            owner,
            hash,
            step,
        )(sets[i]) {
            Some(x) => Some(x.1),
            None => None,
        },
    decreases sets.len(),
{
    let rule = shrink_rule(owner, hash, step);
    let n = sets.len() - 1;
    lemma_filter_map_step(sets, rule, n);
    assert(sets.take(n + 1) =~= sets);
    assert(sets.take(n) =~= sets.drop_last());
    let before = sets.drop_last().filter_map(rule);
    match rule(sets[n]) {
        Some(x) => {
            assert(before.push(x).drop_last() =~= before);
        },
        None => {},
    }
    if i == n {
        lemma_shrunk_elsewhere(sets.drop_last(), owner, hash, step, sets[i].0);
    } else {
        assert(sets.drop_last()[i] == sets[i]);
        assert(keys_distinct(sets.drop_last()));
        lemma_shrunk_at(sets.drop_last(), owner, hash, step, i);
    }
}

/// Of two series of updates, one after the other, the second counts.
proof fn lemma_update_of_both(
    a: Seq<(Seq<char>, ReplicaSetV)>,
    b: Seq<(Seq<char>, ReplicaSetV)>,
    key: Seq<char>,
)
    ensures
        update_of(a + b, key) == match update_of(b, key) {
            Some(rs) => Some(rs),
            None => update_of(a, key),
        },
    decreases b.len(),
{
    if b.len() == 0 {
        assert(a + b =~= a);
    } else {
        assert((a + b).drop_last() =~= a + b.drop_last());
        lemma_update_of_both(a, b.drop_last(), key);
    }
}

/// The current replica set is the first that is current.
proof fn lemma_current_at(sets: Seq<(Seq<char>, ReplicaSetV)>, owner: Seq<char>, hash: Seq<char>)
    ensures
        match current_set(sets, owner, hash) {
            Some(e) => exists|c: int|
                {
                    &&& 0 <= c < sets.len()
                    &&& #[trigger] sets[c] == e
                    &&& is_current(e.1, owner, hash)
                    &&& forall|i: int|
                        0 <= i < c ==> !is_current((#[trigger] sets[i]).1, owner, hash)
                },
            None => forall|i: int|
                0 <= i < sets.len() ==> !is_current((#[trigger] sets[i]).1, owner, hash),
        },
    decreases sets.len(),
{
    if sets.len() > 0 {
        let init = sets.drop_last();
        lemma_current_at(init, owner, hash);
        match current_set(init, owner, hash) {
            Some(e) => {
                let c = choose|c: int|
                    {
                        &&& 0 <= c < init.len()
                        &&& #[trigger] init[c] == e
                        &&& is_current(e.1, owner, hash)
                        &&& forall|i: int|
                            0 <= i < c ==> !is_current((#[trigger] init[i]).1, owner, hash)
                    };
                assert(sets[c] == e);
                assert forall|i: int| 0 <= i < c implies !is_current(
                    (#[trigger] sets[i]).1,
                    owner,
                    hash,
                ) by {
                    assert(init[i] == sets[i]);
                }
            },
            None => {
                assert forall|i: int| 0 <= i < init.len() implies !is_current(
                    (#[trigger] sets[i]).1,
                    owner,
                    hash,
                ) by {
                    assert(init[i] == sets[i]);
                }
                assert(sets[sets.len() - 1] == sets.last());
            },
        }
    }
}

/// Where no replica set is to shrink, shrinking stores nothing.
proof fn lemma_nothing_to_shrink(
    sets: Seq<(Seq<char>, ReplicaSetV)>,
    owner: Seq<char>,
    hash: Seq<char>,
    step: Option<u32>,
)
    requires
        forall|i: int|
            0 <= i < sets.len() ==> shrink_rule(owner, hash, step)(#[trigger] sets[i]) is None,
    ensures
        sets.filter_map(shrink_rule(owner, hash, step)) == Seq::<
            (Seq<char>, ReplicaSetV),
        >::empty(),
    decreases sets.len(),
{
    let rule = shrink_rule(owner, hash, step);
    reveal(Seq::filter_map);
    if sets.len() > 0 {
        let n = sets.len() - 1;
        lemma_filter_map_step(sets, rule, n);
        assert(sets.take(n + 1) =~= sets);
        assert(sets.take(n) =~= sets.drop_last());
        assert forall|i: int| 0 <= i < n implies rule(#[trigger] sets.drop_last()[i]) is None by {
            assert(sets.drop_last()[i] == sets[i]);
        }
        lemma_nothing_to_shrink(sets.drop_last(), owner, hash, step);
    }
}

/// A rollout settles: once a replica set of the current template exists, the
/// updates of one pass leave nothing to create or to update for the next.
pub proof fn law_rollout_settles(
    d: DeploymentV,
    hash: Seq<char>,
    sets: Seq<(Seq<char>, ReplicaSetV)>,
)
    requires
        keys_distinct(sets),
        current_set(sets, d.id, hash) is Some,
    ensures
        rollout_create(d, hash, after_updates(sets, rollout_updates(d, hash, sets))) is None,
        rollout_updates(d, hash, after_updates(sets, rollout_updates(d, hash, sets))) == Seq::<
            (Seq<char>, ReplicaSetV),
        >::empty(),
{
    let updates = rollout_updates(d, hash, sets);
    let t = after_updates(sets, updates);
    let e = current_set(sets, d.id, hash)->0;
    lemma_current_at(sets, d.id, hash);
    let c = choose|c: int|
        {
            &&& 0 <= c < sets.len()
            &&& #[trigger] sets[c] == e
            &&& is_current(e.1, d.id, hash)
            &&& forall|i: int| 0 <= i < c ==> !is_current((#[trigger] sets[i]).1, d.id, hash)
        };
    let rolling = d.spec.strategy is RollingUpdate;
    let first = fixed_size(e, d.spec.replicas);
    let shrunk = if rolling {
        sets.filter_map(shrink_rule(d.id, hash, None))
    } else {
        Seq::empty()
    };
    assert(updates =~= first + shrunk);
    assert forall|i: int| 0 <= i < sets.len() implies {
        &&& is_current((#[trigger] t[i]).1, d.id, hash) == is_current(sets[i].1, d.id, hash)
        &&& i == c ==> t[i].1.spec.replicas == d.spec.replicas
        &&& rolling ==> shrink_rule(d.id, hash, None)(t[i]) is None
    } by {
        lemma_update_of_both(first, shrunk, sets[i].0);
        if rolling {
            lemma_shrunk_at(sets, d.id, hash, None, i);
        }
        assert(update_of(Seq::<(Seq<char>, ReplicaSetV)>::empty(), sets[i].0) is None);
        if first.len() > 0 {
            assert(first.drop_last() =~= Seq::<(Seq<char>, ReplicaSetV)>::empty());
            assert(first.last().0 == sets[c].0);
        }
    }
    lemma_current_at(t, d.id, hash);
    assert(is_current(t[c].1, d.id, hash));
    match current_set(t, d.id, hash) {
        Some(f) => {
            let g = choose|g: int|
                {
                    &&& 0 <= g < t.len()
                    &&& #[trigger] t[g] == f
                    &&& is_current(f.1, d.id, hash)
                    &&& forall|i: int| 0 <= i < g ==> !is_current((#[trigger] t[i]).1, d.id, hash)
                };
            assert(g == c) by {
                if g < c {
                    assert(!is_current(sets[g].1, d.id, hash));
                }
                if c < g {
                    assert(!is_current(t[c].1, d.id, hash));
                }
            }
        },
        None => {},
    }
    if rolling {
        lemma_nothing_to_shrink(t, d.id, hash, None);
    }
    assert(rollout_updates(d, hash, t) =~= Seq::<(Seq<char>, ReplicaSetV)>::empty());
}

/// A rollout never touches a replica set of another owner, and never makes an
/// outdated one larger.
pub proof fn law_rollout_only_shrinks_outdated(
    owner: Seq<char>,
    hash: Seq<char>,
    step: Option<u32>,
    e: (Seq<char>, ReplicaSetV),
)
    ensures
        match shrink_rule(owner, hash, step)(e) {
            Some(n) => {
                &&& e.1.owner_ref == Some(owner)
                &&& e.1.template_hash != hash
                &&& n.0 == e.0
                &&& n.1.spec.replicas < e.1.spec.replicas || step == Some(0u32)
                &&& n.1 == resized(e.1, n.1.spec.replicas)
            },
            None => true,
        },
{
}

/// After the updates of a pass over a deployment that has a current replica set,
/// that replica set has exactly the deployment's replicas, whether it had fewer or
/// more before. A rolling update leaves the outdated replica sets without
/// replicas; every other replica set stays as it is.
pub proof fn law_current_set_is_sized(
    deploy: Deployment,
    hash: &str,
    sets: Vec<StoredReplicaSet>,
    c: int,
    r: RolloutPlan,
)
    requires
        call_ensures(DeploymentController::plan_rollout, (&deploy, hash, &sets), r),
        keys_distinct(sets.deep_view()),
        0 <= c < sets.len(),
        sets.deep_view()[c].1.owner_ref == Some(deploy.id@),
        sets.deep_view()[c].1.template_hash == hash@,
        forall|i: int|
            0 <= i < c ==> (#[trigger] sets.deep_view()[i]).1.owner_ref != Some(deploy.id@)
                || sets.deep_view()[i].1.template_hash != hash@,
    ensures
        r.create is None,
        ({
            let before = sets.deep_view();
            let after = after_updates(before, r.updates.deep_view());
            &&& after.len() == before.len()
            &&& after[c].1.spec.replicas == deploy.spec.replicas
            &&& after[c].1 == (ReplicaSetV {
                spec: ReplicaSetSpecV { replicas: deploy.spec.replicas, ..before[c].1.spec },
                ..before[c].1
            })
            &&& forall|i: int|
                0 <= i < before.len() && i != c ==> {
                    let e = #[trigger] before[i];
                    if e.1.owner_ref == Some(deploy.id@) && e.1.template_hash != hash@
                        && deploy.spec.strategy is RollingUpdate {
                        after[i].1 == (ReplicaSetV {
                            spec: ReplicaSetSpecV { replicas: 0, ..e.1.spec },
                            ..e.1
                        })
                    } else {
                        after[i] == e
                    }
                }
        }),
{
    let d = deploy.deep_view();
    let before = sets.deep_view();
    let updates = r.updates.deep_view();
    let after = after_updates(before, updates);
    lemma_current_at(before, d.id, hash@);
    assert(is_current(before[c].1, d.id, hash@));
    assert(current_set(before, d.id, hash@) is Some);
    let e = current_set(before, d.id, hash@)->0;
    let g = choose|g: int|
        {
            &&& 0 <= g < before.len()
            &&& #[trigger] before[g] == e
            &&& is_current(e.1, d.id, hash@)
            &&& forall|i: int| 0 <= i < g ==> !is_current((#[trigger] before[i]).1, d.id, hash@)
        };
    assert(g == c) by {
        if c < g {
            assert(!is_current(before[c].1, d.id, hash@));
        }
    }
    let rolling = d.spec.strategy is RollingUpdate;
    let first = fixed_size(e, d.spec.replicas);
    let shrunk = if rolling {
        before.filter_map(shrink_rule(d.id, hash@, None))
    } else {
        Seq::empty()
    };
    assert(updates =~= first + shrunk);
    assert forall|i: int| 0 <= i < before.len() implies {
        let x = #[trigger] before[i];
        if i == c {
            after[i].1 == (ReplicaSetV {
                spec: ReplicaSetSpecV { replicas: deploy.spec.replicas, ..x.1.spec },
                ..x.1
            })
        } else if x.1.owner_ref == Some(d.id) && x.1.template_hash != hash@ && rolling {
            after[i].1 == (ReplicaSetV {
                spec: ReplicaSetSpecV { replicas: 0, ..x.1.spec },
                ..x.1
            })
        } else {
            after[i] == x
        }
    } by {
        lemma_update_of_both(first, shrunk, before[i].0);
        if rolling {
            lemma_shrunk_at(before, d.id, hash@, None, i);
        }
        assert(update_of(Seq::<(Seq<char>, ReplicaSetV)>::empty(), before[i].0) is None);
        if first.len() > 0 {
            assert(first.drop_last() =~= Seq::<(Seq<char>, ReplicaSetV)>::empty());
            assert(first.last().0 == before[c].0);
        }
        if i != c {
            assert(before[i].0 != before[c].0);
        }
    }
    assert(after[c] == after[c] && before[c] == before[c]);
}

/// A pass over a deployment without a current replica set creates one: for a
/// rolling update before everything else, with at most the surge and at most the
/// wanted replicas, and it takes as many from each outdated replica set, at least
/// one, as far as they reach; to recreate, at full size, after every outdated
/// replica set has lost its replicas. The replica sets of other owners stay as
/// they are.
pub proof fn law_new_template_is_rolled_out(
    deploy: Deployment,
    hash: &str,
    sets: Vec<StoredReplicaSet>,
    r: RolloutPlan,
)
    requires
        call_ensures(DeploymentController::plan_rollout, (&deploy, hash, &sets), r),
        keys_distinct(sets.deep_view()),
        forall|i: int|
            0 <= i < sets.len() ==> (#[trigger] sets.deep_view()[i]).1.owner_ref != Some(deploy.id@)
                || sets.deep_view()[i].1.template_hash != hash@,
    ensures
        r.create is Some,
        r.create_first <==> deploy.spec.strategy is RollingUpdate,
        ({
            let before = sets.deep_view();
            let after = after_updates(before, r.updates.deep_view());
            let size = r.create->0;
            &&& after.len() == before.len()
            &&& deploy.spec.strategy is Recreate ==> size == deploy.spec.replicas
            &&& deploy.spec.strategy matches DeploymentStrategy::RollingUpdate { max_surge, .. }
                ==> size <= deploy.spec.replicas && size <= max_surge && (size
                == deploy.spec.replicas || size == max_surge)
            &&& forall|i: int|
                0 <= i < before.len() ==> {
                    let e = #[trigger] before[i];
                    let a = after[i];
                    &&& e.1.owner_ref != Some(deploy.id@) ==> a == e
                    &&& a.0 == e.0
                    &&& a.1 == (ReplicaSetV {
                        spec: ReplicaSetSpecV { replicas: a.1.spec.replicas, ..e.1.spec },
                        ..e.1
                    })
                    &&& e.1.owner_ref == Some(deploy.id@) ==> match deploy.spec.strategy {
                        DeploymentStrategy::Recreate => a.1.spec.replicas == 0,
                        DeploymentStrategy::RollingUpdate { max_surge, .. } => {
                            &&& max_surge >= 1 && e.1.spec.replicas >= max_surge
                                ==> a.1.spec.replicas == e.1.spec.replicas - max_surge
                            &&& max_surge >= 1 && e.1.spec.replicas < max_surge
                                ==> a.1.spec.replicas == 0
                            &&& max_surge == 0 && e.1.spec.replicas >= 1 ==> a.1.spec.replicas
                                == e.1.spec.replicas - 1
                            &&& e.1.spec.replicas == 0 ==> a.1.spec.replicas == 0
                        },
                    }
                }
        }),
{
    let d = deploy.deep_view();
    let before = sets.deep_view();
    let updates = r.updates.deep_view();
    lemma_current_at(before, d.id, hash@);
    assert(current_set(before, d.id, hash@) is None);
    let step: Option<u32> = match d.spec.strategy {
        DeploymentStrategy::RollingUpdate { max_surge, .. } => Some(
            if max_surge >= 1 {
                max_surge
            } else {
                1
            },
        ),
        DeploymentStrategy::Recreate => None,
    };
    assert(updates == before.filter_map(shrink_rule(d.id, hash@, step)));
    assert forall|i: int| 0 <= i < before.len() implies update_of(updates, (#[trigger] before[i]).0)
        == match shrink_rule(d.id, hash@, step)(before[i]) {
        Some(x) => Some(x.1),
        None => None,
    } by {
        lemma_shrunk_at(before, d.id, hash@, step, i);
    }
}

/// The replica set of a rollout belongs to the deployment, carries its template
/// under the template's hash, has the given size and has nothing ready yet.
pub proof fn law_new_set_carries_the_template(
    ns: &str,
    deploy: Deployment,
    hash: &str,
    replicas: u32,
    id: &str,
    now: i128,
    r: ReplicaSet,
)
    requires
        call_ensures(
            DeploymentController::replicaset_for,
            (ns, &deploy, hash, replicas, id, now),
            r,
        ),
        hash@.len() >= 8,
    ensures
        r.id@ == id@,
        r.name@ == deploy.name@ + "-"@ + hash@.take(8),
        r.namespace@ == ns@,
        r.spec.replicas == replicas,
        r.deep_view().spec.selector == deploy.deep_view().spec.selector,
        r.deep_view().spec.template == deploy.deep_view().spec.template,
        r.status.replicas == 0,
        r.status.ready_replicas == 0,
        r.status.available_replicas == 0,
        r.deep_view().owner_ref == Some(deploy.id@),
        r.template_hash@ == hash@,
        r.created_at == now,
{
}

/// The status of a deployment adds up: one replica set more adds its ready and
/// available replicas where the deployment owns it, and its ready ones to the
/// updated where it also has the current template; without replica sets all three
/// are zero.
pub proof fn law_status_adds_up(
    deploy: Deployment,
    hash: &str,
    sets: Vec<StoredReplicaSet>,
    more: Vec<StoredReplicaSet>,
    e: (Seq<char>, ReplicaSetV),
    a: Deployment,
    b: Deployment,
)
    requires
        call_ensures(DeploymentController::update_status, (deploy, hash, &sets), a),
        call_ensures(DeploymentController::update_status, (deploy, hash, &more), b),
        more.deep_view() == sets.deep_view().push(e),
        status_sum(more.deep_view(), deploy.id@, ready_of()) <= u32::MAX,
        status_sum(more.deep_view(), deploy.id@, available_of()) <= u32::MAX,
    ensures
        e.1.owner_ref == Some(deploy.id@) ==> {
            &&& b.status.ready_replicas == a.status.ready_replicas + e.1.status.ready_replicas
            &&& b.status.available_replicas == a.status.available_replicas
                + e.1.status.available_replicas
            &&& e.1.template_hash == hash@ ==> b.status.updated_replicas
                == a.status.updated_replicas + e.1.status.ready_replicas
            &&& e.1.template_hash != hash@ ==> b.status.updated_replicas
                == a.status.updated_replicas
        },
        e.1.owner_ref != Some(deploy.id@) ==> b.deep_view().status == a.deep_view().status,
        sets.len() == 0 ==> a.status.ready_replicas == 0 && a.status.available_replicas == 0
            && a.status.updated_replicas == 0,
        a.observed_generation == deploy.generation,
        a.generation == deploy.generation,
        a.deep_view().spec == deploy.deep_view().spec,
        a.id@ == deploy.id@,
        a.name@ == deploy.name@,
{
    let owner = deploy.id@;
    let all = more.deep_view();
    let n = sets.deep_view().len() as int;
    assert(all.drop_last() =~= sets.deep_view());
    assert(all.take(n) =~= sets.deep_view());
    lemma_sum_grows(all, owner, ready_of(), n);
    lemma_sum_grows(all, owner, available_of(), n);
    lemma_sum_grows(all, owner, updated_of(hash@), n);
    lemma_updated_below_ready(all, owner, hash@);
    lemma_updated_below_ready(sets.deep_view(), owner, hash@);
}

/// A replica set that is made for a deployment is the one made under its id, and has an
/// id of its own.
pub proof fn law_created_set_is_the_made_one(
    ns: &str,
    deploy: Deployment,
    hash: &str,
    replicas: u32,
    id: &str,
    now: i128,
    r: ReplicaSet,
    q: ReplicaSet,
)
    requires
        call_ensures(DeploymentController::create_replicaset, (ns, &deploy, hash, replicas, now), r),
        call_ensures(DeploymentController::replicaset_for, (ns, &deploy, hash, replicas, id, now), q),
        id@ == r.id@,
    ensures
        r.deep_view() == q.deep_view(),
        r.id@.len() == 36,
{
}

proof fn lemma_hash_step_is_injective(g: nat, h: nat, x: nat, y: nat)
    requires
        g < 0x1_0000_0000_0000_0000,
        h < 0x1_0000_0000_0000_0000,
        x < 256,
        y < 256,
        (g == h) != (x == y),
    ensures
        (g * 31 + x) % 0x1_0000_0000_0000_0000 != (h * 31 + y) % 0x1_0000_0000_0000_0000,
{
    let m: int = 0x1_0000_0000_0000_0000;
    let a = g * 31 + x;
    let b = h * 31 + y;
    if a as int % m == b as int % m {
        let k = a as int / m - b as int / m;
        assert(a - b == k * m);
        assert(-31 <= k <= 31);
        if g == h {
            assert(k == 0);
        } else {
            let d = g - h;
            assert(31 * d == k * m);
            assert(m == 31 * 595056260442243600 + 16);
            assert(31 * (d - k * 595056260442243600) == 16 * k) by (nonlinear_arith)
                requires
                    31 * d == k * m,
                    m == 31 * 595056260442243600 + 16,
            ;
        }
    }
}

proof fn lemma_hash_tells_apart(pre: Seq<u8>, x: u8, y: u8, post: Seq<u8>)
    requires
        x != y,
    ensures
        poly_hash(pre + seq![x] + post) != poly_hash(pre + seq![y] + post),
        poly_hash(pre + seq![x] + post) < 0x1_0000_0000_0000_0000,
        poly_hash(pre + seq![y] + post) < 0x1_0000_0000_0000_0000,
    decreases post.len(),
{
    let s = pre + seq![x] + post;
    let t = pre + seq![y] + post;
    if post.len() == 0 {
        assert(s.drop_last() =~= pre);
        assert(t.drop_last() =~= pre);
        lemma_hash_is_short(pre);
        lemma_hash_step_is_injective(poly_hash(pre), poly_hash(pre), x as nat, y as nat);
    } else {
        let p = post.drop_last();
        lemma_hash_tells_apart(pre, x, y, p);
        assert(s.drop_last() =~= pre + seq![x] + p);
        assert(t.drop_last() =~= pre + seq![y] + p);
        lemma_hash_step_is_injective(
            poly_hash(pre + seq![x] + p),
            poly_hash(pre + seq![y] + p),
            post.last() as nat,
            post.last() as nat,
        );
    }
}

proof fn lemma_hash_is_short(b: Seq<u8>)
    ensures
        poly_hash(b) < 0x1_0000_0000_0000_0000,
{
}

/// Two templates that differ in one byte have different hashes, of sixteen digits each,
/// and equal ones the same.
pub proof fn law_changed_template_is_noticed(
    json: &str,
    other: &str,
    pre: Seq<u8>,
    x: u8,
    y: u8,
    post: Seq<u8>,
    a: String,
    b: String,
)
    requires
        call_ensures(compute_template_hash, (json,), a),
        call_ensures(compute_template_hash, (other,), b),
    ensures
        json@ == other@ ==> a@ == b@,
        x != y && vstd::utf8::encode_utf8(json@) == pre + seq![x] + post && vstd::utf8::encode_utf8(
            other@,
        ) == pre + seq![y] + post ==> a@ != b@,
        a@.len() == 16,
{
    lemma_hash_is_short(vstd::utf8::encode_utf8(json@));
    lemma_hash_is_short(vstd::utf8::encode_utf8(other@));
    crate::numbers::lemma_hex_ascii(poly_hash(vstd::utf8::encode_utf8(json@)), 16);
    if x != y && vstd::utf8::encode_utf8(json@) == pre + seq![x] + post && vstd::utf8::encode_utf8(
        other@,
    ) == pre + seq![y] + post {
        lemma_hash_tells_apart(pre, x, y, post);
        crate::numbers::lemma_hex16_tells_apart(
            poly_hash(vstd::utf8::encode_utf8(json@)),
            poly_hash(vstd::utf8::encode_utf8(other@)),
        );
    }
}

/// The hash of two texts one after the other is that of the first, moved up by thirty-one
/// for each byte of the second, and that of the second; a single byte is its own hash.
pub proof fn law_hash_is_positional(a: Seq<u8>, b: Seq<u8>, x: u8)
    ensures
        poly_hash(a + b) == (poly_hash(a) * vstd::arithmetic::power::pow(31, b.len()) + poly_hash(b))
            % 0x1_0000_0000_0000_0000,
        poly_hash(seq![x]) == x,
    decreases b.len(),
{
    let m: int = 0x1_0000_0000_0000_0000;
    reveal(vstd::arithmetic::power::pow);
    assert(seq![x].drop_last() =~= Seq::<u8>::empty());
    assert(poly_hash(Seq::<u8>::empty()) == 0);
    if b.len() == 0 {
        assert(a + b =~= a);
        lemma_hash_is_short(a);
        assert(vstd::arithmetic::power::pow(31, 0) == 1);
    } else {
        let t = b.drop_last();
        law_hash_is_positional(a, t, x);
        assert((a + b).drop_last() =~= a + t);
        let h = poly_hash(a) as int;
        let p = vstd::arithmetic::power::pow(31, t.len());
        let g = poly_hash(t) as int;
        let y = b.last() as int;
        assert(vstd::arithmetic::power::pow(31, b.len()) == 31 * p);
        let u = h * p + g;
        assert(poly_hash(a + t) == u % m);
        assert(((u % m) * 31 + y) % m == (u * 31 + y) % m) by (nonlinear_arith)
            requires
                m == 0x1_0000_0000_0000_0000,
        {
            vstd::arithmetic::div_mod::lemma_mul_mod_noop_left(u, 31, m);
            vstd::arithmetic::div_mod::lemma_add_mod_noop((u % m) * 31, y, m);
            vstd::arithmetic::div_mod::lemma_add_mod_noop(u * 31, y, m);
        }
        assert(u * 31 + y == h * (31 * p) + (g * 31 + y)) by (nonlinear_arith)
            requires
                u == h * p + g,
        ;
        vstd::arithmetic::div_mod::lemma_add_mod_noop_right(h * (31 * p), g * 31 + y, m);
    }
}

} // verus!
