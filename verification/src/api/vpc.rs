//! Virtual networks and the links between them.
use vstd::prelude::*;
use vstd::string::*;
use crate::api::reply::{reply, Lookup, Reply};
#[allow(unused_imports)]
use crate::api::reply::{answer, ReplyV};
use crate::keys::key_of;
#[allow(unused_imports)]
use crate::keys::cluster_key;
use crate::model::{PeeringStatus, Vpc, VpcPeering, VpcStatus};
#[allow(unused_imports)]
use crate::model::{VpcPeeringV, VpcV};
use crate::net::{cidrs_overlap, parse_cidr};
#[allow(unused_imports)]
use crate::net::{cidr_value, in_range, ranges_meet};
use crate::text::{cat3, str_eq};

verus! {

/// The first VPC of a list whose range overlaps a given one.
pub open spec fn first_overlap(cidr: Seq<char>, existing: Seq<VpcV>) -> Option<VpcV>
    decreases existing.len(),
{
    if existing.len() == 0 {
        None
    } else {
        match first_overlap(cidr, existing.drop_last()) {
            Some(v) => Some(v),
            None => if ranges_meet(cidr, existing.last().ipv4_cidr) {
                Some(existing.last())
            } else {
                None
            },
        }
    }
}

/// The greatest id in a list of VPCs, or zero.
pub open spec fn greatest_id(existing: Seq<VpcV>) -> int
    decreases existing.len(),
{
    if existing.len() == 0 {
        0
    } else {
        let m = greatest_id(existing.drop_last());
        if existing.last().vpc_id > m {
            existing.last().vpc_id as int
        } else {
            m
        }
    }
}

/// What is said of a range that overlaps one in use.
pub open spec fn overlap_text(cidr: Seq<char>, other: VpcV) -> Seq<char> {
    "CIDR "@ + cidr + " overlaps with VPC '"@ + other.name + "' ("@ + other.ipv4_cidr + ")"@
}

/// What becomes of a request for a VPC: refused for a malformed range or one
/// that overlaps, else stored as active under the next id.
pub open spec fn vpc_created(vpc: VpcV, existing: Seq<VpcV>, now: i128) -> Result<
    (Seq<char>, VpcV),
    ReplyV,
> {
    if cidr_value(vpc.ipv4_cidr) is None {
        Err(answer(400, "Invalid CIDR format"@))
    } else {
        match first_overlap(vpc.ipv4_cidr, existing) {
            Some(v) => Err(answer(409, overlap_text(vpc.ipv4_cidr, v))),
            None => Ok(
                (
                    cluster_key("vpcs"@, vpc.name),
                    VpcV {
                        vpc_id: (greatest_id(existing) + 1) as u16,
                        status: VpcStatus::Active,
                        created_at: now,
                        deleted_at: None,
                        ..vpc
                    },
                ),
            ),
        }
    }
}

/// Decides on a request for a VPC.
pub fn create_vpc(vpc: Vpc, existing: &Vec<Vpc>, now: i128) -> (r: Result<(String, Vpc), Reply>)
    requires
        cidr_value(vpc.ipv4_cidr@) is Some && first_overlap(
            vpc.ipv4_cidr@,
            existing.deep_view(),
        ) is None ==> greatest_id(existing.deep_view()) < u16::MAX,
    ensures
        match r {
            Ok(x) => vpc_created(vpc.deep_view(), existing.deep_view(), now) == Ok::<
                (Seq<char>, VpcV),
                ReplyV,
            >(x.deep_view()),
            Err(e) => vpc_created(vpc.deep_view(), existing.deep_view(), now) == Err::<
                (Seq<char>, VpcV),
                ReplyV,
            >(e.deep_view()),
        },
{
    if parse_cidr(vpc.ipv4_cidr.as_str()).is_none() {
        return Err(reply(400, "Invalid CIDR format"));
    }
    let ghost all = existing.deep_view();
    let mut max_id: u16 = 0;
    let mut clash: Option<usize> = None;
    let mut i: usize = 0;
    assert(all.take(0) =~= Seq::<VpcV>::empty());
    while i < existing.len()
        invariant
            i <= existing@.len(),
            all == existing.deep_view(),
            max_id == greatest_id(all.take(i as int)),
            match clash {
                Some(k) => k < i && first_overlap(vpc.ipv4_cidr@, all.take(i as int)) == Some(
                    all[k as int],
                ),
                None => first_overlap(vpc.ipv4_cidr@, all.take(i as int)) is None,
            },
        decreases existing@.len() - i,
    {
        assert(all.take(i + 1).drop_last() =~= all.take(i as int));
        assert(all.take(i + 1).last() == all[i as int]);
        if existing[i].vpc_id > max_id {
            max_id = existing[i].vpc_id;
        }
        if clash.is_none() && cidrs_overlap(
            vpc.ipv4_cidr.as_str(),
            existing[i].ipv4_cidr.as_str(),
        ) {
            clash = Some(i);
        }
        i = i + 1;
    }
    assert(all.take(i as int) =~= all);
    match clash {
        Some(k) => {
            let other: &Vpc = &existing[k];
            let mut text: String = cat3("CIDR ", vpc.ipv4_cidr.as_str(), " overlaps with VPC '");
            text.append(other.name.as_str());
            text.append("' (");
            text.append(other.ipv4_cidr.as_str());
            text.append(")");
            assert(other.deep_view() == all[k as int]);
            assert(text@ =~= overlap_text(vpc.ipv4_cidr@, all[k as int]));
            Err(Reply { status: 409, body: text })
        },
        None => {
            let key: String = key_of("vpcs", vpc.name.as_str());
            let mut v: Vpc = vpc;
            v.vpc_id = max_id + 1;
            v.status = VpcStatus::Active;
            v.created_at = now;
            v.deleted_at = None;
            Ok((key, v))
        },
    }
}

/// The answer where a VPC cannot be shown: the store has failed, it is not there,
/// or what is there cannot be read.
pub fn get_vpc(found: Lookup, readable: bool) -> (r: Option<Reply>)
    ensures
        r.deep_view() == match found {
            Lookup::Failed => Some(answer(500, "Store error"@)),
            Lookup::Missing => Some(answer(404, "VPC not found"@)),
            Lookup::Found => if readable {
                None
            } else {
                Some(answer(500, "Deserialization failed"@))
            },
        },
{
    match found {
        Lookup::Failed => Some(reply(500, "Store error")),
        Lookup::Missing => Some(reply(404, "VPC not found")),
        Lookup::Found => if readable {
            None
        } else {
            Some(reply(500, "Deserialization failed"))
        },
    }
}

/// What a change of the store is about.
#[derive(Debug, Clone, Copy, PartialEq, Eq, Structural)]
pub enum VpcChange {
    /// A new VPC.
    Create,
    /// A VPC that is being deleted.
    Update,
    /// A new peering.
    CreatePeering,
    /// A peering that is deleted.
    DeletePeering,
}

/// What is said of a change that the store did not take.
pub open spec fn change_failure(change: VpcChange) -> Seq<char> {
    match change {
        VpcChange::Create => "Failed to create VPC"@,
        VpcChange::Update => "Failed to update VPC"@,
        VpcChange::CreatePeering => "Failed to create VPC peering"@,
        VpcChange::DeletePeering => "Failed to delete VPC peering"@,
    }
}

/// The answer to a change that the store did not take.
pub fn change_failed(change: VpcChange) -> (r: Reply)
    ensures
        r.deep_view() == answer(500, change_failure(change)),
{
    let text: &'static str = match change {
        VpcChange::Create => "Failed to create VPC",
        VpcChange::Update => "Failed to update VPC",
        VpcChange::CreatePeering => "Failed to create VPC peering",
        VpcChange::DeletePeering => "Failed to delete VPC peering",
    };
    reply(500, text)
}

/// The answer to a request to delete a peering.
pub fn delete_vpc_peering(deleted: bool) -> (r: Reply)
    ensures
        r.deep_view() == if deleted {
            answer(204, Seq::empty())
        } else {
            answer(500, "Failed to delete VPC peering"@)
        },
{
    if deleted {
        Reply { status: 204, body: String::new() }
    } else {
        change_failed(VpcChange::DeletePeering)
    }
}

/// What becomes of a request to delete a VPC, where it was found or not: the
/// default one stays, others drain once. A new value is to be stored.
pub open spec fn vpc_deleted(name: Seq<char>, found: Option<VpcV>) -> Result<
    (VpcV, bool),
    ReplyV,
> {
    if name == "default"@ {
        Err(answer(400, "Cannot delete the default VPC"@))
    } else {
        match found {
            None => Err(answer(404, "VPC not found"@)),
            Some(v) => if v.status == VpcStatus::Terminating || v.status == VpcStatus::Deleted {
                Ok((v, false))
            } else {
                Ok((VpcV { status: VpcStatus::Terminating, ..v }, true))
            },
        }
    }
}

/// Decides on a request to delete a VPC. The second part of the result says
/// whether the VPC is to be stored again.
pub fn delete_vpc(name: &str, found: Option<Vpc>) -> (r: Result<(Vpc, bool), Reply>)
    ensures
        match r {
            Ok(x) => vpc_deleted(name@, found.deep_view()) == Ok::<(VpcV, bool), ReplyV>(
                (x.0.deep_view(), x.1),
            ),
            Err(e) => vpc_deleted(name@, found.deep_view()) == Err::<(VpcV, bool), ReplyV>(
                e.deep_view(),
            ),
        },
{
    if str_eq(name, "default") {
        return Err(reply(400, "Cannot delete the default VPC"));
    }
    match found {
        None => Err(reply(404, "VPC not found")),
        Some(v) => {
            if v.status == VpcStatus::Terminating || v.status == VpcStatus::Deleted {
                Ok((v, false))
            } else {
                let mut out: Vpc = v;
                out.status = VpcStatus::Terminating;
                Ok((out, true))
            }
        },
    }
}

/// What becomes of a request for a peering, given whether its two VPCs exist.
pub open spec fn peering_created(p: VpcPeeringV, a: Lookup, b: Lookup, now: i128) -> Result<
    (Seq<char>, VpcPeeringV),
    ReplyV,
> {
    if a == Lookup::Found && b == Lookup::Found {
        Ok(
            (
                cluster_key("vpc-peerings"@, p.name),
                VpcPeeringV { status: PeeringStatus::Active, created_at: now, ..p },
            ),
        )
    } else if a == Lookup::Missing {
        Err(answer(400, "VPC '"@ + p.vpc_a + "' not found"@))
    } else if b == Lookup::Missing {
        Err(answer(400, "VPC '"@ + p.vpc_b + "' not found"@))
    } else {
        Err(answer(500, "Store error"@))
    }
}

/// Decides on a request for a peering.
pub fn create_vpc_peering(p: VpcPeering, a: Lookup, b: Lookup, now: i128) -> (r: Result<
    (String, VpcPeering),
    Reply,
>)
    ensures
        match r {
            Ok(x) => peering_created(p.deep_view(), a, b, now) == Ok::<
                (Seq<char>, VpcPeeringV),
                ReplyV,
            >(x.deep_view()),
            Err(e) => peering_created(p.deep_view(), a, b, now) == Err::<
                (Seq<char>, VpcPeeringV),
                ReplyV,
            >(e.deep_view()),
        },
{
    match (a, b) {
        (Lookup::Found, Lookup::Found) => {
            let key: String = key_of("vpc-peerings", p.name.as_str());
            let mut out: VpcPeering = p;
            out.status = PeeringStatus::Active;
            out.created_at = now;
            Ok((key, out))
        },
        (Lookup::Missing, _) => Err(
            Reply { status: 400, body: cat3("VPC '", p.vpc_a.as_str(), "' not found") },
        ),
        (_, Lookup::Missing) => Err(
            Reply { status: 400, body: cat3("VPC '", p.vpc_b.as_str(), "' not found") },
        ),
        _ => Err(reply(500, "Store error")),
    }
}

/// The default VPC, which every cluster has.
pub open spec fn default_vpc_value(now: i128) -> VpcV {
    VpcV {
        name: "default"@,
        vpc_id: 1,
        ipv4_cidr: "10.42.0.0/16"@,
        status: VpcStatus::Active,
        created_at: now,
        deleted_at: None,
    }
}

/// Ensures that the default VPC exists.
pub struct VpcController {
    /// Seconds between two passes.
    pub check_interval_secs: u64,
}

impl VpcController {
    /// A controller with the standard interval.
    pub fn new() -> (r: Self)
        ensures
            r.check_interval_secs == 15,
    {
        VpcController { check_interval_secs: 15 }
    }

    /// The default VPC to store, with its key, where it is missing.
    pub fn ensure_default_vpc(present: bool, now: i128) -> (r: Option<(String, Vpc)>)
        ensures
            r.deep_view() == if present {
                None
            } else {
                Some((cluster_key("vpcs"@, "default"@), default_vpc_value(now)))
            },
    {
        if present {
            None
        } else {
            Some(
                (
                    key_of("vpcs", "default"),
                    Vpc {
                        name: "default".to_owned(),
                        vpc_id: 1,
                        ipv4_cidr: "10.42.0.0/16".to_owned(),
                        status: VpcStatus::Active,
                        created_at: now,
                        deleted_at: None,
                    },
                ),
            )
        }
    }
}

// ---------------------------------------------------------------------------
// Laws
// ---------------------------------------------------------------------------

proof fn lemma_greatest_id(existing: Seq<VpcV>, i: int)
    requires
        0 <= i < existing.len(),
    ensures
        existing[i].vpc_id <= greatest_id(existing),
    decreases existing.len(),
{
    if i < existing.len() - 1 {
        lemma_greatest_id(existing.drop_last(), i);
    }
}

proof fn lemma_no_overlap(cidr: Seq<char>, existing: Seq<VpcV>, i: int)
    requires
        0 <= i < existing.len(),
        first_overlap(cidr, existing) is None,
    ensures
        !ranges_meet(cidr, existing[i].ipv4_cidr),
    decreases existing.len(),
{
    if i < existing.len() - 1 {
        lemma_no_overlap(cidr, existing.drop_last(), i);
    }
}

/// A new VPC gets an id that no other has, deleted ones and their cooldown
/// notwithstanding, and shares no address with any of them.
pub proof fn law_new_vpc_is_apart(vpc: VpcV, existing: Seq<VpcV>, now: i128, i: int, addr: int)
    requires
        greatest_id(existing) < u16::MAX,
        vpc_created(vpc, existing, now) is Ok,
        0 <= i < existing.len(),
    ensures
        vpc_created(vpc, existing, now)->Ok_0.1.vpc_id > existing[i].vpc_id,
        cidr_value(existing[i].ipv4_cidr) is Some ==> !(in_range(
            addr,
            cidr_value(vpc.ipv4_cidr)->0,
        ) && in_range(addr, cidr_value(existing[i].ipv4_cidr)->0)),
{
    lemma_greatest_id(existing, i);
    lemma_no_overlap(vpc.ipv4_cidr, existing, i);
}

/// The same range cannot be taken twice.
pub proof fn law_range_taken_once(vpc: VpcV, existing: Seq<VpcV>, now: i128, i: int)
    requires
        0 <= i < existing.len(),
        existing[i].ipv4_cidr == vpc.ipv4_cidr,
    ensures
        vpc_created(vpc, existing, now) is Err,
{
    if vpc_created(vpc, existing, now) is Ok {
        lemma_no_overlap(vpc.ipv4_cidr, existing, i);
        crate::net::law_overlap_is_reflexive(vpc.ipv4_cidr);
    }
}

/// Deleting a VPC twice has the effect of deleting it once.
pub proof fn law_deletion_is_idempotent(name: Seq<char>, found: VpcV)
    requires
        name != "default"@,
    ensures
        vpc_deleted(name, Some(found)) is Ok,
        vpc_deleted(name, Some(vpc_deleted(name, Some(found))->Ok_0.0)) == Ok::<
            (VpcV, bool),
            ReplyV,
        >((vpc_deleted(name, Some(found))->Ok_0.0, false)),
        vpc_deleted(name, Some(found))->Ok_0.0.status != VpcStatus::Active,
{
}

proof fn lemma_first_overlap(cidr: Seq<char>, existing: Seq<VpcV>)
    ensures
        match first_overlap(cidr, existing) {
            Some(v) => existing.contains(v) && ranges_meet(cidr, v.ipv4_cidr),
            None => forall|i: int|
                0 <= i < existing.len() ==> !ranges_meet(
                    cidr,
                    (#[trigger] existing[i]).ipv4_cidr,
                ),
        },
    decreases existing.len(),
{
    if existing.len() > 0 {
        let init = existing.drop_last();
        lemma_first_overlap(cidr, init);
        match first_overlap(cidr, init) {
            Some(v) => {
                let i = choose|i: int| 0 <= i < init.len() && init[i] == v;
                assert(existing[i] == v);
            },
            None => {
                assert(existing[existing.len() - 1] == existing.last());
                assert forall|i: int| 0 <= i < init.len() implies !ranges_meet(
                    cidr,
                    (#[trigger] existing[i]).ipv4_cidr,
                ) by {
                    assert(init[i] == existing[i]);
                }
            },
        }
    }
}

proof fn lemma_greatest_id_is_held(existing: Seq<VpcV>)
    ensures
        greatest_id(existing) >= 0,
        greatest_id(existing) > 0 ==> exists|i: int|
            0 <= i < existing.len() && (#[trigger] existing[i]).vpc_id == greatest_id(existing),
    decreases existing.len(),
{
    if existing.len() > 0 {
        let init = existing.drop_last();
        lemma_greatest_id_is_held(init);
        if existing.last().vpc_id > greatest_id(init) {
            assert(existing[existing.len() - 1].vpc_id == greatest_id(existing));
        } else if greatest_id(init) > 0 {
            let i = choose|i: int|
                0 <= i < init.len() && (#[trigger] init[i]).vpc_id == greatest_id(init);
            assert(existing[i].vpc_id == greatest_id(existing));
        }
    }
}

/// A VPC is granted exactly where its range can be read and overlaps none that
/// exists. It is then active, keeps its name and range, is stored under its name,
/// and has the id that follows the greatest one in use.
pub proof fn law_vpc_is_granted(
    vpc: Vpc,
    existing: Vec<Vpc>,
    now: i128,
    r: Result<(String, Vpc), Reply>,
)
    requires
        call_ensures(create_vpc, (vpc, &existing, now), r),
        forall|i: int| 0 <= i < existing.len() ==> (#[trigger] existing[i]).vpc_id < u16::MAX,
    ensures
        r is Ok <==> cidr_value(vpc.ipv4_cidr@) is Some && forall|i: int|
            0 <= i < existing.len() ==> !ranges_meet(
                vpc.ipv4_cidr@,
                (#[trigger] existing[i]).ipv4_cidr@,
            ),
        r matches Ok(x) ==> {
            &&& x.0@ == "/registry/"@ + "vpcs"@ + "/"@ + vpc.name@
            &&& x.1.name@ == vpc.name@
            &&& x.1.ipv4_cidr@ == vpc.ipv4_cidr@
            &&& x.1.status == VpcStatus::Active
            &&& x.1.created_at == now
            &&& x.1.deleted_at is None
            &&& x.1.vpc_id >= 1
            &&& forall|i: int|
                0 <= i < existing.len() ==> (#[trigger] existing[i]).vpc_id < x.1.vpc_id
            &&& x.1.vpc_id > 1 ==> exists|i: int|
                0 <= i < existing.len() && (#[trigger] existing[i]).vpc_id + 1 == x.1.vpc_id
        },
        r matches Err(e) ==> {
            &&& cidr_value(vpc.ipv4_cidr@) is None ==> e.status == 400
            &&& cidr_value(vpc.ipv4_cidr@) is Some ==> e.status == 409
        },
{
    let all = existing.deep_view();
    let v = vpc.deep_view();
    lemma_first_overlap(v.ipv4_cidr, all);
    lemma_greatest_id_is_held(all);
    assert forall|i: int| 0 <= i < existing.len() implies (#[trigger] existing[i]).deep_view()
        == all[i] && existing[i].vpc_id <= greatest_id(all) by {
        lemma_greatest_id(all, i);
    }
    if greatest_id(all) > 0 {
        let i = choose|i: int|
            0 <= i < all.len() && (#[trigger] all[i]).vpc_id == greatest_id(all);
        assert(existing[i].vpc_id == greatest_id(all));
    }
    match first_overlap(v.ipv4_cidr, all) {
        Some(o) => {
            let i = choose|i: int| 0 <= i < all.len() && all[i] == o;
            assert(ranges_meet(vpc.ipv4_cidr@, existing[i].ipv4_cidr@));
        },
        None => {
            assert forall|i: int| 0 <= i < existing.len() implies !ranges_meet(
                vpc.ipv4_cidr@,
                (#[trigger] existing[i]).ipv4_cidr@,
            ) by {
                assert(all[i] == existing[i].deep_view());
            }
        },
    }
}

/// The default VPC is never deleted, and a VPC that is not there cannot be; an
/// active one drains from then on, and one that drains or is gone stays as it is.
pub proof fn law_deletion_drains(name: &str, found: Option<Vpc>, r: Result<(Vpc, bool), Reply>)
    requires
        call_ensures(delete_vpc, (name, found), r),
    ensures
        name@ == "default"@ ==> r is Err && r->Err_0.status == 400,
        name@ != "default"@ && found is None ==> r is Err && r->Err_0.status == 404,
        name@ != "default"@ && found is Some ==> r is Ok && ({
            let before = found->0.deep_view();
            let after = r->Ok_0.0.deep_view();
            let stored = r->Ok_0.1;
            &&& before.status == VpcStatus::Active ==> after.status == VpcStatus::Terminating
                && stored
            &&& before.status == VpcStatus::Terminating || before.status == VpcStatus::Deleted
                ==> after == before && !stored
            &&& after.name == before.name
            &&& after.vpc_id == before.vpc_id
            &&& after.ipv4_cidr == before.ipv4_cidr
        }),
{
}

/// A peering is granted exactly where both of its VPCs are there; a missing one is
/// the caller's fault, and a store that cannot tell is not.
pub proof fn law_peering_needs_both(
    p: VpcPeering,
    a: Lookup,
    b: Lookup,
    now: i128,
    r: Result<(String, VpcPeering), Reply>,
)
    requires
        call_ensures(create_vpc_peering, (p, a, b, now), r),
    ensures
        r is Ok <==> a == Lookup::Found && b == Lookup::Found,
        r matches Ok(x) ==> {
            &&& x.0@ == "/registry/"@ + "vpc-peerings"@ + "/"@ + p.name@
            &&& x.1.name@ == p.name@
            &&& x.1.vpc_a@ == p.vpc_a@
            &&& x.1.vpc_b@ == p.vpc_b@
            &&& x.1.status == PeeringStatus::Active
            &&& x.1.created_at == now
        },
        r matches Err(e) ==> {
            &&& a == Lookup::Missing || b == Lookup::Missing ==> e.status == 400
            &&& a != Lookup::Missing && b != Lookup::Missing ==> e.status == 500
            &&& a == Lookup::Missing ==> e.body@ == "VPC '"@ + p.vpc_a@ + "' not found"@
        },
{
}

/// A cluster without the default VPC is given it, with the first id; one that has it
/// keeps it.
pub proof fn law_default_vpc_is_ensured(present: bool, now: i128, r: Option<(String, Vpc)>)
    requires
        call_ensures(VpcController::ensure_default_vpc, (present, now), r),
    ensures
        r is Some <==> !present,
        r matches Some(x) ==> {
            &&& x.0@ == "/registry/"@ + "vpcs"@ + "/"@ + "default"@
            &&& x.1.name@ == "default"@
            &&& x.1.vpc_id == 1
            &&& x.1.ipv4_cidr@ == "10.42.0.0/16"@
            &&& x.1.status == VpcStatus::Active
            &&& x.1.created_at == now
            &&& x.1.deleted_at is None
        },
{
}

/// A VPC is shown exactly where it was found and can be read; where it is missing
/// the answer is 404, and where the store fails or holds something else it is 500.
pub proof fn law_vpc_is_shown(found: Lookup, readable: bool, r: Option<Reply>)
    requires
        call_ensures(get_vpc, (found, readable), r),
    ensures
        r is None <==> found == Lookup::Found && readable,
        found == Lookup::Missing ==> r is Some && r->0.status == 404,
        r is Some && found != Lookup::Missing ==> r->0.status == 500,
{
}

} // verus!
