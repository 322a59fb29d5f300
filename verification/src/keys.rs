//! Keys of the state store and file system paths.
use vstd::prelude::*;
use vstd::string::*;
use crate::model::Pod;
#[allow(unused_imports)]
use crate::model::PodV;
use crate::text::{ends_with, starts_with, str_eq, strip_prefix};
#[allow(unused_imports)]
use crate::text::{has_prefix, has_suffix};

verus! {

/// The key prefix of a kind of resource: `/registry/{kind}/`.
pub open spec fn kind_prefix(kind: Seq<char>) -> Seq<char> {
    "/registry/"@ + kind + "/"@
}

/// The key of a resource without a namespace: `/registry/{kind}/{name}`.
pub open spec fn cluster_key(kind: Seq<char>, name: Seq<char>) -> Seq<char> {
    kind_prefix(kind) + name
}

/// The key prefix of a kind of resource in a namespace: `/registry/{kind}/{ns}/`.
pub open spec fn ns_prefix(kind: Seq<char>, ns: Seq<char>) -> Seq<char> {
    kind_prefix(kind) + ns + "/"@
}

/// The key of a namespaced resource: `/registry/{kind}/{ns}/{name}`.
pub open spec fn ns_key(kind: Seq<char>, ns: Seq<char>, name: Seq<char>) -> Seq<char> {
    ns_prefix(kind, ns) + name
}

/// Whether resources of a kind are stored under their names; the others are
/// stored under their ids.
pub open spec fn keyed_by_name(kind: Seq<char>) -> bool {
    kind == "pods"@ || kind == "deployments"@ || kind == "services"@ || kind == "secrets"@ || kind
        == "configmaps"@
}

/// The key of a resource of a kind with a name and an id in a namespace.
pub open spec fn resource_key(
    kind: Seq<char>,
    ns: Seq<char>,
    name: Seq<char>,
    id: Seq<char>,
) -> Seq<char> {
    ns_key(
        kind,
        ns,
        if keyed_by_name(kind) {
            name
        } else {
            id
        },
    )
}

/// The key of a pod: `/registry/pods/{ns}/{name}`.
pub open spec fn pod_key_of(pod: PodV) -> Seq<char> {
    ns_key("pods"@, pod.namespace, pod.name)
}

/// Builds the key prefix of a kind of resource.
pub fn prefix_of_kind(kind: &str) -> (r: String)
    ensures
        r@ == kind_prefix(kind@),
{
    let mut s: String = "/registry/".to_owned();
    s.append(kind);
    s.append("/");
    s
}

/// Builds the key of a resource without a namespace.
pub fn key_of(kind: &str, name: &str) -> (r: String)
    ensures
        r@ == cluster_key(kind@, name@),
{
    let mut s: String = prefix_of_kind(kind);
    s.append(name);
    s
}

/// Builds the key prefix of a kind of resource in a namespace.
pub fn prefix_in(kind: &str, ns: &str) -> (r: String)
    ensures
        r@ == ns_prefix(kind@, ns@),
{
    let mut s: String = prefix_of_kind(kind);
    s.append(ns);
    s.append("/");
    s
}

/// Builds the key of a namespaced resource.
pub fn key_in(kind: &str, ns: &str, name: &str) -> (r: String)
    ensures
        r@ == ns_key(kind@, ns@, name@),
{
    let mut s: String = prefix_in(kind, ns);
    s.append(name);
    s
}

/// Builds the key of a resource of a kind with a name and an id in a namespace.
pub fn key_of_resource(kind: &str, ns: &str, name: &str, id: &str) -> (r: String)
    ensures
        r@ == resource_key(kind@, ns@, name@, id@),
{
    if str_eq(kind, "pods") || str_eq(kind, "deployments") || str_eq(kind, "services") || str_eq(
        kind,
        "secrets",
    ) || str_eq(kind, "configmaps") {
        key_in(kind, ns, name)
    } else {
        key_in(kind, ns, id)
    }
}

/// Builds the key of a pod.
pub fn key_of_pod(pod: &Pod) -> (r: String)
    ensures
        r@ == pod_key_of(pod.deep_view()),
{
    key_in("pods", pod.namespace.as_str(), pod.name.as_str())
}

/// A key lies under the prefix of its namespace, and what follows there is its name.
pub proof fn law_key_under_prefix(kind: Seq<char>, ns: Seq<char>, name: Seq<char>)
    ensures
        has_prefix(ns_key(kind, ns, name), ns_prefix(kind, ns)),
        has_prefix(ns_key(kind, ns, name), kind_prefix(kind)),
        ns_key(kind, ns, name).skip(ns_prefix(kind, ns).len() as int) == name,
{
    let k = ns_key(kind, ns, name);
    assert(k.subrange(0, ns_prefix(kind, ns).len() as int) =~= ns_prefix(kind, ns));
    assert(k.subrange(0, kind_prefix(kind).len() as int) =~= kind_prefix(kind));
    assert(k.skip(ns_prefix(kind, ns).len() as int) =~= name);
}

/// In a namespace the keys of two resources of a kind are the same exactly if
/// their names are.
pub proof fn law_keys_are_apart(kind: Seq<char>, ns: Seq<char>, a: Seq<char>, b: Seq<char>)
    ensures
        ns_key(kind, ns, a) == ns_key(kind, ns, b) <==> a == b,
{
    law_key_under_prefix(kind, ns, a);
    law_key_under_prefix(kind, ns, b);
}

/// The namespace that a namespace key names, if it names one.
pub open spec fn namespace_name(key: Seq<char>) -> Option<Seq<char>> {
    let p = kind_prefix("namespaces"@);
    if has_prefix(key, p) && key.len() > p.len() {
        Some(key.skip(p.len() as int))
    } else {
        None
    }
}

/// Reads the namespace out of a key under `/registry/namespaces/`.
pub fn namespace_of_key(key: &str) -> (r: Option<String>)
    ensures
        r.deep_view() == namespace_name(key@),
{
    let p: String = prefix_of_kind("namespaces");
    match strip_prefix(key, p.as_str()) {
        Some(ns) => if ns.as_str().is_empty() {
            None
        } else {
            Some(ns)
        },
        None => None,
    }
}

// ---------------------------------------------------------------------------
// Paths
// ---------------------------------------------------------------------------

/// A path with a component added: the component alone where it is absolute.
pub open spec fn path_join(base: Seq<char>, part: Seq<char>) -> Seq<char> {
    if has_prefix(part, "/"@) {
        part
    } else if base.len() == 0 || has_suffix(base, "/"@) {
        base + part
    } else {
        base + "/"@ + part
    }
}

/// Adds a component to a path.
pub fn join_path(base: &str, part: &str) -> (r: String)
    ensures
        r@ == path_join(base@, part@),
{
    if starts_with(part, "/") {
        return part.to_owned();
    }
    let mut s: String = base.to_owned();
    if !base.is_empty() && !ends_with(base, "/") {
        s.append("/");
    }
    s.append(part);
    s
}

/// Keys are spelled `/registry/`, the kind, the namespace where there is one, and
/// the name, with slashes between them; prefixes end in a slash.
pub proof fn law_keys_are_spelled_out(
    kind: &str,
    ns: &str,
    name: &str,
    in_ns: String,
    in_cluster: String,
    listing: String,
)
    requires
        call_ensures(key_in, (kind, ns, name), in_ns),
        call_ensures(key_of, (kind, name), in_cluster),
        call_ensures(prefix_in, (kind, ns), listing),
    ensures
        in_ns@ == "/registry/"@ + kind@ + "/"@ + ns@ + "/"@ + name@,
        in_cluster@ == "/registry/"@ + kind@ + "/"@ + name@,
        listing@ == "/registry/"@ + kind@ + "/"@ + ns@ + "/"@,
        in_ns@ == listing@ + name@,
{
}

/// Pods, deployments, services, secrets and config maps are stored under their
/// names, everything else in a namespace under its id.
pub proof fn law_names_or_ids_are_keys(
    kind: &str,
    ns: &str,
    name: &str,
    id: &str,
    by: &str,
    r: String,
    key: String,
)
    requires
        call_ensures(key_of_resource, (kind, ns, name, id), r),
        call_ensures(key_in, (kind, ns, by), key),
        by@ == if kind@ == "pods"@ || kind@ == "deployments"@ || kind@ == "services"@ || kind@
            == "secrets"@ || kind@ == "configmaps"@ {
            name@
        } else {
            id@
        },
    ensures
        r@ == key@,
{
}

/// The name of a namespace is read back from its key, and no other key names one.
pub proof fn law_namespace_is_read_back(key: &str, r: Option<String>)
    requires
        call_ensures(namespace_of_key, (key,), r),
    ensures
        r matches Some(ns) ==> ns@.len() > 0 && key@ == "/registry/namespaces/"@ + ns@,
        r is None ==> forall|ns: Seq<char>|
            ns.len() > 0 ==> key@ != #[trigger] ("/registry/namespaces/"@ + ns),
{
    let p = kind_prefix("namespaces"@);
    assert(p =~= "/registry/namespaces/"@) by {
        reveal_strlit("/registry/");
        reveal_strlit("namespaces");
        reveal_strlit("/");
        reveal_strlit("/registry/namespaces/");
    }
    if r is Some {
        assert(key@ =~= key@.subrange(0, p.len() as int) + key@.skip(p.len() as int));
    } else {
        assert forall|ns: Seq<char>| ns.len() > 0 implies key@ != #[trigger] (
        "/registry/namespaces/"@ + ns) by {
            if key@ == "/registry/namespaces/"@ + ns {
                assert(key@.subrange(0, p.len() as int) =~= p);
                assert(has_prefix(key@, p));
            }
        }
    }
}

/// Joining a relative part to a directory puts exactly one slash between them;
/// an absolute part stands alone.
pub proof fn law_paths_are_joined(base: Seq<char>, part: Seq<char>)
    ensures
        part.len() > 0 && part[0] == '/' ==> path_join(base, part) == part,
        base.len() > 0 && base.last() != '/' && (part.len() == 0 || part[0] != '/') ==> path_join(
            base,
            part,
        ) == base + seq!['/'] + part,
        base.len() > 0 && base.last() == '/' && (part.len() == 0 || part[0] != '/') ==> path_join(
            base,
            part,
        ) == base + part,
{
    reveal_strlit("/");
    let slash = "/"@;
    assert(slash =~= seq!['/']);
    if part.len() > 0 {
        assert(part.subrange(0, 1)[0] == part[0]);
        if part[0] == '/' {
            assert(part.subrange(0, 1) =~= slash);
        }
    }
    if base.len() > 0 {
        let n = base.len() as int;
        assert(base.subrange(n - 1, n)[0] == base.last());
        if base.last() == '/' {
            assert(base.subrange(n - 1, n) =~= slash);
        }
    }
}

/// A pod is stored under its name in its namespace.
pub proof fn law_pod_is_stored_by_name(pod: Pod, r: String)
    requires
        call_ensures(key_of_pod, (&pod,), r),
    ensures
        r@ == "/registry/"@ + "pods"@ + "/"@ + pod.namespace@ + "/"@ + pod.name@,
{
}

} // verus!
