//! Who makes a request, and whether they may.
use vstd::prelude::*;
use vstd::string::*;
use crate::split::split_on;
#[allow(unused_imports)]
use crate::split::{law_split_undoes_join, split_char};
use crate::text::{str_eq, strip_prefix};
#[allow(unused_imports)]
use crate::text::has_prefix;

verus! {

/// Information about the authenticated entity.
#[derive(Debug)]
pub struct AuthUser {
    /// Name of the entity.
    pub name: String,
    /// The token that it has shown.
    pub token: String,
}

/// The contents of an [`AuthUser`].
#[verifier::ext_equal]
pub struct AuthUserV {
    pub name: Seq<char>,
    pub token: Seq<char>,
}

impl DeepView for AuthUser {
    type V = AuthUserV;

    open spec fn deep_view(&self) -> AuthUserV {
        AuthUserV { name: self.name@, token: self.token@ }
    }
}

/// The `Authorization` header of a request.
#[derive(Debug)]
pub enum AuthHeader {
    /// There is none.
    Missing,
    /// It is not text.
    Opaque,
    /// Its text.
    Text(String),
}

/// The token in a header, if it holds one: what follows `Bearer `.
pub open spec fn bearer_token(header: AuthHeader) -> Option<Seq<char>> {
    match header {
        AuthHeader::Text(t) => if has_prefix(t@, "Bearer "@) {
            Some(t@.skip("Bearer "@.len() as int))
        } else {
            None
        },
        _ => None,
    }
}

/// Authenticates a request by a bearer token: whoever shows the join token is the
/// administrator, everyone else is turned away with 401.
pub fn authenticate(header: &AuthHeader, join_token: &str) -> (r: Result<AuthUser, u16>)
    ensures
        match r {
            Ok(u) => bearer_token(*header) == Some(join_token@) && u.deep_view() == (AuthUserV {
                name: "admin"@,
                token: join_token@,
            }),
            Err(s) => s == 401 && bearer_token(*header) != Some(join_token@),
        },
{
    match header {
        AuthHeader::Text(t) => match strip_prefix(t.as_str(), "Bearer ") {
            Some(token) => if str_eq(token.as_str(), join_token) {
                Ok(AuthUser { name: "admin".to_owned(), token })
            } else {
                Err(401)
            },
            None => Err(401),
        },
        _ => Err(401),
    }
}

/// The action that an HTTP method stands for.
pub open spec fn action_of(method: Seq<char>) -> Seq<char> {
    if method == "GET"@ {
        "get"@
    } else if method == "POST"@ {
        "create"@
    } else if method == "PUT"@ || method == "PATCH"@ {
        "update"@
    } else if method == "DELETE"@ {
        "delete"@
    } else {
        ""@
    }
}

/// Extracts the action (verb) from the HTTP method.
pub fn action_from_method(method: &str) -> (r: &'static str)
    ensures
        r@ == action_of(method@),
{
    if str_eq(method, "GET") {
        "get"
    } else if str_eq(method, "POST") {
        "create"
    } else if str_eq(method, "PUT") || str_eq(method, "PATCH") {
        "update"
    } else if str_eq(method, "DELETE") {
        "delete"
    } else {
        ""
    }
}

/// The kind of resource that a path is about.
pub open spec fn resource_of(path: Seq<char>) -> Seq<char> {
    let p = split_char(path, '/');
    if p.len() >= 4 && p[1] == "api"@ && p[2] == "v1"@ {
        if p.len() >= 6 {
            p[5]
        } else {
            p[3]
        }
    } else {
        "*"@
    }
}

/// Maps an API path to a kind of resource.
pub fn resource_from_path(path: &str) -> (r: String)
    ensures
        r@ == resource_of(path@),
{
    let parts: Vec<String> = split_on(path, '/');
    let ghost p = parts.deep_view();
    assert(p.len() == parts@.len());
    assert(forall|i: int| 0 <= i < p.len() ==> p[i] == (#[trigger] parts@[i])@);
    if parts.len() >= 4 && str_eq(parts[1].as_str(), "api") && str_eq(parts[2].as_str(), "v1") {
        if parts.len() >= 6 {
            parts[5].clone()
        } else {
            parts[3].clone()
        }
    } else {
        "*".to_owned()
    }
}

/// Decides whether a user may make a request: the administrator may make any,
/// everyone else none. Without a user the answer is 401, for anyone else 403.
pub fn authorize(user: Option<&AuthUser>) -> (r: Result<(), u16>)
    ensures
        match r {
            Ok(_) => user is Some && user->0.name@ == "admin"@,
            Err(s) => match user {
                Some(u) => u.name@ != "admin"@ && s == 403,
                None => s == 401,
            },
        },
{
    match user {
        Some(u) => if str_eq(u.name.as_str(), "admin") {
            Ok(())
        } else {
            Err(403)
        },
        None => Err(401),
    }
}

/// A header shows a token exactly if it is `Bearer ` and that token.
pub proof fn law_bearer_token(header: AuthHeader, token: Seq<char>)
    ensures
        (bearer_token(header) == Some(token)) <==> (header is Text && header->Text_0@ == "Bearer "@
            + token),
{
    let p = "Bearer "@;
    if header is Text {
        let t = header->Text_0@;
        if t == p + token {
            assert(t.subrange(0, p.len() as int) =~= p);
            assert(t.skip(p.len() as int) =~= token);
        }
        if has_prefix(t, p) {
            assert(t =~= t.subrange(0, p.len() as int) + t.skip(p.len() as int));
        }
    }
}

/// Whoever shows the join token as a bearer token is let in as the administrator,
/// who may make any request; everyone else is turned away with 401.
pub proof fn law_only_the_join_token_lets_in(
    header: AuthHeader,
    join_token: &str,
    r: Result<AuthUser, u16>,
)
    requires
        call_ensures(authenticate, (&header, join_token), r),
    ensures
        r is Ok <==> header is Text && header->Text_0@ == "Bearer "@ + join_token@,
        r matches Ok(u) ==> u.name@ == "admin"@ && u.token@ == join_token@,
        r matches Err(s) ==> s == 401,
{
    law_bearer_token(header, join_token@);
}

/// The administrator may make any request, another user none, and without a user
/// the request is turned away.
pub proof fn law_only_the_administrator_may(user: Option<&AuthUser>, r: Result<(), u16>)
    requires
        call_ensures(authorize, (user,), r),
    ensures
        r is Ok <==> user is Some && user->0.name@ == "admin"@,
        user is None ==> r is Err && r->Err_0 == 401,
        user is Some && user->0.name@ != "admin"@ ==> r is Err && r->Err_0 == 403,
{
}

/// Whoever is authenticated is authorized.
pub proof fn law_who_is_let_in_may(
    header: AuthHeader,
    join_token: &str,
    user: AuthUser,
    r: Result<(), u16>,
)
    requires
        call_ensures(authenticate, (&header, join_token), Ok(user)),
        call_ensures(authorize, (Some(&user),), r),
    ensures
        r is Ok,
{
}

/// Reading, creating, changing and deleting are told apart by the method; both
/// ways to change count as the same action, and other methods stand for none.
pub proof fn law_methods_are_actions(method: &str, r: &'static str)
    requires
        call_ensures(action_from_method, (method,), r),
    ensures
        method@ == "GET"@ ==> r@ == "get"@,
        method@ == "POST"@ ==> r@ == "create"@,
        method@ == "PUT"@ || method@ == "PATCH"@ ==> r@ == "update"@,
        method@ == "DELETE"@ ==> r@ == "delete"@,
        method@ != "GET"@ && method@ != "POST"@ && method@ != "PUT"@ && method@ != "PATCH"@
            && method@ != "DELETE"@ ==> r@ == ""@,
{
    reveal_strlit("GET");
    reveal_strlit("POST");
    reveal_strlit("PUT");
    reveal_strlit("PATCH");
    reveal_strlit("DELETE");
    assert("GET"@[0] == 'G' && "DELETE"@[0] == 'D' && "POST"@[0] == 'P' && "PUT"@[0] == 'P'
        && "PATCH"@[0] == 'P');
    assert("POST"@[1] == 'O' && "PUT"@[1] == 'U' && "PATCH"@[1] == 'A');
}

/// The kind that a path is about follows `/api/v1/`, or the namespace where the
/// path names one.
pub proof fn law_paths_name_kinds(
    path: &str,
    kind: Seq<char>,
    ns: Seq<char>,
    r: String,
)
    requires
        call_ensures(resource_from_path, (path,), r),
        forall|i: int| 0 <= i < kind.len() ==> #[trigger] kind[i] != '/',
        forall|i: int| 0 <= i < ns.len() ==> #[trigger] ns[i] != '/',
    ensures
        path@ == Seq::<char>::empty() + seq!['/'] + ("api"@ + seq!['/'] + ("v1"@ + seq!['/'] + kind))
            ==> r@ == kind,
        path@ == Seq::<char>::empty() + seq!['/'] + ("api"@ + seq!['/'] + ("v1"@ + seq!['/'] + (
        "namespaces"@ + seq!['/'] + (ns + seq!['/'] + kind)))) ==> r@ == kind,
{
    reveal_strlit("api");
    reveal_strlit("v1");
    reveal_strlit("namespaces");
    let none = Seq::<char>::empty();
    assert forall|i: int| 0 <= i < "api"@.len() implies #[trigger] "api"@[i] != '/' by {}
    assert forall|i: int| 0 <= i < "v1"@.len() implies #[trigger] "v1"@[i] != '/' by {}
    assert forall|i: int| 0 <= i < "namespaces"@.len() implies #[trigger] "namespaces"@[i]
        != '/' by {}
    law_split_undoes_join(kind, '/', none);
    let short = "v1"@ + seq!['/'] + kind;
    law_split_undoes_join("v1"@, '/', kind);
    law_split_undoes_join("api"@, '/', short);
    law_split_undoes_join(none, '/', "api"@ + seq!['/'] + short);
    let own = ns + seq!['/'] + kind;
    law_split_undoes_join(ns, '/', kind);
    let within = "namespaces"@ + seq!['/'] + own;
    law_split_undoes_join("namespaces"@, '/', own);
    law_split_undoes_join("v1"@, '/', within);
    law_split_undoes_join("api"@, '/', "v1"@ + seq!['/'] + within);
    law_split_undoes_join(none, '/', "api"@ + seq!['/'] + ("v1"@ + seq!['/'] + within));
    assert(seq![none] + (seq!["api"@] + (seq!["v1"@] + seq![kind]))
        =~= seq![none, "api"@, "v1"@, kind]);
    assert(seq![none] + (seq!["api"@] + (seq!["v1"@] + (seq!["namespaces"@] + (seq![ns]
        + seq![kind])))) =~= seq![none, "api"@, "v1"@, "namespaces"@, ns, kind]);
}

} // verus!
