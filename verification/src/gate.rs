//! The filter core: the request model, the verdict, and the classification
//! and redirect construction that `evaluate` performs.

use vstd::prelude::*;
use crate::bytes::{
    ascii_bytes, ascii_eq_ignore_case, ascii_seq, has_prefix, is_prefix_of, lower, push_all,
};
use crate::encoding::{encode_component, encode_seq};
use vstd::slice::slice_to_vec;

verus! {

/// The name of the credential header.
pub open spec fn authorization_name() -> Seq<u8> {
    ascii_seq("authorization"@)
}

/// The pseudo-header holding the request path.
pub open spec fn path_pseudo_name() -> Seq<u8> {
    ascii_seq(":path"@)
}

/// The credential marker: a value with this prefix counts as authenticated.
pub open spec fn bearer_prefix() -> Seq<u8> {
    ascii_seq("Bearer "@)
}

/// The path used when the request carries none.
pub open spec fn root_path() -> Seq<u8> {
    ascii_seq("/"@)
}

/// The body of every redirect response.
pub open spec fn redirect_body() -> Seq<u8> {
    ascii_seq("Redirecting..."@)
}

/// The key of the client identifier query parameter, `=` included.
pub open spec fn client_id_key() -> Seq<u8> {
    ascii_seq("client_id="@)
}

/// The fixed `response_type` query parameter.
pub open spec fn response_type_param() -> Seq<u8> {
    ascii_seq("response_type=code"@)
}

/// The fixed `scope` query parameter.
pub open spec fn scope_param() -> Seq<u8> {
    ascii_seq("scope=openid"@)
}

/// The key of the callback query parameter, `=` included.
pub open spec fn redirect_uri_key() -> Seq<u8> {
    ascii_seq("redirect_uri="@)
}

/// No byte of `s` equals `b`.
pub open spec fn free_of(s: Seq<u8>, b: u8) -> bool {
    forall|i: int| 0 <= i < s.len() ==> s[i] != b
}

/// The filter configuration: the identity provider's authorization endpoint,
/// the client identifier it knows this filter by, and the public-facing
/// scheme, host and port that the callback URL starts with.
pub struct Config {
    pub idp_auth_base: Vec<u8>,
    pub client_id: Vec<u8>,
    pub public_base: Vec<u8>,
}

impl Config {
    /// A well-formed configuration: the client identifier cannot smuggle a
    /// query-parameter separator in, and the endpoint holds no query of its
    /// own, so the constructed URL has exactly the query this filter appends.
    pub open spec fn wf(self) -> bool {
        free_of(self.client_id@, 38) && free_of(self.idp_auth_base@, 63)
    }

    /// The observed deployment values: a Keycloak realm's authorization
    /// endpoint, its client identifier, and a plain-scheme local callback
    /// base.
    pub fn standard() -> (r: Config)
        ensures
            r.idp_auth_base@ == ascii_seq(
                "http://keycloak:8080/realms/myrealm/protocol/openid-connect/auth"@,
            ),
            r.client_id@ == ascii_seq("echo-client"@),
            r.public_base@ == ascii_seq("http://localhost:8081"@),
            r.wf(),
    {
        proof {
            reveal_strlit("http://keycloak:8080/realms/myrealm/protocol/openid-connect/auth");
            reveal_strlit("echo-client");
            reveal_strlit("http://localhost:8081");
        }
        Config {
            idp_auth_base: ascii_bytes(
                "http://keycloak:8080/realms/myrealm/protocol/openid-connect/auth",
            ),
            client_id: ascii_bytes("echo-client"),
            public_base: ascii_bytes("http://localhost:8081"),
        }
    }
}

/// The verdict on one request: let it continue unchanged, or stop it and
/// answer with the given status, `Location` header value and body.
pub enum Verdict {
    Continue,
    ShortCircuit { status: u16, location: Vec<u8>, body: Vec<u8> },
}

/// The value of the first header whose name equals `name` up to ASCII case,
/// if any.
pub open spec fn header_lookup(hs: Seq<(Seq<u8>, Seq<u8>)>, name: Seq<u8>) -> Option<Seq<u8>>
    decreases hs.len(),
{
    if hs.len() == 0 {
        None
    } else if lower(hs[0].0) == lower(name) {
        Some(hs[0].1)
    } else {
        header_lookup(hs.skip(1), name)
    }
}

/// A request counts as authenticated exactly when its `authorization` header
/// value starts with `Bearer `.
pub open spec fn is_authenticated(hs: Seq<(Seq<u8>, Seq<u8>)>) -> bool {
    match header_lookup(hs, authorization_name()) {
        Some(v) => is_prefix_of(bearer_prefix(), v),
        None => false,
    }
}

/// The request's path, falling back to `/` when the pseudo-header is absent
/// or empty.
pub open spec fn request_path(hs: Seq<(Seq<u8>, Seq<u8>)>) -> Seq<u8> {
    match header_lookup(hs, path_pseudo_name()) {
        Some(p) => if p.len() == 0 {
            root_path()
        } else {
            p
        },
        None => root_path(),
    }
}

/// The callback URL: the public base followed by the original path.
pub open spec fn callback_url(cfg: Config, hs: Seq<(Seq<u8>, Seq<u8>)>) -> Seq<u8> {
    cfg.public_base@ + request_path(hs)
}

/// The query of the authorization URL: `client_id`, `response_type`, `scope`
/// and the percent-encoded callback as `redirect_uri`, joined with `&`.
pub open spec fn auth_query(cfg: Config, hs: Seq<(Seq<u8>, Seq<u8>)>) -> Seq<u8> {
    client_id_key() + cfg.client_id@ + seq![38u8] + response_type_param() + seq![38u8]
        + scope_param() + seq![38u8] + redirect_uri_key() + encode_seq(callback_url(cfg, hs))
}

/// The full authorization URL the redirect points at.
pub open spec fn location_url(cfg: Config, hs: Seq<(Seq<u8>, Seq<u8>)>) -> Seq<u8> {
    cfg.idp_auth_base@ + seq![63u8] + auth_query(cfg, hs)
}

/// Finds the value of the header named `name`, comparing names without
/// regard to ASCII case, taking the first match.
pub fn find_header<'a>(headers: &'a Vec<(Vec<u8>, Vec<u8>)>, name: &Vec<u8>) -> (r: Option<
    &'a Vec<u8>,
>)
    ensures
        r.deep_view() == header_lookup(headers.deep_view(), name@),
{
    let ghost dv = headers.deep_view();
    proof {
        assert(dv.skip(0) =~= dv);
    }
    let n = headers.len();
    let mut i: usize = 0;
    while i < n
        invariant
            n == headers.len(),
            i <= n,
            dv == headers.deep_view(),
            dv.len() == n,
            header_lookup(dv, name@) == header_lookup(dv.skip(i as int), name@),
        decreases n - i,
    {
        proof {
            assert(dv.skip(i as int)[0] == dv[i as int]);
            assert(dv[i as int] == (headers@[i as int].0@, headers@[i as int].1@));
        }
        if ascii_eq_ignore_case(&headers[i].0, name) {
            return Some(&headers[i].1);
        }
        proof {
            assert(dv.skip(i as int).skip(1) =~= dv.skip(i as int + 1));
        }
        i = i + 1;
    }
    proof {
        assert(dv.skip(n as int) =~= Seq::<(Seq<u8>, Seq<u8>)>::empty());
    }
    None
}

/// The decision on one request: `Continue` exactly when the request is
/// authenticated, and otherwise a `302` short-circuit whose `Location` is
/// the identity provider's authorization URL carrying the percent-encoded
/// callback.
pub fn evaluate(cfg: &Config, headers: &Vec<(Vec<u8>, Vec<u8>)>) -> (v: Verdict)
    ensures
        (v is Continue) <==> is_authenticated(headers.deep_view()),
        !is_authenticated(headers.deep_view()) ==> (v matches Verdict::ShortCircuit {
            status,
            location,
            body,
        } && status == 302 && location@ == location_url(*cfg, headers.deep_view()) && body@
            == redirect_body()),
{
    proof {
        reveal_strlit("authorization");
        reveal_strlit("Bearer ");
        reveal_strlit(":path");
        reveal_strlit("/");
        reveal_strlit("client_id=");
        reveal_strlit("response_type=code");
        reveal_strlit("scope=openid");
        reveal_strlit("redirect_uri=");
        reveal_strlit("Redirecting...");
    }
    let auth_name = ascii_bytes("authorization");
    let bearer = ascii_bytes("Bearer ");
    match find_header(headers, &auth_name) {
        Some(value) => {
            if has_prefix(value, &bearer) {
                return Verdict::Continue;
            }
        },
        None => {},
    }

    let path_name = ascii_bytes(":path");
    let mut callback = slice_to_vec(cfg.public_base.as_slice());
    match find_header(headers, &path_name) {
        Some(p) => {
            if p.len() == 0 {
                let root = ascii_bytes("/");
                push_all(&mut callback, &root);
            } else {
                push_all(&mut callback, p);
            }
        },
        None => {
            let root = ascii_bytes("/");
            push_all(&mut callback, &root);
        },
    }
    assert(callback@ == callback_url(*cfg, headers.deep_view()));

    let mut location = slice_to_vec(cfg.idp_auth_base.as_slice());
    location.push(63);
    let part_client = ascii_bytes("client_id=");
    push_all(&mut location, &part_client);
    push_all(&mut location, &cfg.client_id);
    location.push(38);
    let part_response = ascii_bytes("response_type=code");
    push_all(&mut location, &part_response);
    location.push(38);
    let part_scope = ascii_bytes("scope=openid");
    push_all(&mut location, &part_scope);
    location.push(38);
    let part_redirect = ascii_bytes("redirect_uri=");
    push_all(&mut location, &part_redirect);
    let encoded = encode_component(&callback);
    push_all(&mut location, &encoded);
    proof {
        assert(location@ =~= location_url(*cfg, headers.deep_view()));
    }
    Verdict::ShortCircuit { status: 302, location, body: ascii_bytes("Redirecting...") }
}

} // verus!

