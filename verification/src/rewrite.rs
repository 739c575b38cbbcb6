//! The request rewriter: decides, for each request the proxy sees, whether to
//! establish a decrypted tunnel (CONNECT), rewrite the destination to the
//! configured backend, or pass the request through untouched.

use vstd::prelude::*;
use crate::strutil::{no_ws, is_space_char, str_eq, has_prefix, has_suffix};
use crate::policy::{spec_should_redirect, should_redirect};

verus! {

/// What the proxy does with one request.
pub enum RequestAction {
    /// Answer a CONNECT with a tunnel-established status carrying the marker
    /// header, then begin TLS termination for the tunnel's host.
    EstablishTunnel,
    /// Forward the request to the rewritten destination held here.
    Rewrite(String),
    /// Forward the request to its original destination, unmodified.
    PassThrough,
}

/// Why a rewrite could not be carried out.
#[derive(Debug)]
pub enum RewriteError {
    /// The configured backend target cannot form a valid destination.
    MalformedTarget,
}

/// A backend target that can head a destination URI: nonempty and free of
/// whitespace.
pub open spec fn target_wf(t: Seq<char>) -> bool {
    t.len() > 0 && no_ws(t)
}

/// The path-and-query that the rewritten destination keeps: the request's own
/// if it has one, else the default path `/`.
pub open spec fn path_or_slash(pq: Option<Seq<char>>) -> Seq<char> {
    match pq {
        Some(p) => p,
        None => "/"@,
    }
}

/// The rewritten destination: the backend target followed by the preserved
/// path and query.
pub open spec fn rewritten_uri(target: Seq<char>, pq: Option<Seq<char>>) -> Seq<char> {
    target + path_or_slash(pq)
}

/// Decide what to do with a request. `authority` is the request's authority
/// — its host and optional port, the empty string where it has none —
/// `path_and_query` its path-and-query part if it has one, and `target` the
/// current backend target. The redirect rules judge the authority alone; a
/// request whose authority matches no rule passes through completely
/// unmodified. Method, headers and body are never touched; responses are
/// streamed back verbatim elsewhere.
pub fn plan_request(method: &str, authority: &str, path_and_query: Option<&str>, target: &str) -> (r:
    Result<RequestAction, RewriteError>)
    ensures
        !spec_should_redirect(authority@) ==> r == Ok::<RequestAction, RewriteError>(
            RequestAction::PassThrough,
        ),
        spec_should_redirect(authority@) && method@ == "CONNECT"@ ==> r == Ok::<
            RequestAction,
            RewriteError,
        >(RequestAction::EstablishTunnel),
        spec_should_redirect(authority@) && method@ != "CONNECT"@ && target_wf(target@) ==> (r
            matches Ok(RequestAction::Rewrite(u)) && u@ == rewritten_uri(
            target@,
            match path_and_query {
                Some(p) => Some(p@),
                None => None,
            },
        )),
        spec_should_redirect(authority@) && method@ != "CONNECT"@ && !target_wf(target@) ==> r
            == Err::<RequestAction, RewriteError>(RewriteError::MalformedTarget),
{
    if !should_redirect(authority) {
        return Ok(RequestAction::PassThrough);
    }
    if str_eq(method, "CONNECT") {
        return Ok(RequestAction::EstablishTunnel);
    }
    if !target_ok(target) {
        return Err(RewriteError::MalformedTarget);
    }
    let mut dest = String::from_str(target);
    match path_and_query {
        Some(p) => dest.append(p),
        None => dest.append("/"),
    }
    Ok(RequestAction::Rewrite(dest))
}

/// Law: a rewritten destination always begins with the backend target and
/// ends with the preserved path and query — rewriting routes to the backend
/// and keeps the request's path intact.
pub proof fn lemma_rewrite_preserves_parts(target: Seq<char>, pq: Option<Seq<char>>)
    ensures
        has_prefix(rewritten_uri(target, pq), target),
        has_suffix(rewritten_uri(target, pq), path_or_slash(pq)),
{
    let u = rewritten_uri(target, pq);
    assert(u.subrange(0, target.len() as int) =~= target);
    assert(u.subrange(u.len() - path_or_slash(pq).len(), u.len() as int) =~= path_or_slash(pq));
}

/// Runtime check that a backend target is well formed.
pub fn target_ok(target: &str) -> (r: bool)
    ensures
        r == target_wf(target@),
{
    let len = target.unicode_len();
    if len == 0 {
        return false;
    }
    let mut i: usize = 0;
    while i < len
        invariant
            len == target@.len(),
            i <= len,
            forall|k: int| 0 <= k < i ==> !is_space_char(#[trigger] target@[k]),
        decreases len - i,
    {
        let c = target.get_char(i);
        if c == ' ' || c == '\t' || c == '\n' || c == '\r' || c == '\u{b}' || c == '\u{c}' {
            assert(is_space_char(target@[i as int]));
            return false;
        }
        i += 1;
    }
    true
}

/// The wire answer to an intercepted CONNECT: a success status carrying the
/// marker header that tells the transport layer to begin TLS termination.
pub struct TunnelReply {
    pub status: u16,
    pub header_name: String,
    pub header_value: String,
}

/// The reply sent for every intercepted CONNECT request.
pub fn connect_established_reply() -> (r: TunnelReply)
    ensures
        r.status == 200,
        r.header_name@ == "DecryptEndpoint"@,
        r.header_value@ == "Created"@,
{
    TunnelReply {
        status: 200,
        header_name: String::from_str("DecryptEndpoint"),
        header_value: String::from_str("Created"),
    }
}

/// Serialize a route target from its parts: scheme chosen by `use_ssl`, then
/// host and port.
pub fn make_route_target(use_ssl: bool, host: &str, port: &str) -> (r: String)
    ensures
        r@ == (if use_ssl {
            "https://"@
        } else {
            "http://"@
        }) + host@ + ":"@ + port@,
{
    let mut t = if use_ssl {
        String::from_str("https://")
    } else {
        String::from_str("http://")
    };
    t.append(host);
    t.append(":");
    t.append(port);
    t
}

} // verus!
