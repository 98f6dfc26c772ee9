//! Plain-value models of the HTTP messages the pipeline works on.
//!
//! The core only ever reads or rewrites the request target, carries headers
//! through, and treats bodies as opaque bytes, so a request is modelled by
//! exactly those parts. Transport and parsing live outside the library; the
//! host hands these values in and takes them back out.

use vstd::prelude::*;
use vstd::string::StrSliceExecFns;

verus! {

/// An inbound request as the pipeline sees it. Hooks may mutate any part of
/// it during the before-phase; the upstream rewrite replaces only the scheme
/// and authority.
#[derive(Debug)]
pub struct Request {
    pub method: String,
    pub scheme: String,
    pub authority: String,
    pub path_and_query: String,
    pub headers: Vec<(String, String)>,
    pub body: Vec<u8>,
}

/// A response, either received from the upstream or produced by a hook or by
/// the error synthesizer.
#[derive(Debug)]
pub struct Response {
    pub status: u16,
    pub headers: Vec<(String, String)>,
    pub body: Vec<u8>,
}

/// The single fixed upstream authority every forwarded request is rewritten
/// to. Supplied by configuration at startup.
#[derive(Debug)]
pub struct Upstream {
    pub scheme: String,
    pub authority: String,
}

/// An error returned by a middleware hook itself.
#[derive(Debug)]
pub struct MiddlewareError {
    pub message: String,
}

/// A transport-level failure while dispatching to the upstream.
#[derive(Debug)]
pub struct TransportError {
    pub message: String,
}

/// A failure to build the rewritten upstream request (malformed target).
#[derive(Debug)]
pub struct ConstructionError {
    pub message: String,
}

/// Every error the pipeline can propagate internally. The synthesizer below
/// is total over this type: no error ever aborts a connection.
#[derive(Debug)]
pub enum ProxyError {
    Hook(MiddlewareError),
    Transport(TransportError),
    Construction(ConstructionError),
}

/// The status the synthesizer assigns to each error class.
pub open spec fn error_status(e: ProxyError) -> u16 {
    match e {
        ProxyError::Hook(_) => 500,
        ProxyError::Transport(_) => 502,
        ProxyError::Construction(_) => 400,
    }
}

/// The diagnostic text carried by an error.
pub open spec fn error_message(e: ProxyError) -> Seq<char> {
    match e {
        ProxyError::Hook(m) => m.message@,
        ProxyError::Transport(t) => t.message@,
        ProxyError::Construction(c) => c.message@,
    }
}

/// What a synthesized error response looks like: the status of the error's
/// class, no headers, and the diagnostic message as the body.
pub open spec fn is_error_response(r: Response, e: ProxyError) -> bool {
    &&& r.status == error_status(e)
    &&& r.headers@.len() == 0
    &&& r.body@ == vstd::utf8::encode_utf8(error_message(e))
}

/// The response synthesizer: a total conversion from any propagated error to
/// a well-formed response. Never panics; every variant is handled.
pub fn response_from(e: &ProxyError) -> (r: Response)
    ensures
        is_error_response(r, *e),
{
    match e {
        ProxyError::Hook(m) => Response {
            status: 500,
            headers: Vec::new(),
            body: m.message.as_str().as_bytes_vec(),
        },
        ProxyError::Transport(t) => Response {
            status: 502,
            headers: Vec::new(),
            body: t.message.as_str().as_bytes_vec(),
        },
        ProxyError::Construction(c) => Response {
            status: 400,
            headers: Vec::new(),
            body: c.message.as_str().as_bytes_vec(),
        },
    }
}

/// A usable upstream target: some scheme, and a nonempty authority free of
/// spaces and slashes.
pub open spec fn upstream_ok(up: Upstream) -> bool {
    &&& up.scheme@.len() > 0
    &&& authority_chars_ok(up.authority@)
}

pub open spec fn authority_chars_ok(a: Seq<char>) -> bool {
    &&& a.len() > 0
    &&& forall|i: int| 0 <= i < a.len() ==> a[i] != ' ' && a[i] != '/'
}

/// A forwardable request target: origin form, starting with a slash.
pub open spec fn path_ok(p: Seq<char>) -> bool {
    p.len() > 0 && p[0] == '/'
}

fn authority_valid(a: &str) -> (ok: bool)
    ensures
        ok == authority_chars_ok(a@),
{
    let n = a.unicode_len();
    if n == 0 {
        return false;
    }
    let mut i: usize = 0;
    while i < n
        invariant
            i <= n,
            n == a@.len(),
            forall|j: int| 0 <= j < i ==> a@[j] != ' ' && a@[j] != '/',
        decreases n - i,
    {
        let c = a.get_char(i);
        if c == ' ' || c == '/' {
            return false;
        }
        i += 1;
    }
    true
}

/// The forwarding rule: replace scheme and authority with the fixed
/// upstream's, and keep the method, path and query, headers, and body
/// unchanged. A malformed target or upstream yields a typed construction
/// error instead of panicking.
pub fn rewrite_to_upstream(req: Request, upstream: &Upstream) -> (r: Result<
    Request,
    ConstructionError,
>)
    ensures
        r is Ok <==> upstream_ok(*upstream) && path_ok(req.path_and_query@),
        (match r {
            Ok(t) => {
                &&& t.method@ == req.method@
                &&& t.scheme@ == upstream.scheme@
                &&& t.authority@ == upstream.authority@
                &&& t.path_and_query@ == req.path_and_query@
                &&& t.headers.deep_view() == req.headers.deep_view()
                &&& t.body@ == req.body@
            },
            Err(_) => true,
        }),
{
    let scheme_good = !upstream.scheme.as_str().is_empty();
    let authority_good = authority_valid(upstream.authority.as_str());
    let path_good = !req.path_and_query.as_str().is_empty() && req.path_and_query.as_str().get_char(
        0,
    ) == '/';
    if scheme_good && authority_good && path_good {
        Ok(
            Request {
                method: req.method,
                scheme: upstream.scheme.clone(),
                authority: upstream.authority.clone(),
                path_and_query: req.path_and_query,
                headers: req.headers,
                body: req.body,
            },
        )
    } else {
        Err(ConstructionError { message: "invalid upstream target".to_owned() })
    }
}

} // verus!
