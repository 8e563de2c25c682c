//! The request forwarder's decision logic. `prepare` turns a declarative
//! request description into the exact request to send, refusing unsupported
//! verbs before anything touches the network; `finish` maps a received
//! response into the uniform result value. The send itself is the host's
//! job: it performs exactly what the prepared request says.

use vstd::prelude::*;
use crate::headers::{filter_valid_headers, spec_text_headers, spec_valid_headers, text_headers};
use crate::method::{allows_body, parse_method, spec_allows_body, spec_method_of_upper, upper_of, Method};

verus! {

/// The timeout applied when the caller gives none, in milliseconds.
pub const DEFAULT_TIMEOUT_MS: u64 = 30000;

/// A declarative description of one outbound request, as the front end
/// hands it over.
#[derive(Debug)]
pub struct OutboundRequest {
    pub url: String,
    pub method: String,
    pub headers: Option<Vec<(String, String)>>,
    pub body: Option<String>,
    pub timeout_ms: Option<u64>,
}

/// The exact request the host is to send: a supported verb, only
/// well-formed headers, a body only where the verb carries one, and a
/// definite timeout.
#[derive(Debug)]
pub struct PreparedRequest {
    pub url: String,
    pub method: Method,
    pub headers: Vec<(String, String)>,
    pub body: Option<String>,
    pub timeout_ms: u64,
}

/// Why a forwarded call failed. The unsupported-method refusal is decided
/// here, before any network work; the other three arise in the transport
/// and carry its message.
#[derive(Debug, PartialEq, Eq)]
pub enum ForwardError {
    ClientInitFailed(String),
    UnsupportedMethod(String),
    SendFailed(String),
    BodyReadFailed(String),
}

/// The uniform result of a successful forwarded call. The error field is
/// reserved and always absent: failures travel on the error channel of the
/// call itself.
#[derive(Debug, PartialEq, Eq)]
pub struct ProxyResult {
    pub status: u16,
    pub headers: Vec<(String, String)>,
    pub body: String,
    pub error: Option<String>,
}

/// The header entries a request description gives, or none.
pub open spec fn spec_given_headers(
    h: Option<Seq<(Seq<char>, Seq<char>)>>,
) -> Seq<(Seq<char>, Seq<char>)> {
    match h {
        Some(s) => s,
        None => Seq::empty(),
    }
}

/// Builds the request to send from its description. The verb is matched
/// case-insensitively against the supported set and anything else is
/// refused before any network work; malformed headers are dropped one by
/// one without failing the rest; a body is attached only for verbs other
/// than GET and HEAD; a missing timeout defaults.
pub fn prepare(req: OutboundRequest) -> (r: Result<PreparedRequest, ForwardError>)
    ensures
        ({
            let mu = spec_method_of_upper(upper_of(req.method@));
            match r {
                Ok(p) => {
                    &&& mu == Some(p.method)
                    &&& p.url@ == req.url@
                    &&& p.headers.deep_view() == spec_valid_headers(
                        spec_given_headers(req.headers.deep_view()),
                    )
                    &&& p.body.deep_view() == (if spec_allows_body(p.method) {
                        req.body.deep_view()
                    } else {
                        None
                    })
                    &&& p.timeout_ms == (match req.timeout_ms {
                        Some(t) => t,
                        None => DEFAULT_TIMEOUT_MS,
                    })
                },
                Err(e) => {
                    &&& mu is None
                    &&& e matches ForwardError::UnsupportedMethod(m) && m@ == req.method@
                },
            }
        }),
{
    let method = match parse_method(req.method.as_str()) {
        Some(m) => m,
        None => {
            return Err(ForwardError::UnsupportedMethod(req.method));
        },
    };
    let headers = match &req.headers {
        Some(h) => filter_valid_headers(h),
        None => Vec::new(),
    };
    let body = if allows_body(method) {
        req.body
    } else {
        None
    };
    let timeout_ms = match req.timeout_ms {
        Some(t) => t,
        None => DEFAULT_TIMEOUT_MS,
    };
    Ok(PreparedRequest { url: req.url, method, headers, body, timeout_ms })
}

/// Maps a received response into the uniform result: the status as given,
/// every header whose raw value is text (the rest dropped), the body as
/// given, and no error.
pub fn finish(status: u16, raw_headers: Vec<(String, Vec<u8>)>, body: String) -> (r: ProxyResult)
    ensures
        r.status == status,
        r.headers.deep_view() == spec_text_headers(raw_headers.deep_view()),
        r.body@ == body@,
        r.error is None,
{
    let headers = text_headers(raw_headers);
    ProxyResult { status, headers, body, error: None }
}

/// A body given with a verb that carries one is transmitted unchanged; with
/// GET or HEAD it is always omitted.
pub proof fn lemma_body_only_outside_get_head(req: OutboundRequest, p: PreparedRequest)
    requires
        spec_method_of_upper(upper_of(req.method@)) == Some(p.method),
        p.body.deep_view() == (if spec_allows_body(p.method) {
            req.body.deep_view()
        } else {
            None::<Seq<char>>
        }),
    ensures
        p.method == Method::Get || p.method == Method::Head ==> p.body is None,
        p.method != Method::Get && p.method != Method::Head ==> p.body.deep_view()
            == req.body.deep_view(),
{
    if p.body is None {
        assert(p.body.deep_view() is None);
    } else {
        assert(p.body.deep_view() is Some);
    }
}

} // verus!
