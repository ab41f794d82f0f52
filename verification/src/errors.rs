//! The errors that a request can end in, and the response that reports each.

use crate::messages::{
    failure_json, html_type, json_failure, json_type, make_response, plain_type, typed_response,
    ProxyResponse, ResponseView,
};
use crate::text::{append, copy_of};
use vstd::prelude::*;
use vstd::string::StringSliceAdditionalSpecFns;

verus! {

/// Why a request is answered without its response from upstream.
#[derive(Clone, Copy, PartialEq, Eq, Structural, Debug)]
pub enum RequestError {
    /// The body of the request could not be read.
    InvalidRequest,
    /// The breaker is open, or the upstream could not be connected to.
    UpstreamUnavailable,
    /// Forwarding failed in some other way.
    UpstreamError,
    /// A bypass request names a host that is not on the allowlist.
    ForbiddenTarget,
    /// A bypass request names no target.
    BadProxyRequest,
}

impl RequestError {
    /// The HTTP status under which the error is reported.
    pub open spec fn status_code(self) -> u16 {
        match self {
            RequestError::InvalidRequest => 400,
            RequestError::UpstreamUnavailable => 503,
            RequestError::UpstreamError => 502,
            RequestError::ForbiddenTarget => 403,
            RequestError::BadProxyRequest => 400,
        }
    }

    pub fn status(&self) -> (code: u16)
        ensures
            code == self.status_code(),
    {
        match self {
            RequestError::InvalidRequest => 400,
            RequestError::UpstreamUnavailable => 503,
            RequestError::UpstreamError => 502,
            RequestError::ForbiddenTarget => 403,
            RequestError::BadProxyRequest => 400,
        }
    }
}

/// The response to a request while the upstream is taken to be down: JSON
/// for an API path, the given page for any other.
pub open spec fn service_unavailable(is_api: bool, page: Seq<u8>) -> ResponseView {
    if is_api {
        typed_response(
            503,
            json_type(),
            failure_json("Sunshine service is unavailable".spec_bytes()),
        )
    } else {
        typed_response(503, html_type(), page)
    }
}

/// The response to a request whose forwarding failed for a reason other than
/// the connection: JSON for an API path, plain text for any other, both with
/// the failure's own words in `detail`.
pub open spec fn bad_gateway(is_api: bool, detail: Seq<u8>) -> ResponseView {
    if is_api {
        typed_response(502, json_type(), failure_json("Proxy error: ".spec_bytes() + detail))
    } else {
        typed_response(502, plain_type(), "代理错误: ".spec_bytes() + detail)
    }
}

/// The response to a request whose body could not be read.
pub open spec fn bad_request() -> ResponseView {
    typed_response(400, plain_type(), "读取请求体失败".spec_bytes())
}

/// The response that reports `error`. `is_api` says whether the request went
/// to an API path, `page` is the page shown while the upstream is down, and
/// `detail` holds the failure's own words.
pub open spec fn response_for(
    error: RequestError,
    is_api: bool,
    page: Seq<u8>,
    detail: Seq<u8>,
) -> ResponseView {
    match error {
        RequestError::InvalidRequest => bad_request(),
        RequestError::UpstreamUnavailable => service_unavailable(is_api, page),
        RequestError::UpstreamError => bad_gateway(is_api, detail),
        RequestError::ForbiddenTarget => typed_response(
            403,
            json_type(),
            failure_json("Domain not allowed".spec_bytes()),
        ),
        RequestError::BadProxyRequest => typed_response(
            400,
            json_type(),
            failure_json("Missing or invalid URL parameter".spec_bytes()),
        ),
    }
}

pub fn service_unavailable_response(is_api: bool, page: &[u8]) -> (response: ProxyResponse)
    ensures
        response@ == service_unavailable(is_api, page@),
{
    if is_api {
        let response = json_failure(503, "Sunshine service is unavailable".as_bytes(), &[]);
        assert("Sunshine service is unavailable".spec_bytes() + Seq::<u8>::empty()
            =~= "Sunshine service is unavailable".spec_bytes());
        response
    } else {
        make_response(503, "text/html; charset=utf-8".as_bytes(), copy_of(page))
    }
}

pub fn bad_gateway_response(is_api: bool, detail: &[u8]) -> (response: ProxyResponse)
    ensures
        response@ == bad_gateway(is_api, detail@),
{
    if is_api {
        json_failure(502, "Proxy error: ".as_bytes(), detail)
    } else {
        let mut body = copy_of("代理错误: ".as_bytes());
        append(&mut body, detail);
        make_response(502, "text/plain; charset=utf-8".as_bytes(), body)
    }
}

pub fn bad_request_response() -> (response: ProxyResponse)
    ensures
        response@ == bad_request(),
{
    make_response(
        400,
        "text/plain; charset=utf-8".as_bytes(),
        copy_of("读取请求体失败".as_bytes()),
    )
}

/// The response that reports `error`.
pub fn error_response(error: RequestError, is_api: bool, page: &[u8], detail: &[u8]) -> (response:
    ProxyResponse)
    ensures
        response@ == response_for(error, is_api, page@, detail@),
        response@.status == error.status_code(),
{
    match error {
        RequestError::InvalidRequest => bad_request_response(),
        RequestError::UpstreamUnavailable => service_unavailable_response(is_api, page),
        RequestError::UpstreamError => bad_gateway_response(is_api, detail),
        RequestError::ForbiddenTarget => {
            let response = json_failure(403, "Domain not allowed".as_bytes(), &[]);
            assert("Domain not allowed".spec_bytes() + Seq::<u8>::empty()
                =~= "Domain not allowed".spec_bytes());
            response
        },
        RequestError::BadProxyRequest => {
            let response = json_failure(400, "Missing or invalid URL parameter".as_bytes(), &[]);
            assert("Missing or invalid URL parameter".spec_bytes() + Seq::<u8>::empty()
                =~= "Missing or invalid URL parameter".spec_bytes());
            response
        },
    }
}

} // verus!
