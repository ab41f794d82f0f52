//! The messages that pass through the proxy, as plain values: the request
//! that goes out, the response that came back, and the response that the
//! proxy gives its caller.

use crate::headers::{
    ascii_lower_name, copied, copy_headers, is_hop_name, keeps, lemma_copied_exactly, view_all,
    CopyRule, Header, HeaderView,
};
use crate::text::{append, copy_of};
use vstd::prelude::*;
use vstd::string::StringSliceAdditionalSpecFns;

verus! {

/// A request as the proxy sends it on.
pub struct OutboundRequest {
    /// The name of the method, as the caller sent it.
    pub method: Vec<u8>,
    pub url: Vec<u8>,
    pub headers: Vec<Header>,
    /// `None` where the inbound body was empty: no body is attached then.
    pub body: Option<Vec<u8>>,
}

pub struct OutboundRequestView {
    pub method: Seq<u8>,
    pub url: Seq<u8>,
    pub headers: Seq<HeaderView>,
    pub body: Option<Seq<u8>>,
}

impl View for OutboundRequest {
    type V = OutboundRequestView;

    open spec fn view(&self) -> OutboundRequestView {
        OutboundRequestView {
            method: self.method@,
            url: self.url@,
            headers: view_all(self.headers@),
            body: match self.body {
                Some(body) => Some(body@),
                None => None,
            },
        }
    }
}

/// The request that mirrors an inbound one towards `url`: the same method,
/// whichever it is, the headers that `CopyRule::Outbound` copies, and the
/// body unless it is empty.
pub open spec fn mirrored(
    method: Seq<u8>,
    url: Seq<u8>,
    headers: Seq<HeaderView>,
    body: Seq<u8>,
) -> OutboundRequestView {
    OutboundRequestView {
        method,
        url,
        headers: copied(CopyRule::Outbound, headers),
        body: if body.len() > 0 {
            Some(body)
        } else {
            None
        },
    }
}

pub fn mirror_request(method: &[u8], url: Vec<u8>, headers: &Vec<Header>, body: Vec<u8>) -> (request:
    OutboundRequest)
    ensures
        request@ == mirrored(method@, url@, view_all(headers@), body@),
{
    let attached = if body.len() > 0 {
        Some(body)
    } else {
        None
    };
    OutboundRequest {
        method: copy_of(method),
        url,
        headers: copy_headers(CopyRule::Outbound, headers),
        body: attached,
    }
}

/// A status line, headers and a body.
pub struct ResponseView {
    pub status: u16,
    pub headers: Seq<HeaderView>,
    pub body: Seq<u8>,
}

/// What the upstream, or a third-party host, answered.
pub struct UpstreamResponse {
    pub status: u16,
    pub headers: Vec<Header>,
    pub body: Vec<u8>,
}

impl View for UpstreamResponse {
    type V = ResponseView;

    open spec fn view(&self) -> ResponseView {
        ResponseView { status: self.status, headers: view_all(self.headers@), body: self.body@ }
    }
}

/// What the proxy answers its caller.
pub struct ProxyResponse {
    pub status: u16,
    pub headers: Vec<Header>,
    pub body: Vec<u8>,
}

impl View for ProxyResponse {
    type V = ResponseView;

    open spec fn view(&self) -> ResponseView {
        ResponseView { status: self.status, headers: view_all(self.headers@), body: self.body@ }
    }
}

pub open spec fn content_type(value: Seq<u8>) -> HeaderView {
    HeaderView { name: "Content-Type".spec_bytes(), value }
}

pub open spec fn json_type() -> Seq<u8> {
    "application/json; charset=utf-8".spec_bytes()
}

pub open spec fn html_type() -> Seq<u8> {
    "text/html; charset=utf-8".spec_bytes()
}

pub open spec fn plain_type() -> Seq<u8> {
    "text/plain; charset=utf-8".spec_bytes()
}

/// A response with one `Content-Type` header.
pub open spec fn typed_response(status: u16, media_type: Seq<u8>, body: Seq<u8>) -> ResponseView {
    ResponseView { status, headers: seq![content_type(media_type)], body }
}

/// The JSON body by which every lane reports a failure.
pub open spec fn failure_json(message: Seq<u8>) -> Seq<u8> {
    "{\"success\":false,\"error\":\"".spec_bytes() + message + "\"}".spec_bytes()
}

pub fn make_response(status: u16, media_type: &[u8], body: Vec<u8>) -> (response: ProxyResponse)
    ensures
        response@ == typed_response(status, media_type@, body@),
{
    let mut headers: Vec<Header> = Vec::new();
    headers.push(Header::new("Content-Type".as_bytes(), media_type));
    let response = ProxyResponse { status, headers, body };
    assert(response@.headers =~= seq![content_type(media_type@)]);
    response
}

pub fn make_failure_json(message: &[u8]) -> (body: Vec<u8>)
    ensures
        body@ == failure_json(message@),
{
    let mut body = copy_of("{\"success\":false,\"error\":\"".as_bytes());
    append(&mut body, message);
    append(&mut body, "\"}".as_bytes());
    body
}

/// A failure reported as JSON: `prefix` followed by `detail` as the message.
pub fn json_failure(status: u16, prefix: &[u8], detail: &[u8]) -> (response: ProxyResponse)
    ensures
        response@ == typed_response(status, json_type(), failure_json(prefix@ + detail@)),
{
    let mut message = copy_of(prefix);
    append(&mut message, detail);
    make_response(
        status,
        "application/json; charset=utf-8".as_bytes(),
        make_failure_json(message.as_slice()),
    )
}

/// A mirrored request has the method of the inbound request, whichever
/// method that is, and goes to the address that was given. It has a body
/// exactly where the inbound body is not empty, and then the same body.
pub proof fn lemma_mirrored_method_and_body(
    method: Seq<u8>,
    url: Seq<u8>,
    headers: Seq<HeaderView>,
    body: Seq<u8>,
)
    ensures
        mirrored(method, url, headers, body).method == method,
        mirrored(method, url, headers, body).url == url,
        body.len() > 0 ==> mirrored(method, url, headers, body).body == Some(body),
        body.len() == 0 ==> mirrored(method, url, headers, body).body is None,
{
}

/// The headers of a mirrored request are those of the inbound request that
/// do not describe the connection: each of these is sent, and nothing else
/// is. So `Host`, `Connection`, `Content-Length` and `Transfer-Encoding`
/// never go out as they came in.
pub proof fn lemma_mirrored_headers(
    method: Seq<u8>,
    url: Seq<u8>,
    headers: Seq<HeaderView>,
    body: Seq<u8>,
)
    ensures
        ({
            let sent = mirrored(method, url, headers, body).headers;
            &&& forall|i: int|
                0 <= i < sent.len() ==> {
                    &&& headers.contains(#[trigger] sent[i])
                    &&& !is_hop_name(ascii_lower_name(sent[i]))
                }
            &&& forall|i: int|
                0 <= i < headers.len() && !is_hop_name(ascii_lower_name(headers[i]))
                    ==> sent.contains(#[trigger] headers[i])
        }),
{
    lemma_copied_exactly(CopyRule::Outbound, headers);
    let sent = mirrored(method, url, headers, body).headers;
    assert forall|i: int| 0 <= i < sent.len() implies !is_hop_name(
        ascii_lower_name(#[trigger] sent[i]),
    ) by {
        assert(keeps(CopyRule::Outbound, sent[i]));
    }
    assert forall|i: int|
        0 <= i < headers.len() && !is_hop_name(ascii_lower_name(headers[i])) implies sent.contains(
        #[trigger] headers[i],
    ) by {
        assert(keeps(CopyRule::Outbound, headers[i]));
    }
}

/// An `Authorization` header is sent on as it came, whatever its value and
/// however its name is spelled.
pub proof fn lemma_authorization_is_sent(
    method: Seq<u8>,
    url: Seq<u8>,
    headers: Seq<HeaderView>,
    body: Seq<u8>,
    i: int,
)
    requires
        0 <= i < headers.len(),
        ascii_lower_name(headers[i]) == "authorization".spec_bytes(),
    ensures
        mirrored(method, url, headers, body).headers.contains(headers[i]),
{
    reveal_strlit("authorization");
    reveal_strlit("host");
    reveal_strlit("connection");
    reveal_strlit("content-length");
    reveal_strlit("transfer-encoding");
    vstd::string::is_ascii_spec_bytes("authorization");
    vstd::string::is_ascii_spec_bytes("host");
    vstd::string::is_ascii_spec_bytes("connection");
    vstd::string::is_ascii_spec_bytes("content-length");
    vstd::string::is_ascii_spec_bytes("transfer-encoding");
    assert(!is_hop_name(ascii_lower_name(headers[i])));
    lemma_mirrored_headers(method, url, headers, body);
}

} // verus!
