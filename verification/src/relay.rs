//! The two relay lanes, bypass and third-party, once the router has let a
//! request in: what is sent, and what the caller is answered.

use crate::forward::{Event, EventView};
use crate::headers::{
    ascii_lower_name, copied, copy_headers, is_cors_name, keeps, lemma_copied_exactly, view_all,
    CopyRule, Header, HeaderView,
};
use crate::messages::{
    failure_json, json_failure, json_type, mirror_request, mirrored, typed_response,
    OutboundRequest, ProxyResponse, ResponseView, UpstreamResponse,
};
use crate::router::Lane;
use vstd::prelude::*;
use vstd::string::StringSliceAdditionalSpecFns;

verus! {

/// The headers by which a relayed response allows every origin.
pub open spec fn cors_headers() -> Seq<HeaderView> {
    seq![
        HeaderView { name: "Access-Control-Allow-Origin".spec_bytes(), value: "*".spec_bytes() },
        HeaderView {
            name: "Access-Control-Allow-Methods".spec_bytes(),
            value: "GET, POST, PUT, DELETE, OPTIONS".spec_bytes(),
        },
        HeaderView { name: "Access-Control-Allow-Headers".spec_bytes(), value: "*".spec_bytes() },
    ]
}

/// What the caller is answered when the host answered `upstream`: the same
/// status and body, the headers that `CopyRule::Relay` copies, and the CORS
/// headers behind them.
pub open spec fn relayed(upstream: ResponseView) -> ResponseView {
    ResponseView {
        status: upstream.status,
        headers: copied(CopyRule::Relay, upstream.headers) + cors_headers(),
        body: upstream.body,
    }
}

/// The words that precede the failure's own when a relayed request could not be sent.
pub open spec fn send_failure_words(lane: Lane) -> Seq<u8> {
    if lane == Lane::ThirdParty {
        "Steam API request failed: ".spec_bytes()
    } else {
        "External request failed: ".spec_bytes()
    }
}

/// What the caller is answered after the outcome `event` of a relayed
/// request. Every failure is reported as JSON under status 502.
pub open spec fn relay_answer(lane: Lane, event: EventView) -> ResponseView {
    match event {
        EventView::Answered(upstream) => relayed(upstream),
        EventView::SendFailed(words) => typed_response(
            502,
            json_type(),
            failure_json(send_failure_words(lane) + words),
        ),
        EventView::BodyFailed(words) => typed_response(
            502,
            json_type(),
            failure_json("Failed to read response: ".spec_bytes() + words),
        ),
    }
}

/// The request that a relay lane sends to `target`.
pub fn begin_relay(target: Vec<u8>, method: &[u8], headers: &Vec<Header>, body: Vec<u8>) -> (request:
    OutboundRequest)
    ensures
        request@ == mirrored(method@, target@, view_all(headers@), body@),
{
    mirror_request(method, target, headers, body)
}

/// Makes the caller's answer of what the host answered.
pub fn build_cors_response(upstream: UpstreamResponse) -> (response: ProxyResponse)
    ensures
        response@ == relayed(upstream@),
{
    let mut headers = copy_headers(CopyRule::Relay, &upstream.headers);
    let ghost kept = view_all(headers@);
    headers.push(Header::new("Access-Control-Allow-Origin".as_bytes(), "*".as_bytes()));
    headers.push(
        Header::new(
            "Access-Control-Allow-Methods".as_bytes(),
            "GET, POST, PUT, DELETE, OPTIONS".as_bytes(),
        ),
    );
    headers.push(Header::new("Access-Control-Allow-Headers".as_bytes(), "*".as_bytes()));
    assert(view_all(headers@) =~= kept + cors_headers());
    ProxyResponse { status: upstream.status, headers, body: upstream.body }
}

/// Ends a relayed request with the answer for its outcome.
pub fn finish_relay(lane: Lane, event: Event) -> (response: ProxyResponse)
    ensures
        response@ == relay_answer(lane, event@),
{
    match event {
        Event::Answered(upstream) => build_cors_response(upstream),
        Event::SendFailed(words) => {
            let prefix = match lane {
                Lane::ThirdParty => "Steam API request failed: ".as_bytes(),
                _ => "External request failed: ".as_bytes(),
            };
            json_failure(502, prefix, words.as_slice())
        },
        Event::BodyFailed(words) => json_failure(
            502,
            "Failed to read response: ".as_bytes(),
            words.as_slice(),
        ),
    }
}

/// A relayed response ends in the three CORS headers, the first of which
/// allows every origin, and carries no CORS header of the host before them.
pub proof fn lemma_relayed_allows_every_origin(upstream: ResponseView)
    ensures
        ({
            let headers = relayed(upstream).headers;
            let kept = copied(CopyRule::Relay, upstream.headers).len() as int;
            &&& headers.len() == kept + 3
            &&& headers[kept] == (HeaderView {
                name: "Access-Control-Allow-Origin".spec_bytes(),
                value: "*".spec_bytes(),
            })
            &&& headers.subrange(kept, kept + 3) == cors_headers()
            &&& forall|i: int| 0 <= i < kept ==> !is_cors_name(ascii_lower_name(#[trigger] headers[i]))
            &&& relayed(upstream).status == upstream.status
            &&& relayed(upstream).body == upstream.body
        }),
{
    let kept_headers = copied(CopyRule::Relay, upstream.headers);
    let headers = relayed(upstream).headers;
    lemma_copied_exactly(CopyRule::Relay, upstream.headers);
    assert(headers.subrange(kept_headers.len() as int, kept_headers.len() as int + 3)
        =~= cors_headers());
    assert forall|i: int| 0 <= i < kept_headers.len() implies !is_cors_name(
        ascii_lower_name(#[trigger] headers[i]),
    ) by {
        assert(headers[i] == kept_headers[i]);
        assert(keeps(CopyRule::Relay, kept_headers[i]));
    }
}

} // verus!
