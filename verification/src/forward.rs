//! The forwarding engine of the main lane.
//!
//! Sending is the caller's part. This module decides: what to send, what to
//! do with each outcome, what to answer, and what the breaker learns. A
//! request is sent at most twice, the second time only as a fallback from
//! HTTPS to HTTP.

use crate::breaker::CircuitBreaker;
use crate::errors::{
    error_response, response_for, service_unavailable, service_unavailable_response,
    RequestError,
};
use crate::headers::{view_all, Header, HeaderView};
use crate::inject::{
    is_injected, page_response, transform_response, with_block, InjectionPayload,
    InjectionPayloadView,
};
use crate::messages::{
    mirror_request, mirrored, OutboundRequest, OutboundRequestView, ProxyResponse, ResponseView,
    UpstreamResponse,
};
use crate::outside::{lowercase, to_lowercase};
use crate::router::{api_prefix, is_api_request};
use crate::target::{target_url, TargetRegistry};
use crate::text::{contains, contains_bytes, copy_of, replace_all, replaced, starts_with};
use vstd::prelude::*;
use vstd::string::StringSliceAdditionalSpecFns;

verus! {

/// Whether a failure's words, in lower case, speak of a failed connection.
pub open spec fn is_connection_message(lowered: Seq<u8>) -> bool {
    ||| contains(lowered, "connection".spec_bytes())
    ||| contains(lowered, "refused".spec_bytes())
    ||| contains(lowered, "timed out".spec_bytes())
    ||| contains(lowered, "timeout".spec_bytes())
    ||| contains(lowered, "unreachable".spec_bytes())
    ||| contains(lowered, "error sending request".spec_bytes())
    ||| contains(lowered, "network".spec_bytes())
    ||| contains(lowered, "dns".spec_bytes())
}

/// Whether a failure with these words counts as a connection failure: the
/// words are put in lower case and searched for the known phrases.
pub open spec fn is_connection_failure(words: Seq<u8>) -> bool {
    is_connection_message(lowercase(words))
}

/// The error that a failed forwarding attempt ends in.
pub open spec fn failure_kind(connection: bool) -> RequestError {
    if connection {
        RequestError::UpstreamUnavailable
    } else {
        RequestError::UpstreamError
    }
}

pub open spec fn https_scheme() -> Seq<u8> {
    "https://".spec_bytes()
}

pub open spec fn http_scheme() -> Seq<u8> {
    "http://".spec_bytes()
}

/// Which of the two possible attempts an exchange is in.
#[derive(Clone, Copy, PartialEq, Eq, Structural, Debug)]
pub enum Attempt {
    /// The request as it was first built.
    First,
    /// The same request over plain HTTP, after HTTPS failed.
    Fallback,
}

/// A request that is on its way upstream.
pub struct Exchange {
    /// The path of the inbound request.
    pub path: Vec<u8>,
    pub request: OutboundRequest,
    pub attempt: Attempt,
}

pub struct ExchangeView {
    pub path: Seq<u8>,
    pub request: OutboundRequestView,
    pub attempt: Attempt,
}

impl View for Exchange {
    type V = ExchangeView;

    open spec fn view(&self) -> ExchangeView {
        ExchangeView { path: self.path@, request: self.request@, attempt: self.attempt }
    }
}

/// How an attempt to send went.
pub enum Event {
    /// The upstream answered, and its body was read.
    Answered(UpstreamResponse),
    /// The request could not be sent, or no answer came; with the failure's words.
    SendFailed(Vec<u8>),
    /// An answer came, but its body could not be read; with the failure's words.
    BodyFailed(Vec<u8>),
}

pub enum EventView {
    Answered(ResponseView),
    SendFailed(Seq<u8>),
    BodyFailed(Seq<u8>),
}

impl View for Event {
    type V = EventView;

    open spec fn view(&self) -> EventView {
        match self {
            Event::Answered(response) => EventView::Answered(response@),
            Event::SendFailed(words) => EventView::SendFailed(words@),
            Event::BodyFailed(words) => EventView::BodyFailed(words@),
        }
    }
}

/// What the caller does next.
pub enum Step {
    /// Send the exchange's request and report the outcome.
    Send(Exchange),
    /// Answer the inbound request with this; the exchange is over.
    Respond(ProxyResponse),
}

pub enum StepView {
    Send(ExchangeView),
    Respond(ResponseView),
}

impl View for Step {
    type V = StepView;

    open spec fn view(&self) -> StepView {
        match self {
            Step::Send(exchange) => StepView::Send(exchange@),
            Step::Respond(response) => StepView::Respond(response@),
        }
    }
}

/// The first step for a request that arrives at `now`: while the breaker
/// fast-fails, the answer that the upstream is unavailable; else the request
/// mirrored towards the upstream.
pub open spec fn first_step(
    base: Seq<u8>,
    breaker: CircuitBreaker,
    page: Seq<u8>,
    now: u64,
    method: Seq<u8>,
    path: Seq<u8>,
    query: Seq<u8>,
    headers: Seq<HeaderView>,
    body: Seq<u8>,
) -> StepView {
    if breaker.fast_fails_at(now) {
        StepView::Respond(service_unavailable(api_prefix().is_prefix_of(path), page))
    } else {
        StepView::Send(
            ExchangeView {
                path,
                request: mirrored(method, target_url(base, path, query), headers, body),
                attempt: Attempt::First,
            },
        )
    }
}

/// Whether a failed send is tried again over plain HTTP: only the first
/// attempt, only towards an `https://` URL, and only where the failure is
/// not a connection failure.
pub open spec fn falls_back(exchange: ExchangeView, connection: bool) -> bool {
    &&& exchange.attempt == Attempt::First
    &&& https_scheme().is_prefix_of(exchange.request.url)
    &&& !connection
}

/// The exchange that follows a first attempt which falls back.
pub open spec fn fallback_of(exchange: ExchangeView) -> ExchangeView {
    ExchangeView {
        path: exchange.path,
        request: OutboundRequestView {
            url: replace_all(exchange.request.url, https_scheme(), http_scheme()),
            ..exchange.request
        },
        attempt: Attempt::Fallback,
    }
}

/// The answer to a request whose forwarding has failed for good, and the
/// breaker after it: a connection failure is answered as
/// `UpstreamUnavailable` and opens the breaker, any other failure is
/// answered as `UpstreamError` and leaves the breaker as it is.
pub open spec fn failed_step(
    path: Seq<u8>,
    connection: bool,
    words: Seq<u8>,
    breaker: CircuitBreaker,
    page: Seq<u8>,
    now: u64,
) -> (StepView, CircuitBreaker) {
    (
        StepView::Respond(
            response_for(failure_kind(connection), api_prefix().is_prefix_of(path), page, words),
        ),
        if connection {
            breaker.after_failure(now)
        } else {
            breaker
        },
    )
}

/// The step that follows an outcome, and the breaker after it.
pub open spec fn next_step(
    exchange: ExchangeView,
    event: EventView,
    breaker: CircuitBreaker,
    payload: InjectionPayloadView,
    page: Seq<u8>,
    now: u64,
) -> (StepView, CircuitBreaker) {
    match event {
        EventView::Answered(response) => (
            StepView::Respond(page_response(payload, exchange.path, response)),
            breaker.after_success(),
        ),
        EventView::SendFailed(words) => if falls_back(exchange, is_connection_failure(words)) {
            (StepView::Send(fallback_of(exchange)), breaker)
        } else {
            failed_step(
                exchange.path,
                is_connection_failure(words),
                words,
                breaker,
                page,
                now,
            )
        },
        EventView::BodyFailed(words) => failed_step(
            exchange.path,
            is_connection_failure(words),
            words,
            breaker,
            page,
            now,
        ),
    }
}

/// Whether words in lower case speak of a failed connection.
pub fn mentions_connection_failure(lowered: &[u8]) -> (r: bool)
    ensures
        r == is_connection_message(lowered@),
{
    contains_bytes(lowered, "connection".as_bytes()) || contains_bytes(
        lowered,
        "refused".as_bytes(),
    ) || contains_bytes(lowered, "timed out".as_bytes()) || contains_bytes(
        lowered,
        "timeout".as_bytes(),
    ) || contains_bytes(lowered, "unreachable".as_bytes()) || contains_bytes(
        lowered,
        "error sending request".as_bytes(),
    ) || contains_bytes(lowered, "network".as_bytes()) || contains_bytes(
        lowered,
        "dns".as_bytes(),
    )
}

/// Whether a failure with these words counts as a connection failure.
pub fn is_connection_error(error: &[u8]) -> (r: bool)
    ensures
        r == is_connection_failure(error@),
{
    let lowered = to_lowercase(error);
    mentions_connection_failure(lowered.as_slice())
}

/// Takes up a request of the main lane that arrives at `now`.
pub fn begin_main_request(
    target: &TargetRegistry,
    breaker: &mut CircuitBreaker,
    unavailable_page: &[u8],
    now: u64,
    method: &[u8],
    path: &[u8],
    query: &[u8],
    headers: &Vec<Header>,
    body: Vec<u8>,
) -> (step: Step)
    ensures
        step@ == first_step(
            target@,
            *old(breaker),
            unavailable_page@,
            now,
            method@,
            path@,
            query@,
            view_all(headers@),
            body@,
        ),
        *final(breaker) == old(breaker).after_check(now),
{
    let url = target.url_for(path, query);
    if breaker.should_fast_fail(now) {
        return Step::Respond(service_unavailable_response(is_api_request(path), unavailable_page));
    }
    Step::Send(
        Exchange {
            path: copy_of(path),
            request: mirror_request(method, url, headers, body),
            attempt: Attempt::First,
        },
    )
}

/// Ends an exchange whose forwarding has failed for good.
pub fn fail_exchange(
    path: &[u8],
    connection: bool,
    words: &[u8],
    breaker: &mut CircuitBreaker,
    unavailable_page: &[u8],
    now: u64,
) -> (step: Step)
    ensures
        (step@, *final(breaker)) == failed_step(
            path@,
            connection,
            words@,
            *old(breaker),
            unavailable_page@,
            now,
        ),
{
    let kind = if connection {
        breaker.mark_unavailable(now);
        RequestError::UpstreamUnavailable
    } else {
        RequestError::UpstreamError
    };
    Step::Respond(error_response(kind, is_api_request(path), unavailable_page, words))
}

/// Takes the outcome `event` of sending `exchange`'s request, at `now`, and
/// says what to do next.
pub fn advance(
    exchange: Exchange,
    event: Event,
    breaker: &mut CircuitBreaker,
    payload: &InjectionPayload,
    unavailable_page: &[u8],
    now: u64,
) -> (step: Step)
    ensures
        (step@, *final(breaker)) == next_step(
            exchange@,
            event@,
            *old(breaker),
            payload@,
            unavailable_page@,
            now,
        ),
{
    match event {
        Event::Answered(response) => {
            breaker.mark_available();
            Step::Respond(transform_response(payload, exchange.path.as_slice(), response))
        },
        Event::SendFailed(words) => {
            let connection = is_connection_error(words.as_slice());
            let retry = match exchange.attempt {
                Attempt::First => !connection && starts_with(
                    exchange.request.url.as_slice(),
                    "https://".as_bytes(),
                ),
                Attempt::Fallback => false,
            };
            if retry {
                let url = replaced(
                    exchange.request.url.as_slice(),
                    "https://".as_bytes(),
                    "http://".as_bytes(),
                );
                Step::Send(
                    Exchange {
                        path: exchange.path,
                        request: OutboundRequest {
                            method: exchange.request.method,
                            url,
                            headers: exchange.request.headers,
                            body: exchange.request.body,
                        },
                        attempt: Attempt::Fallback,
                    },
                )
            } else {
                fail_exchange(
                    exchange.path.as_slice(),
                    connection,
                    words.as_slice(),
                    breaker,
                    unavailable_page,
                    now,
                )
            }
        },
        Event::BodyFailed(words) => {
            let connection = is_connection_error(words.as_slice());
            fail_exchange(
                exchange.path.as_slice(),
                connection,
                words.as_slice(),
                breaker,
                unavailable_page,
                now,
            )
        },
    }
}

/// While the breaker fast-fails, a request is answered with status 503 and
/// nothing is sent; the breaker stays as it is.
pub proof fn lemma_open_breaker_sends_nothing(
    base: Seq<u8>,
    breaker: CircuitBreaker,
    page: Seq<u8>,
    now: u64,
    method: Seq<u8>,
    path: Seq<u8>,
    query: Seq<u8>,
    headers: Seq<HeaderView>,
    body: Seq<u8>,
)
    requires
        breaker.fast_fails_at(now),
    ensures
        first_step(base, breaker, page, now, method, path, query, headers, body) matches StepView::Respond(
            response,
        ) && response.status == 503,
        breaker.after_check(now) == breaker,
{
}

/// A request that finds the breaker closed, or its cooldown over, is sent to
/// the upstream once, with the method, headers and body that `mirrored` gives.
pub proof fn lemma_closed_breaker_sends(
    base: Seq<u8>,
    breaker: CircuitBreaker,
    page: Seq<u8>,
    now: u64,
    method: Seq<u8>,
    path: Seq<u8>,
    query: Seq<u8>,
    headers: Seq<HeaderView>,
    body: Seq<u8>,
)
    requires
        !breaker.fast_fails_at(now),
    ensures
        first_step(base, breaker, page, now, method, path, query, headers, body) matches StepView::Send(
            exchange,
        ) && exchange.attempt == Attempt::First && exchange.request == mirrored(
            method,
            target_url(base, path, query),
            headers,
            body,
        ),
        breaker.after_check(now).available,
{
}

/// When the upstream answers, the caller gets the upstream's status, and
/// the upstream's body: byte for byte where nothing is injected, and with
/// the block set into it where something is. The breaker is closed.
pub proof fn lemma_answer_is_passed_on(
    exchange: ExchangeView,
    response: ResponseView,
    breaker: CircuitBreaker,
    payload: InjectionPayloadView,
    page: Seq<u8>,
    now: u64,
)
    ensures
        ({
            let (step, after) = next_step(
                exchange,
                EventView::Answered(response),
                breaker,
                payload,
                page,
                now,
            );
            &&& step matches StepView::Respond(answer)
            &&& answer.status == response.status
            &&& !is_injected(exchange.path, response) ==> answer.body == response.body
            &&& is_injected(exchange.path, response) ==> answer.body == with_block(
                payload,
                response.body,
            )
            &&& after.available
        }),
{
}

/// A connection failure is never tried again: the caller is answered with
/// status 503 and the breaker is open from `now` on.
pub proof fn lemma_connection_failure_opens_breaker(
    exchange: ExchangeView,
    words: Seq<u8>,
    breaker: CircuitBreaker,
    payload: InjectionPayloadView,
    page: Seq<u8>,
    now: u64,
)
    requires
        is_connection_failure(words),
    ensures
        ({
            let (step, after) = next_step(
                exchange,
                EventView::SendFailed(words),
                breaker,
                payload,
                page,
                now,
            );
            &&& step matches StepView::Respond(answer)
            &&& answer.status == 503
            &&& after == breaker.after_failure(now)
            &&& after.fast_fails_at(now)
        }),
{
}

/// The fallback is the last attempt: whatever comes of it, the exchange ends.
pub proof fn lemma_fallback_is_final(
    exchange: ExchangeView,
    event: EventView,
    breaker: CircuitBreaker,
    payload: InjectionPayloadView,
    page: Seq<u8>,
    now: u64,
)
    requires
        exchange.attempt == Attempt::Fallback,
    ensures
        next_step(exchange, event, breaker, payload, page, now).0 is Respond,
{
}

/// A failure that is no connection failure leaves the breaker as it is.
pub proof fn lemma_other_failure_keeps_breaker(
    exchange: ExchangeView,
    words: Seq<u8>,
    breaker: CircuitBreaker,
    payload: InjectionPayloadView,
    page: Seq<u8>,
    now: u64,
)
    requires
        !is_connection_failure(words),
    ensures
        next_step(exchange, EventView::SendFailed(words), breaker, payload, page, now).1
            == breaker,
        next_step(exchange, EventView::BodyFailed(words), breaker, payload, page, now).1
            == breaker,
        next_step(exchange, EventView::BodyFailed(words), breaker, payload, page, now).0 matches StepView::Respond(
            answer,
        ) && answer.status == 502,
{
}

/// After a connection failure at `failed_at`, a request that arrives less
/// than the cooldown later is answered with status 503 and nothing is sent;
/// a request that arrives at or after the end of the cooldown is sent once,
/// and if that attempt ends in a connection failure too, it is not repeated.
pub proof fn lemma_failed_upstream_is_probed_once(
    exchange: ExchangeView,
    words: Seq<u8>,
    breaker: CircuitBreaker,
    payload: InjectionPayloadView,
    page: Seq<u8>,
    failed_at: u64,
    now: u64,
    base: Seq<u8>,
    method: Seq<u8>,
    path: Seq<u8>,
    query: Seq<u8>,
    headers: Seq<HeaderView>,
    body: Seq<u8>,
)
    requires
        is_connection_failure(words),
        failed_at <= now,
    ensures
        ({
            let open = next_step(
                exchange,
                EventView::SendFailed(words),
                breaker,
                payload,
                page,
                failed_at,
            ).1;
            let step = first_step(base, open, page, now, method, path, query, headers, body);
            &&& now - failed_at < crate::breaker::COOLDOWN_SECS ==> {
                &&& step matches StepView::Respond(answer)
                &&& answer.status == 503
                &&& open.after_check(now) == open
            }
            &&& now - failed_at >= crate::breaker::COOLDOWN_SECS ==> {
                &&& step matches StepView::Send(probe)
                &&& probe.attempt == Attempt::First
                &&& next_step(
                    probe,
                    EventView::SendFailed(words),
                    open.after_check(now),
                    payload,
                    page,
                    now,
                ).0 is Respond
                &&& next_step(
                    probe,
                    EventView::SendFailed(words),
                    open.after_check(now),
                    payload,
                    page,
                    now,
                ).1.fast_fails_at(now)
            }
        }),
{
}

} // verus!
