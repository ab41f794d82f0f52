//! The request router: which lane a request takes, and whether it is let in.

use crate::bypass::{
    bypass_prefix, named_target, parse_external_proxy_url, parts_allowed, DomainAllowlist,
};
use crate::errors::RequestError;
use crate::outside::{query_pairs, url_parts};
use crate::text::starts_with;
use crate::third_party::{grid_prefix, steam_api_target, store_prefix, third_party_target};
use vstd::prelude::*;
use vstd::string::StringSliceAdditionalSpecFns;

verus! {

/// The three ways in which a request is handled.
#[derive(Clone, Copy, PartialEq, Eq, Structural, Debug)]
pub enum Lane {
    /// Relayed to a host that the caller names, if it is on the allowlist.
    Bypass,
    /// Relayed to one of the fixed external APIs.
    ThirdParty,
    /// Forwarded to the upstream.
    Main,
}

pub open spec fn api_prefix() -> Seq<u8> {
    "/api/".spec_bytes()
}

/// The lane of a path: the first of bypass, third-party and main whose prefix matches.
pub open spec fn lane_of(path: Seq<u8>) -> Lane {
    if bypass_prefix().is_prefix_of(path) {
        Lane::Bypass
    } else if store_prefix().is_prefix_of(path) || grid_prefix().is_prefix_of(path) {
        Lane::ThirdParty
    } else {
        Lane::Main
    }
}

/// Whether failures are reported to this path as JSON.
pub fn is_api_request(path: &[u8]) -> (r: bool)
    ensures
        r == api_prefix().is_prefix_of(path@),
{
    starts_with(path, "/api/".as_bytes())
}

pub fn is_external_proxy_request(path: &[u8]) -> (r: bool)
    ensures
        r == bypass_prefix().is_prefix_of(path@),
{
    starts_with(path, "/_proxy/".as_bytes())
}

pub fn is_steam_api_request(path: &[u8]) -> (r: bool)
    ensures
        r == (store_prefix().is_prefix_of(path@) || grid_prefix().is_prefix_of(path@)),
{
    starts_with(path, "/steam-store/".as_bytes()) || starts_with(path, "/steamgriddb/".as_bytes())
}

pub fn classify(path: &[u8]) -> (lane: Lane)
    ensures
        lane == lane_of(path@),
{
    if is_external_proxy_request(path) {
        Lane::Bypass
    } else if is_steam_api_request(path) {
        Lane::ThirdParty
    } else {
        Lane::Main
    }
}

/// What the router decides before anything is read or sent.
pub enum Admission {
    /// Forward to the upstream.
    Main,
    /// Relay to `target` on the given lane.
    Relay { lane: Lane, target: Vec<u8> },
    /// Answer with this error; nothing is sent anywhere.
    Refused(RequestError),
}

pub enum AdmissionView {
    Main,
    Relay { lane: Lane, target: Seq<u8> },
    Refused(RequestError),
}

impl View for Admission {
    type V = AdmissionView;

    open spec fn view(&self) -> AdmissionView {
        match self {
            Admission::Main => AdmissionView::Main,
            Admission::Relay { lane, target } => AdmissionView::Relay {
                lane: *lane,
                target: target@,
            },
            Admission::Refused(error) => AdmissionView::Refused(*error),
        }
    }
}

/// The decision on a request. A bypass request is refused as
/// `BadProxyRequest` where it names no target, and as `ForbiddenTarget` where
/// the target is no absolute URL with a host on the allowlist.
pub open spec fn admission(domains: Seq<Seq<u8>>, path: Seq<u8>, query: Seq<u8>) -> AdmissionView {
    match lane_of(path) {
        Lane::Bypass => match named_target(path, query, query_pairs(query)) {
            None => AdmissionView::Refused(RequestError::BadProxyRequest),
            Some(target) => if parts_allowed(domains, url_parts(target)) {
                AdmissionView::Relay { lane: Lane::Bypass, target }
            } else {
                AdmissionView::Refused(RequestError::ForbiddenTarget)
            },
        },
        Lane::ThirdParty => AdmissionView::Relay {
            lane: Lane::ThirdParty,
            target: third_party_target(path, query)->0,
        },
        Lane::Main => AdmissionView::Main,
    }
}

/// Decides on a request from its path and query alone.
pub fn route(allowlist: &DomainAllowlist, path: &[u8], query: &[u8]) -> (decision: Admission)
    ensures
        decision@ == admission(allowlist@, path@, query@),
{
    match classify(path) {
        Lane::Bypass => match parse_external_proxy_url(path, query) {
            None => Admission::Refused(RequestError::BadProxyRequest),
            Some(target) => if allowlist.allows_url(target.as_slice()) {
                Admission::Relay { lane: Lane::Bypass, target }
            } else {
                Admission::Refused(RequestError::ForbiddenTarget)
            },
        },
        Lane::ThirdParty => match steam_api_target(path, query) {
            Some(target) => Admission::Relay { lane: Lane::ThirdParty, target },
            None => Admission::Refused(RequestError::BadProxyRequest),
        },
        Lane::Main => Admission::Main,
    }
}

/// A request is relayed on the bypass lane only to a URL whose host is on
/// the allowlist; every other bypass request is refused.
pub proof fn lemma_bypass_reaches_only_allowed(
    domains: Seq<Seq<u8>>,
    path: Seq<u8>,
    query: Seq<u8>,
)
    requires
        bypass_prefix().is_prefix_of(path),
    ensures
        match admission(domains, path, query) {
            AdmissionView::Relay { lane, target } => lane == Lane::Bypass && parts_allowed(
                domains,
                url_parts(target),
            ),
            AdmissionView::Refused(error) => error == RequestError::BadProxyRequest || error
                == RequestError::ForbiddenTarget,
            AdmissionView::Main => false,
        },
{
}

} // verus!
