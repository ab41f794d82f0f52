//! The listener binder: which port the proxy's own listener takes.
//!
//! The ports of a fixed range are tried in ascending order and the first
//! that can be bound is kept. Binding itself is done by the caller, who asks
//! for the next candidate and reports how the attempt went.

use crate::text::{copy_of, decimal, push_decimal};
use vstd::prelude::*;
use vstd::string::StringSliceAdditionalSpecFns;

verus! {

/// First port of the range that the proxy listens in.
pub const PROXY_PORT_START: u16 = 48081;

/// Last port of that range.
pub const PROXY_PORT_END: u16 = 48090;

/// Where the search for a port stands.
#[derive(Clone, Copy, PartialEq, Eq, Structural, Debug)]
pub enum BindState {
    /// `candidate` is the next port to try.
    Probing { candidate: u16 },
    /// The listener is bound to `port`.
    Bound { port: u16 },
    /// Every port of the range was tried and none could be bound.
    Exhausted,
}

/// No port of the range `first..=last` could be bound.
#[derive(Clone, Copy, PartialEq, Eq, Structural, Debug)]
pub struct BindExhausted {
    pub first: u16,
    pub last: u16,
}

/// The words in which an exhausted range is reported.
pub open spec fn exhausted_words(error: BindExhausted) -> Seq<u8> {
    "无法绑定端口 ".spec_bytes() + decimal(error.first as nat) + seq![45u8] + decimal(
        error.last as nat,
    )
}

impl BindExhausted {
    /// The words in which the error is reported: they name the range.
    pub fn message(&self) -> (words: Vec<u8>)
        ensures
            words@ == exhausted_words(*self),
    {
        let mut words = copy_of("无法绑定端口 ".as_bytes());
        push_decimal(&mut words, self.first as u64);
        words.push(45);
        push_decimal(&mut words, self.last as u64);
        words
    }
}

/// The search for a port in the range `first..=last`.
#[derive(Clone, Copy, PartialEq, Eq, Structural, Debug)]
pub struct ListenerBinder {
    pub first: u16,
    pub last: u16,
    pub state: BindState,
}

/// The state in which the search over `first..=last` begins.
pub open spec fn initial_state(first: u16, last: u16) -> BindState {
    if first <= last {
        BindState::Probing { candidate: first }
    } else {
        BindState::Exhausted
    }
}

/// The state after the attempt on the current candidate has failed.
pub open spec fn after_bind_failure(last: u16, state: BindState) -> BindState {
    match state {
        BindState::Probing { candidate } => if candidate < last {
            BindState::Probing { candidate: (candidate + 1) as u16 }
        } else {
            BindState::Exhausted
        },
        _ => state,
    }
}

/// The state after the attempt on the current candidate has succeeded.
pub open spec fn after_bind_success(state: BindState) -> BindState {
    match state {
        BindState::Probing { candidate } => BindState::Bound { port: candidate },
        _ => state,
    }
}

/// Where the search ends when exactly the ports in `free` can be bound.
pub open spec fn search(last: u16, state: BindState, free: Set<u16>) -> BindState
    decreases
            (match state {
                BindState::Probing { candidate } => last - candidate + 1,
                _ => 0,
            }),
{
    match state {
        BindState::Probing { candidate } => if candidate > last {
            BindState::Exhausted
        } else if free.contains(candidate) {
            after_bind_success(state)
        } else {
            search(last, after_bind_failure(last, state), free)
        },
        _ => state,
    }
}

/// The URL under which a proxy listening on `port` is reached.
pub open spec fn proxy_url(port: u16) -> Seq<u8> {
    "http://127.0.0.1:".spec_bytes() + decimal(port as nat)
}

impl ListenerBinder {
    /// What holds of every binder that `new` or `with_range` made, whatever
    /// was reported to it: the candidate or bound port lies in the range.
    pub open spec fn wf(self) -> bool {
        match self.state {
            BindState::Probing { candidate } => self.first <= candidate <= self.last,
            BindState::Bound { port } => self.first <= port <= self.last,
            BindState::Exhausted => true,
        }
    }

    /// The port that callers are told: the bound one, and the first of the
    /// range as long as none is bound.
    pub open spec fn published(self) -> u16 {
        match self.state {
            BindState::Bound { port } => port,
            _ => self.first,
        }
    }

    /// A search over the standard range.
    pub fn new() -> (binder: ListenerBinder)
        ensures
            binder == (ListenerBinder {
                first: PROXY_PORT_START,
                last: PROXY_PORT_END,
                state: BindState::Probing { candidate: PROXY_PORT_START },
            }),
            binder.wf(),
    {
        ListenerBinder::with_range(PROXY_PORT_START, PROXY_PORT_END)
    }

    /// A search over `first..=last`. An empty range is exhausted from the start.
    pub fn with_range(first: u16, last: u16) -> (binder: ListenerBinder)
        ensures
            binder == (ListenerBinder { first, last, state: initial_state(first, last) }),
            binder.wf(),
    {
        let state = if first <= last {
            BindState::Probing { candidate: first }
        } else {
            BindState::Exhausted
        };
        ListenerBinder { first, last, state }
    }

    /// The port to try next; `None` once a port is bound or the range is exhausted.
    pub fn candidate(&self) -> (port: Option<u16>)
        ensures
            port == (match self.state {
                BindState::Probing { candidate } => Some(candidate),
                _ => None::<u16>,
            }),
    {
        match self.state {
            BindState::Probing { candidate } => Some(candidate),
            _ => None,
        }
    }

    /// Reports that the current candidate could not be bound.
    pub fn bind_failed(&mut self)
        ensures
            *final(self) == (ListenerBinder {
                state: after_bind_failure(old(self).last, old(self).state),
                ..*old(self)
            }),
            old(self).wf() ==> final(self).wf(),
    {
        match self.state {
            BindState::Probing { candidate } => {
                if candidate < self.last {
                    self.state = BindState::Probing { candidate: candidate + 1 };
                } else {
                    self.state = BindState::Exhausted;
                }
            },
            _ => {},
        }
    }

    /// Reports that the current candidate was bound.
    pub fn bind_succeeded(&mut self)
        ensures
            *final(self) == (ListenerBinder {
                state: after_bind_success(old(self).state),
                ..*old(self)
            }),
            old(self).wf() ==> final(self).wf(),
    {
        match self.state {
            BindState::Probing { candidate } => {
                self.state = BindState::Bound { port: candidate };
            },
            _ => {},
        }
    }

    /// How the search ended: the bound port, or the range that was exhausted;
    /// `None` while it is still going on.
    pub fn outcome(&self) -> (outcome: Option<Result<u16, BindExhausted>>)
        ensures
            outcome == (match self.state {
                BindState::Probing { .. } => None::<Result<u16, BindExhausted>>,
                BindState::Bound { port } => Some(Ok::<u16, BindExhausted>(port)),
                BindState::Exhausted => Some(
                    Err::<u16, BindExhausted>(
                        BindExhausted { first: self.first, last: self.last },
                    ),
                ),
            }),
    {
        match self.state {
            BindState::Probing { .. } => None,
            BindState::Bound { port } => Some(Ok(port)),
            BindState::Exhausted => Some(Err(BindExhausted { first: self.first, last: self.last })),
        }
    }
}

/// The port that the proxy listens on, for callers that build URLs from it.
pub fn get_proxy_port(binder: &ListenerBinder) -> (port: u16)
    ensures
        port == binder.published(),
{
    match binder.state {
        BindState::Bound { port } => port,
        _ => binder.first,
    }
}

/// The URL under which the proxy is reached.
pub fn get_proxy_url(binder: &ListenerBinder) -> (url: Vec<u8>)
    ensures
        url@ == proxy_url(binder.published()),
{
    let mut url = copy_of("http://127.0.0.1:".as_bytes());
    push_decimal(&mut url, get_proxy_port(binder) as u64);
    url
}

/// Once a port is bound, or the range is exhausted, no report changes the outcome.
pub proof fn lemma_outcome_is_final(last: u16, state: BindState)
    requires
        !(state is Probing),
    ensures
        after_bind_failure(last, state) == state,
        after_bind_success(state) == state,
{
}

/// The search binds the lowest port of the range that is free, and is
/// exhausted exactly when no port of the range is free.
pub proof fn lemma_search_binds_lowest_free(first: u16, last: u16, free: Set<u16>)
    ensures
        match search(last, initial_state(first, last), free) {
            BindState::Bound { port } => {
                &&& first <= port <= last
                &&& free.contains(port)
                &&& forall|lower: u16| first <= lower < port ==> !free.contains(lower)
            },
            BindState::Exhausted => forall|port: u16| first <= port <= last ==> !free.contains(port),
            BindState::Probing { .. } => false,
        },
{
    if first <= last {
        lemma_search_from(first, last, first, free);
    }
}

proof fn lemma_search_from(first: u16, last: u16, candidate: u16, free: Set<u16>)
    requires
        first <= candidate <= last,
        forall|lower: u16| first <= lower < candidate ==> !free.contains(lower),
    ensures
        match search(last, BindState::Probing { candidate }, free) {
            BindState::Bound { port } => {
                &&& first <= port <= last
                &&& free.contains(port)
                &&& forall|lower: u16| first <= lower < port ==> !free.contains(lower)
            },
            BindState::Exhausted => forall|port: u16| first <= port <= last ==> !free.contains(port),
            BindState::Probing { .. } => false,
        },
    decreases last - candidate,
{
    let here = BindState::Probing { candidate };
    if free.contains(candidate) {
        assert(search(last, here, free) == BindState::Bound { port: candidate });
    } else if candidate < last {
        lemma_search_from(first, last, (candidate + 1) as u16, free);
        assert(search(last, here, free) == search(
            last,
            BindState::Probing { candidate: (candidate + 1) as u16 },
            free,
        ));
    } else {
        assert(after_bind_failure(last, here) == BindState::Exhausted);
        assert(search(last, BindState::Exhausted, free) == BindState::Exhausted);
        assert(search(last, here, free) == BindState::Exhausted);
    }
}

} // verus!
