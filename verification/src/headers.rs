//! Header lists and the rules by which each lane copies them.

use crate::text::{ascii_lower, bytes_eq, copy_of, starts_with, to_ascii_lower};
use vstd::prelude::*;
use vstd::string::StringSliceAdditionalSpecFns;

verus! {

/// One header line: a name and a value, both as they came over the wire.
pub struct Header {
    pub name: Vec<u8>,
    pub value: Vec<u8>,
}

pub struct HeaderView {
    pub name: Seq<u8>,
    pub value: Seq<u8>,
}

impl View for Header {
    type V = HeaderView;

    open spec fn view(&self) -> HeaderView {
        HeaderView { name: self.name@, value: self.value@ }
    }
}

/// The views of a list of headers, in order.
pub open spec fn view_all(headers: Seq<Header>) -> Seq<HeaderView> {
    Seq::new(headers.len(), |i: int| headers[i]@)
}

/// The rule by which a lane copies headers from one message to the next.
#[derive(Clone, Copy, PartialEq, Eq, Structural)]
pub enum CopyRule {
    /// Inbound request to outbound request.
    Outbound,
    /// Third-party response back to the caller, before the fixed CORS headers are added.
    Relay,
    /// Upstream response back to the caller; `rewritten` says whether the
    /// transformer has set its block into the page.
    Page { rewritten: bool },
}

/// Names that describe the connection to this proxy, not the request.
pub open spec fn is_hop_name(lowered: Seq<u8>) -> bool {
    ||| lowered == "host".spec_bytes()
    ||| lowered == "connection".spec_bytes()
    ||| lowered == "content-length".spec_bytes()
    ||| lowered == "transfer-encoding".spec_bytes()
}

/// Names that describe how the upstream framed a body that is re-framed here.
pub open spec fn is_framing_name(lowered: Seq<u8>) -> bool {
    ||| lowered == "content-length".spec_bytes()
    ||| lowered == "transfer-encoding".spec_bytes()
    ||| lowered == "content-encoding".spec_bytes()
}

/// Names by which a cache would recognise the page as it was before rewriting.
pub open spec fn is_cache_name(lowered: Seq<u8>) -> bool {
    ||| lowered == "cache-control".spec_bytes()
    ||| lowered == "etag".spec_bytes()
    ||| lowered == "last-modified".spec_bytes()
    ||| lowered == "expires".spec_bytes()
}

/// Names that a relayed response may not carry: the proxy sets its own CORS headers.
pub open spec fn is_cors_name(lowered: Seq<u8>) -> bool {
    ||| "access-control-".spec_bytes().is_prefix_of(lowered)
    ||| lowered == "transfer-encoding".spec_bytes()
}

/// The name of a header in ASCII lower case.
pub open spec fn ascii_lower_name(header: HeaderView) -> Seq<u8> {
    ascii_lower(header.name)
}

/// Whether `rule` copies `header`. Names are compared without regard to ASCII case.
pub open spec fn keeps(rule: CopyRule, header: HeaderView) -> bool {
    let lowered = ascii_lower_name(header);
    match rule {
        CopyRule::Outbound => !is_hop_name(lowered),
        CopyRule::Relay => !is_cors_name(lowered),
        CopyRule::Page { rewritten } => !is_framing_name(lowered) && !(rewritten && is_cache_name(
            lowered,
        )),
    }
}

/// The headers of `headers` that `rule` copies, in their order.
pub open spec fn copied(rule: CopyRule, headers: Seq<HeaderView>) -> Seq<HeaderView> {
    headers.filter(|header: HeaderView| keeps(rule, header))
}

/// The value of the first header called `name` (a lower-case name), if there is one.
pub open spec fn first_value(headers: Seq<HeaderView>, name: Seq<u8>) -> Option<Seq<u8>>
    decreases headers.len(),
{
    if headers.len() == 0 {
        None
    } else if ascii_lower(headers[0].name) == name {
        Some(headers[0].value)
    } else {
        first_value(headers.drop_first(), name)
    }
}

impl Header {
    pub fn new(name: &[u8], value: &[u8]) -> (header: Header)
        ensures
            header@ == (HeaderView { name: name@, value: value@ }),
    {
        Header { name: copy_of(name), value: copy_of(value) }
    }

    pub fn duplicate(&self) -> (copy: Header)
        ensures
            copy@ == self@,
    {
        Header { name: copy_of(self.name.as_slice()), value: copy_of(self.value.as_slice()) }
    }
}

fn is_hop(lowered: &[u8]) -> (r: bool)
    ensures
        r == is_hop_name(lowered@),
{
    bytes_eq(lowered, "host".as_bytes()) || bytes_eq(lowered, "connection".as_bytes()) || bytes_eq(
        lowered,
        "content-length".as_bytes(),
    ) || bytes_eq(lowered, "transfer-encoding".as_bytes())
}

fn is_framing(lowered: &[u8]) -> (r: bool)
    ensures
        r == is_framing_name(lowered@),
{
    bytes_eq(lowered, "content-length".as_bytes()) || bytes_eq(
        lowered,
        "transfer-encoding".as_bytes(),
    ) || bytes_eq(lowered, "content-encoding".as_bytes())
}

fn is_cache(lowered: &[u8]) -> (r: bool)
    ensures
        r == is_cache_name(lowered@),
{
    bytes_eq(lowered, "cache-control".as_bytes()) || bytes_eq(lowered, "etag".as_bytes())
        || bytes_eq(lowered, "last-modified".as_bytes()) || bytes_eq(lowered, "expires".as_bytes())
}

fn is_cors(lowered: &[u8]) -> (r: bool)
    ensures
        r == is_cors_name(lowered@),
{
    starts_with(lowered, "access-control-".as_bytes()) || bytes_eq(
        lowered,
        "transfer-encoding".as_bytes(),
    )
}

/// Whether `rule` copies `header`.
pub fn keeps_header(rule: CopyRule, header: &Header) -> (r: bool)
    ensures
        r == keeps(rule, header@),
{
    let lowered = to_ascii_lower(header.name.as_slice());
    match rule {
        CopyRule::Outbound => !is_hop(lowered.as_slice()),
        CopyRule::Relay => !is_cors(lowered.as_slice()),
        CopyRule::Page { rewritten } => !is_framing(lowered.as_slice()) && !(rewritten && is_cache(
            lowered.as_slice(),
        )),
    }
}

/// Copies the headers that `rule` lets through, in their order.
pub fn copy_headers(rule: CopyRule, headers: &Vec<Header>) -> (out: Vec<Header>)
    ensures
        view_all(out@) == copied(rule, view_all(headers@)),
{
    let ghost keep = |header: HeaderView| keeps(rule, header);
    let mut out: Vec<Header> = Vec::new();
    let mut i: usize = 0;
    proof {
        reveal(Seq::filter);
        assert(view_all(headers@).take(0) =~= Seq::<HeaderView>::empty());
        assert(view_all(out@) =~= Seq::<HeaderView>::empty());
    }
    while i < headers.len()
        invariant
            i <= headers.len(),
            keep == |header: HeaderView| keeps(rule, header),
            view_all(out@) == view_all(headers@).take(i as int).filter(keep),
        decreases headers.len() - i,
    {
        let ghost seen = view_all(headers@).take(i as int);
        let ghost next = view_all(headers@).take(i + 1);
        let ghost before = view_all(out@);
        proof {
            reveal(Seq::filter);
            assert(next.drop_last() =~= seen);
            assert(next.last() == headers@[i as int]@);
        }
        if keeps_header(rule, &headers[i]) {
            out.push(headers[i].duplicate());
            assert(view_all(out@) =~= before.push(headers@[i as int]@));
        }
        i += 1;
    }
    assert(view_all(headers@).take(headers@.len() as int) =~= view_all(headers@));
    out
}

/// The value of the first header called `name`, which is given in lower case.
pub fn find_value<'a>(headers: &'a Vec<Header>, name: &[u8]) -> (r: Option<&'a Vec<u8>>)
    ensures
        r is Some == first_value(view_all(headers@), name@) is Some,
        r matches Some(value) ==> first_value(view_all(headers@), name@) == Some(value@),
{
    let mut i: usize = 0;
    assert(view_all(headers@).skip(0) =~= view_all(headers@));
    while i < headers.len()
        invariant
            i <= headers.len(),
            first_value(view_all(headers@), name@) == first_value(
                view_all(headers@).skip(i as int),
                name@,
            ),
        decreases headers.len() - i,
    {
        let ghost rest = view_all(headers@).skip(i as int);
        assert(rest[0] == headers@[i as int]@);
        assert(rest.drop_first() =~= view_all(headers@).skip(i + 1));
        let lowered = to_ascii_lower(headers[i].name.as_slice());
        if bytes_eq(lowered.as_slice(), name) {
            return Some(&headers[i].value);
        }
        i += 1;
    }
    None
}

/// Every header that a rule copies satisfies the rule, and every header that
/// satisfies it is copied.
pub proof fn lemma_copied_exactly(rule: CopyRule, headers: Seq<HeaderView>)
    ensures
        forall|i: int|
            0 <= i < copied(rule, headers).len() ==> keeps(rule, #[trigger] copied(rule, headers)[i])
                && headers.contains(copied(rule, headers)[i]),
        forall|i: int|
            0 <= i < headers.len() && keeps(rule, headers[i]) ==> copied(rule, headers).contains(
                #[trigger] headers[i],
            ),
{
    let keep = |header: HeaderView| keeps(rule, header);
    broadcast use vstd::seq_lib::group_filter_ensures;
    assert(headers.filter(keep).len() <= headers.len());
    assert forall|i: int| 0 <= i < copied(rule, headers).len() implies headers.contains(
        #[trigger] copied(rule, headers)[i],
    ) by {
        let kept = copied(rule, headers)[i];
        assert(headers.filter(keep).contains(kept));
        headers.lemma_filter_contains_rev(keep, kept);
    }
}

} // verus!
