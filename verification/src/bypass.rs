//! The bypass lane: a relay to hosts outside, for callers that a browser's
//! same-origin rule would stop. Only hosts on the allowlist are reached.

use crate::outside::{is_valid_utf8, parse_query_pairs, parse_url, query_pairs, url_parts, UrlParts, UrlPartsView};
use crate::text::{bytes_eq, copy_of, ends_with, starts_with, DOT, PERCENT};
use vstd::prelude::*;
use vstd::string::StringSliceAdditionalSpecFns;
use vstd::utf8::valid_utf8;

verus! {

/// The path prefix that marks a request for the bypass lane.
pub open spec fn bypass_prefix() -> Seq<u8> {
    "/_proxy/".spec_bytes()
}

/// The value of a hexadecimal digit.
pub open spec fn hex_digit(b: u8) -> Option<u8> {
    if 48 <= b <= 57 {
        Some((b - 48) as u8)
    } else if 97 <= b <= 102 {
        Some((b - 87) as u8)
    } else if 65 <= b <= 70 {
        Some((b - 55) as u8)
    } else {
        None
    }
}

/// The byte that the two characters behind a `%` stand for, where both are
/// hexadecimal digits.
pub open spec fn escaped_byte(high: u8, low: u8) -> Option<u8> {
    match (hex_digit(high), hex_digit(low)) {
        (Some(h), Some(l)) => Some((16 * h + l) as u8),
        _ => None,
    }
}

/// Whether an escape starts at the head of `s`: a `%` and two more bytes
/// that `escaped_byte` accepts.
pub open spec fn escape_at_head(s: Seq<u8>) -> bool {
    s.len() > 2 && s[0] == PERCENT && escaped_byte(s[1], s[2]) is Some
}

/// `s` with its percent-escapes undone, read from the left. A `%` that no
/// valid escape follows stands for itself.
pub open spec fn percent_decoded(s: Seq<u8>) -> Seq<u8>
    decreases s.len(),
{
    if s.len() == 0 {
        s
    } else if escape_at_head(s) {
        seq![escaped_byte(s[1], s[2])->0] + percent_decoded(s.skip(3))
    } else {
        seq![s[0]] + percent_decoded(s.skip(1))
    }
}

/// The text that an encoded text stands for, where that is well-formed UTF-8.
pub open spec fn decoded_text(s: Seq<u8>) -> Option<Seq<u8>> {
    if valid_utf8(percent_decoded(s)) {
        Some(percent_decoded(s))
    } else {
        None
    }
}

/// The value of the first pair called `url`.
pub open spec fn url_parameter(pairs: Seq<(Seq<u8>, Seq<u8>)>) -> Option<Seq<u8>>
    decreases pairs.len(),
{
    if pairs.len() == 0 {
        None
    } else if pairs[0].0 == "url".spec_bytes() {
        Some(pairs[0].1)
    } else {
        url_parameter(pairs.drop_first())
    }
}

/// The target that a bypass request names, given the pairs of its query
/// string: what follows the prefix in the path, decoded, where anything
/// follows it; else the `url` parameter of a query that is not empty.
pub open spec fn named_target(path: Seq<u8>, query: Seq<u8>, pairs: Seq<(Seq<u8>, Seq<u8>)>) -> Option<
    Seq<u8>,
> {
    if bypass_prefix().is_prefix_of(path) && path.len() > bypass_prefix().len() {
        decoded_text(path.skip(bypass_prefix().len() as int))
    } else if query.len() > 0 {
        url_parameter(pairs)
    } else {
        None
    }
}

/// `host` is `domain` itself or lies below it.
pub open spec fn host_matches(host: Seq<u8>, domain: Seq<u8>) -> bool {
    host == domain || (seq![DOT] + domain).is_suffix_of(host)
}

/// `host` matches one of `domains`.
pub open spec fn host_allowed(domains: Seq<Seq<u8>>, host: Seq<u8>) -> bool {
    exists|i: int| 0 <= i < domains.len() && host_matches(host, #[trigger] domains[i])
}

/// A URL with these parts may be reached: it has a host, and the host is allowed.
pub open spec fn parts_allowed(domains: Seq<Seq<u8>>, parts: Option<UrlPartsView>) -> bool {
    match parts {
        Some(parts) => match parts.host {
            Some(host) => host_allowed(domains, host),
            None => false,
        },
        None => false,
    }
}

/// The hosts that the bypass lane may reach.
pub struct DomainAllowlist {
    domains: Vec<Vec<u8>>,
}

/// The four domains of the standard allowlist.
pub open spec fn standard_domains() -> Seq<Seq<u8>> {
    seq![
        "github.io".spec_bytes(),
        "raw.githubusercontent.com".spec_bytes(),
        "github.com".spec_bytes(),
        "api.github.com".spec_bytes(),
    ]
}

impl View for DomainAllowlist {
    type V = Seq<Seq<u8>>;

    closed spec fn view(&self) -> Seq<Seq<u8>> {
        Seq::new(self.domains@.len(), |i: int| self.domains@[i]@)
    }
}

impl DomainAllowlist {
    /// The standard allowlist.
    pub fn standard() -> (list: DomainAllowlist)
        ensures
            list@ == standard_domains(),
    {
        let mut domains: Vec<Vec<u8>> = Vec::new();
        domains.push(copy_of("github.io".as_bytes()));
        domains.push(copy_of("raw.githubusercontent.com".as_bytes()));
        domains.push(copy_of("github.com".as_bytes()));
        domains.push(copy_of("api.github.com".as_bytes()));
        let list = DomainAllowlist { domains };
        assert(list@ =~= standard_domains());
        list
    }

    /// An allowlist of the given domains.
    pub fn of(domains: Vec<Vec<u8>>) -> (list: DomainAllowlist)
        ensures
            list@ == Seq::new(domains@.len(), |i: int| domains@[i]@),
    {
        DomainAllowlist { domains }
    }

    /// Whether `host` is one of the domains or lies below one.
    pub fn allows(&self, host: &[u8]) -> (allowed: bool)
        ensures
            allowed == host_allowed(self@, host@),
    {
        let mut i: usize = 0;
        while i < self.domains.len()
            invariant
                i <= self.domains.len(),
                forall|j: int| 0 <= j < i ==> !host_matches(host@, #[trigger] self@[j]),
            decreases self.domains.len() - i,
        {
            let domain = self.domains[i].as_slice();
            assert(domain@ == self@[i as int]);
            if bytes_eq(host, domain) {
                return true;
            }
            let mut below: Vec<u8> = Vec::new();
            below.push(DOT);
            crate::text::append(&mut below, domain);
            assert(below@ =~= seq![DOT] + domain@);
            if ends_with(host, below.as_slice()) {
                return true;
            }
            i += 1;
        }
        false
    }

    /// Whether a URL with these parts may be reached.
    pub fn allows_parts(&self, parts: &Option<UrlParts>) -> (allowed: bool)
        ensures
            allowed == parts_allowed(
                self@,
                match parts {
                    Some(p) => Some(p@),
                    None => None,
                },
            ),
    {
        match parts {
            Some(parts) => match &parts.host {
                Some(host) => self.allows(host.as_slice()),
                None => false,
            },
            None => false,
        }
    }

    /// Whether the URL `target` may be reached: it parses as an absolute URL
    /// with a host, and the host is allowed.
    pub fn allows_url(&self, target: &[u8]) -> (allowed: bool)
        ensures
            allowed == parts_allowed(self@, url_parts(target@)),
    {
        let parts = parse_url(target);
        self.allows_parts(&parts)
    }
}

pub fn hex_value(b: u8) -> (value: Option<u8>)
    ensures
        value == hex_digit(b),
{
    if 48 <= b && b <= 57 {
        Some(b - 48)
    } else if 97 <= b && b <= 102 {
        Some(b - 87)
    } else if 65 <= b && b <= 70 {
        Some(b - 55)
    } else {
        None
    }
}

pub fn unescape(high: u8, low: u8) -> (byte: Option<u8>)
    ensures
        byte == escaped_byte(high, low),
{
    match (hex_value(high), hex_value(low)) {
        (Some(h), Some(l)) => Some(16 * h + l),
        _ => None,
    }
}

/// Undoes the percent-escapes of `s`.
pub fn percent_decode(s: &[u8]) -> (out: Vec<u8>)
    ensures
        out@ == percent_decoded(s@),
{
    let mut out: Vec<u8> = Vec::new();
    let mut i: usize = 0;
    assert(s@.skip(0) =~= s@);
    while i < s.len()
        invariant
            i <= s.len(),
            out@ + percent_decoded(s@.skip(i as int)) == percent_decoded(s@),
        decreases s.len() - i,
    {
        let ghost rest = s@.skip(i as int);
        let ghost before = out@;
        let mut escaped: Option<u8> = None;
        if s[i] == PERCENT && s.len() - i > 2 {
            escaped = unescape(s[i + 1], s[i + 2]);
        }
        assert(escaped is Some == escape_at_head(rest));
        match escaped {
            Some(byte) => {
                out.push(byte);
                i += 3;
                assert(rest.skip(3) =~= s@.skip(i as int));
            },
            None => {
                out.push(s[i]);
                i += 1;
                assert(rest.skip(1) =~= s@.skip(i as int));
            },
        }
        assert(out@ + percent_decoded(s@.skip(i as int)) =~= before + percent_decoded(rest));
    }
    assert(out@ + percent_decoded(s@.skip(i as int)) =~= out@);
    out
}

/// Undoes the percent-escapes of `s`; `None` where the result is not UTF-8.
pub fn percent_decode_str(s: &[u8]) -> (text: Option<Vec<u8>>)
    ensures
        text is Some == decoded_text(s@) is Some,
        text matches Some(t) ==> decoded_text(s@) == Some(t@),
{
    let decoded = percent_decode(s);
    if is_valid_utf8(decoded.as_slice()) {
        Some(decoded)
    } else {
        None
    }
}

/// The value of the first pair called `url`.
pub fn find_url_parameter(pairs: &Vec<(Vec<u8>, Vec<u8>)>) -> (value: Option<Vec<u8>>)
    ensures
        value is Some == url_parameter(pairs.deep_view()) is Some,
        value matches Some(v) ==> url_parameter(pairs.deep_view()) == Some(v@),
{
    let mut i: usize = 0;
    assert(pairs.deep_view().skip(0) =~= pairs.deep_view());
    while i < pairs.len()
        invariant
            i <= pairs.len(),
            url_parameter(pairs.deep_view()) == url_parameter(pairs.deep_view().skip(i as int)),
        decreases pairs.len() - i,
    {
        let ghost rest = pairs.deep_view().skip(i as int);
        assert(rest[0] == pairs.deep_view()[i as int]);
        assert(pairs.deep_view()[i as int] == (pairs@[i as int].0@, pairs@[i as int].1@));
        assert(rest.drop_first() =~= pairs.deep_view().skip(i + 1));
        if bytes_eq(pairs[i].0.as_slice(), "url".as_bytes()) {
            return Some(copy_of(pairs[i].1.as_slice()));
        }
        i += 1;
    }
    None
}

/// The target that a bypass request names, given the pairs of its query string.
pub fn target_from(path: &[u8], query: &[u8], pairs: &Vec<(Vec<u8>, Vec<u8>)>) -> (target: Option<
    Vec<u8>,
>)
    ensures
        target is Some == named_target(path@, query@, pairs.deep_view()) is Some,
        target matches Some(t) ==> named_target(path@, query@, pairs.deep_view()) == Some(t@),
{
    let prefix = "/_proxy/".as_bytes();
    if starts_with(path, prefix) && path.len() > prefix.len() {
        let encoded = vstd::slice::slice_subrange(path, prefix.len(), path.len());
        assert(encoded@ =~= path@.skip(bypass_prefix().len() as int));
        return percent_decode_str(encoded);
    }
    if query.len() > 0 {
        return find_url_parameter(pairs);
    }
    None
}

/// The target that a bypass request names.
pub fn parse_external_proxy_url(path: &[u8], query: &[u8]) -> (target: Option<Vec<u8>>)
    ensures
        target is Some == named_target(path@, query@, query_pairs(query@)) is Some,
        target matches Some(t) ==> named_target(path@, query@, query_pairs(query@)) == Some(t@),
{
    let pairs = parse_query_pairs(query);
    target_from(path, query, &pairs)
}

} // verus!
