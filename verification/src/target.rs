//! The registry of the upstream's base URL.

use crate::text::{append, copy_of, trim_end, trimmed_end, QUESTION_MARK, SLASH};
use vstd::prelude::*;
use vstd::string::StringSliceAdditionalSpecFns;

verus! {

/// Holds the base URL of the upstream: scheme, host and port, without a
/// trailing slash. It is never empty.
pub struct TargetRegistry {
    target: Vec<u8>,
}

/// The base URL that a new registry holds.
pub open spec fn default_target() -> Seq<u8> {
    "https://localhost:47990".spec_bytes()
}

/// The URL that a request for `path` and `query` is forwarded to under `base`.
pub open spec fn target_url(base: Seq<u8>, path: Seq<u8>, query: Seq<u8>) -> Seq<u8> {
    if query.len() == 0 {
        base + path
    } else {
        base + path + seq![QUESTION_MARK] + query
    }
}

impl View for TargetRegistry {
    type V = Seq<u8>;

    closed spec fn view(&self) -> Seq<u8> {
        self.target@
    }
}

impl TargetRegistry {
    /// What holds of every registry: the URL is not empty and does not end in a slash.
    pub open spec fn wf(self) -> bool {
        self@.len() > 0 && self@.last() != SLASH
    }

    #[verifier::type_invariant]
    closed spec fn holds_base_url(self) -> bool {
        self.wf()
    }

    pub fn new() -> (registry: TargetRegistry)
        ensures
            registry@ == default_target(),
            registry.wf(),
    {
        proof {
            reveal_strlit("https://localhost:47990");
            vstd::string::is_ascii_spec_bytes("https://localhost:47990");
        }
        TargetRegistry { target: copy_of("https://localhost:47990".as_bytes()) }
    }

    /// The current base URL.
    pub fn get_target(&self) -> (target: &Vec<u8>)
        ensures
            target@ == self@,
            self.wf(),
    {
        proof {
            use_type_invariant(self);
        }
        &self.target
    }

    /// The URL to forward a request for `path` and `query` to.
    pub fn url_for(&self, path: &[u8], query: &[u8]) -> (url: Vec<u8>)
        ensures
            url@ == target_url(self@, path@, query@),
    {
        let mut url = copy_of(self.target.as_slice());
        append(&mut url, path);
        if query.len() > 0 {
            url.push(QUESTION_MARK);
            append(&mut url, query);
        }
        url
    }
}

pub proof fn lemma_trim_end_has_no_trailing(s: Seq<u8>, b: u8)
    ensures
        trim_end(s, b).len() <= s.len(),
        trim_end(s, b).len() > 0 ==> trim_end(s, b).last() != b,
        trim_end(s, b).is_prefix_of(s),
    decreases s.len(),
{
    if s.len() > 0 && s.last() == b {
        lemma_trim_end_has_no_trailing(s.drop_last(), b);
    }
}

/// Replaces the upstream's base URL by `url` without its trailing slashes.
/// A `url` of which nothing is left is refused: the registry keeps its
/// value and `false` is returned.
pub fn set_sunshine_target(registry: &mut TargetRegistry, url: &[u8]) -> (accepted: bool)
    ensures
        final(registry).wf(),
        accepted == (trim_end(url@, SLASH).len() > 0),
        accepted ==> final(registry)@ == trim_end(url@, SLASH),
        !accepted ==> final(registry)@ == old(registry)@,
{
    let trimmed = trimmed_end(url, SLASH);
    proof {
        use_type_invariant(&*registry);
        lemma_trim_end_has_no_trailing(url@, SLASH);
    }
    if trimmed.len() == 0 {
        return false;
    }
    registry.target = copy_of(trimmed);
    true
}

} // verus!
