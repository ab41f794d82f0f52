//! The third-party lane: two path prefixes, each mapped to the base URL of
//! one external API. The mapping is fixed, so no allowlist is consulted.

use crate::text::{append, copy_of, starts_with, QUESTION_MARK};
use vstd::prelude::*;
use vstd::string::StringSliceAdditionalSpecFns;

verus! {

pub open spec fn store_prefix() -> Seq<u8> {
    "/steam-store/".spec_bytes()
}

pub open spec fn grid_prefix() -> Seq<u8> {
    "/steamgriddb/".spec_bytes()
}

/// The query that a storefront request carries where the caller gave none.
pub open spec fn default_store_query() -> Seq<u8> {
    "l=schinese&cc=CN".spec_bytes()
}

/// The URL that a third-party request is sent to: the API's base, the path
/// behind the lane's name, a `?` and the query. `None` for a path of neither API.
pub open spec fn third_party_target(path: Seq<u8>, query: Seq<u8>) -> Option<Seq<u8>> {
    if store_prefix().is_prefix_of(path) {
        Some(
            "https://store.steampowered.com".spec_bytes() + path.skip(
                "/steam-store".spec_bytes().len() as int,
            ) + seq![QUESTION_MARK] + (if query.len() == 0 {
                default_store_query()
            } else {
                query
            }),
        )
    } else if grid_prefix().is_prefix_of(path) {
        Some(
            "https://www.steamgriddb.com/api/v2".spec_bytes() + path.skip(
                "/steamgriddb".spec_bytes().len() as int,
            ) + seq![QUESTION_MARK] + query,
        )
    } else {
        None
    }
}

fn join(base: &[u8], path: &[u8], skipped: usize, query: &[u8]) -> (url: Vec<u8>)
    requires
        skipped <= path@.len(),
    ensures
        url@ == base@ + path@.skip(skipped as int) + seq![QUESTION_MARK] + query@,
{
    let mut url = copy_of(base);
    let rest = vstd::slice::slice_subrange(path, skipped, path.len());
    assert(rest@ =~= path@.skip(skipped as int));
    append(&mut url, rest);
    url.push(QUESTION_MARK);
    append(&mut url, query);
    url
}

/// The URL that a third-party request is sent to.
pub fn steam_api_target(path: &[u8], query: &[u8]) -> (target: Option<Vec<u8>>)
    ensures
        target is Some == third_party_target(path@, query@) is Some,
        target matches Some(t) ==> third_party_target(path@, query@) == Some(t@),
{
    proof {
        reveal_strlit("/steam-store/");
        reveal_strlit("/steam-store");
        reveal_strlit("/steamgriddb/");
        reveal_strlit("/steamgriddb");
        vstd::string::is_ascii_spec_bytes("/steam-store/");
        vstd::string::is_ascii_spec_bytes("/steam-store");
        vstd::string::is_ascii_spec_bytes("/steamgriddb/");
        vstd::string::is_ascii_spec_bytes("/steamgriddb");
    }
    if starts_with(path, "/steam-store/".as_bytes()) {
        let params = if query.len() == 0 {
            "l=schinese&cc=CN".as_bytes()
        } else {
            query
        };
        Some(
            join(
                "https://store.steampowered.com".as_bytes(),
                path,
                "/steam-store".as_bytes().len(),
                params,
            ),
        )
    } else if starts_with(path, "/steamgriddb/".as_bytes()) {
        Some(
            join(
                "https://www.steamgriddb.com/api/v2".as_bytes(),
                path,
                "/steamgriddb".as_bytes().len(),
                query,
            ),
        )
    } else {
        None
    }
}

} // verus!
