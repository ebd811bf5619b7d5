//! Other names of the paths of the user's page.

use crate::json;
use crate::text;
use vstd::prelude::*;

verus! {

/// The path and the query that `/api/peer` stands for; none for another path.
pub open spec fn alias_of(path: Seq<char>, query: Option<Seq<char>>) -> Option<Seq<char>> {
    match text::after_prefix(path, "/api/peer"@) {
        Some(rest) => Some(
            match query {
                Some(q) => "/api/client"@ + rest + "?"@ + q,
                None => "/api/client"@ + rest,
            },
        ),
        None => None,
    }
}

/// The path and the query under `/api/client` that a path under `/api/peer`
/// stands for.
pub fn alias_api_peer_to_client(path: &str, query: Option<&str>) -> (r: Option<String>)
    ensures
        text::opt_view(r) == alias_of(path@, json::opt_str(query)),
{
    match text::strip_prefix(path, "/api/peer") {
        Some(rest) => {
            let front = text::concat2("/api/client", &rest);
            match query {
                Some(q) => Some(text::concat3(&front, "?", q)),
                None => Some(front),
            }
        },
        None => None,
    }
}

/// A path under `/api/client` stands for itself.
pub proof fn law_client_paths_stay(rest: Seq<char>, query: Option<Seq<char>>)
    ensures
        alias_of("/api/client"@ + rest, query) is None,
{
    reveal_strlit("/api/client");
    reveal_strlit("/api/peer");
    let p = "/api/client"@ + rest;
    assert(p[5] == 'c');
    assert("/api/peer"@[5] == 'p');
    if text::after_prefix(p, "/api/peer"@) is Some {
        assert(p.take(9)[5] == p[5]);
    }
}

/// A path under `/api/peer` stands for the same path under `/api/client`, with its query.
pub proof fn law_peer_path_is_the_clients(rest: Seq<char>, q: Seq<char>)
    ensures
        alias_of("/api/peer"@ + rest, None) == Some("/api/client"@ + rest),
        alias_of("/api/peer"@ + rest, Some(q)) matches Some(p) && text::starts(
            p,
            "/api/client"@ + rest,
        ) && p.skip(("/api/client"@ + rest).len() as int) == seq!['?'] + q,
{
    text::law_prefix_is_taken_off("/api/peer"@, rest, rest);
    reveal_strlit("?");
    let front = "/api/client"@ + rest;
    let p = front + "?"@ + q;
    assert(p.subrange(0, front.len() as int) =~= front);
    assert(p.skip(front.len() as int) =~= seq!['?'] + q);
}

} // verus!
