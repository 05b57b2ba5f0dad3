//! Natural-language formatting of search responses: a numbered listing of
//! title, URL and summary, or an explanatory text when nothing matched.

use vstd::prelude::*;
use crate::models::{SearchResponse, SearchResult};
use crate::text::{dec_str, push_dec};

verus! {

/// The numbered block one result formats to.
pub open spec fn entry_block(idx: nat, r: SearchResult) -> Seq<char> {
    dec_str(idx) + ". "@ + r.title@ + "\n   URL: "@ + r.url@ + "\n   Summary: "@ + r.snippet@
        + "\n\n"@
}

/// The blocks of all results, numbered from `idx` on.
pub open spec fn entry_blocks(rs: Seq<SearchResult>, idx: nat) -> Seq<char>
    decreases rs.len(),
{
    if rs.len() == 0 {
        Seq::<char>::empty()
    } else {
        entry_block(idx, rs[0]) + entry_blocks(rs.drop_first(), idx + 1)
    }
}

/// The explanation handed back when a query matched nothing.
pub open spec fn no_results_text(query: Seq<char>) -> Seq<char> {
    "No results found for: "@ + query
        + "\n\nThis could be due to rate limiting or no matches. Try rephrasing your search."@
}

/// What a response formats to: a numbered listing headed by the result
/// count, or the no-results explanation.
pub open spec fn formatted_results(resp: SearchResponse) -> Seq<char> {
    if resp.results@.len() == 0 {
        no_results_text(resp.query@)
    } else {
        "Found "@ + dec_str(resp.returned as nat) + " search results for \""@ + resp.query@
            + "\":\n\n"@ + entry_blocks(resp.results@, 1)
    }
}

/// Formats a search response as readable numbered text; a response without
/// results formats to an explanatory message, never to an empty payload.
pub fn format_results_for_llm(response: &SearchResponse) -> (r: String)
    ensures
        r@ == formatted_results(*response),
{
    let n = response.results.len();
    if n == 0 {
        let mut out = String::new();
        out.append("No results found for: ");
        out.append(response.query.as_str());
        out.append(
            "\n\nThis could be due to rate limiting or no matches. Try rephrasing your search.",
        );
        proof {
            assert(out@ =~= no_results_text(response.query@));
        }
        return out;
    }
    let mut out = String::new();
    out.append("Found ");
    push_dec(&mut out, response.returned);
    out.append(" search results for \"");
    out.append(response.query.as_str());
    out.append("\":\n\n");
    let ghost head = "Found "@ + dec_str(response.returned as nat) + " search results for \""@
        + response.query@ + "\":\n\n"@;
    proof {
        assert(out@ =~= head);
        assert(response.results@.skip(0) =~= response.results@);
        assert(out@ + entry_blocks(response.results@, 1) =~= head + entry_blocks(
            response.results@,
            1,
        ));
    }
    let mut i: usize = 0;
    while i < n
        invariant
            n == response.results@.len(),
            0 <= i <= n,
            formatted_results(*response) == out@ + entry_blocks(
                response.results@.skip(i as int),
                (i + 1) as nat,
            ),
        decreases n - i,
    {
        proof {
            assert(response.results@.skip(i as int)[0] == response.results@[i as int]);
            assert(response.results@.skip(i as int).drop_first() =~= response.results@.skip(
                i + 1,
            ));
        }
        let ghost before = out@;
        let res = &response.results[i];
        push_dec(&mut out, i + 1);
        out.append(". ");
        out.append(res.title.as_str());
        out.append("\n   URL: ");
        out.append(res.url.as_str());
        out.append("\n   Summary: ");
        out.append(res.snippet.as_str());
        out.append("\n\n");
        proof {
            assert(out@ =~= before + entry_block((i + 1) as nat, response.results@[i as int]));
            assert(before + (entry_block((i + 1) as nat, response.results@[i as int])
                + entry_blocks(response.results@.skip(i + 1), (i + 2) as nat)) =~= (before
                + entry_block((i + 1) as nat, response.results@[i as int])) + entry_blocks(
                response.results@.skip(i + 1),
                (i + 2) as nat,
            ));
        }
        i = i + 1;
    }
    proof {
        assert(response.results@.skip(n as int) =~= Seq::<SearchResult>::empty());
        assert(out@ + Seq::<char>::empty() =~= out@);
    }
    out
}

} // verus!
