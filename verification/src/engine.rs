//! Search orchestration logic: challenge-page detection, offset/limit
//! pagination, response assembly, and the page-count and aggregation rules
//! of the extended multi-page path.

use vstd::prelude::*;
use crate::models::{SearchParams, SearchResponse, SearchResult};
use crate::parser::{parse_results, parsed_results};
use crate::text::{contains_seq, contains_sub};

verus! {

/// How many results one upstream page is expected to carry.
pub const RESULTS_PER_PAGE: usize = 30;

/// Hard cap on pages fetched by the extended path.
pub const MAX_PAGES: usize = 100;

/// Largest limit the single-page path serves.
pub const SINGLE_PAGE_LIMIT: usize = 50;

/// Routing by size: whether a query takes the extended multi-page path.
pub fn use_extended_path(limit: usize) -> (r: bool)
    ensures
        r == (limit > SINGLE_PAGE_LIMIT),
{
    limit > SINGLE_PAGE_LIMIT
}

/// First challenge-page marker string.
pub open spec fn challenge_marker_a() -> Seq<char> {
    "anomaly-modal"@
}

/// Second challenge-page marker string.
pub open spec fn challenge_marker_b() -> Seq<char> {
    "challenge-submit"@
}

/// The page is an anti-bot challenge interstitial.
pub open spec fn is_challenge_spec(html: Seq<char>) -> bool {
    contains_seq(html, challenge_marker_a()) || contains_seq(html, challenge_marker_b())
}

/// Detects a challenge page by its known marker strings.
pub fn is_challenge_page(html: &str) -> (r: bool)
    ensures
        r == is_challenge_spec(html@),
{
    contains_sub(html, "anomaly-modal") || contains_sub(html, "challenge-submit")
}

/// The slice [offset, offset+limit) of a sequence, clipped to its length.
pub open spec fn page_slice<T>(s: Seq<T>, offset: int, limit: int) -> Seq<T> {
    let lo = if offset <= s.len() {
        offset
    } else {
        s.len() as int
    };
    let hi = if offset + limit <= s.len() {
        offset + limit
    } else {
        s.len() as int
    };
    s.subrange(lo, hi)
}

/// How many results a response returns: the requested limit, or what is
/// left past the offset when that is less.
pub open spec fn returned_count(total: int, offset: int, limit: int) -> int {
    let avail = if total - offset > 0 {
        total - offset
    } else {
        0
    };
    if limit <= avail {
        limit
    } else {
        avail
    }
}

/// Cuts the page slice [offset, offset+limit) out of a result list.
pub fn paginate(results: Vec<SearchResult>, offset: usize, limit: usize) -> (r: Vec<SearchResult>)
    ensures
        r.deep_view() == page_slice(results.deep_view(), offset as int, limit as int),
{
    let n = results.len();
    let lo = if offset < n {
        offset
    } else {
        n
    };
    let rem = n - lo;
    let take = if limit < rem {
        limit
    } else {
        rem
    };
    let mut out: Vec<SearchResult> = Vec::new();
    proof {
        assert(out.deep_view() =~= results.deep_view().subrange(lo as int, lo as int));
    }
    let mut k: usize = 0;
    while k < take
        invariant
            n == results@.len(),
            lo + take <= n,
            0 <= k <= take,
            out.deep_view() == results.deep_view().subrange(lo as int, lo + k),
        decreases take - k,
    {
        let e = results[lo + k].clone();
        proof {
            assert(results.deep_view()[lo + k] == results@[lo + k].deep_view());
            assert(out.deep_view().push(e.deep_view()) =~= results.deep_view().subrange(
                lo as int,
                lo + k + 1,
            ));
            assert(out@.push(e).map_values(|x: SearchResult| x.deep_view()) =~= out.deep_view(
            ).push(e.deep_view()));
        }
        out.push(e);
        k = k + 1;
    }
    proof {
        assert(results.deep_view().len() == n);
        assert(out.deep_view() =~= page_slice(
            results.deep_view(),
            offset as int,
            limit as int,
        ));
    }
    out
}

/// Builds the search response for a full result list: the counters are set
/// from the list, and the carried results are its [offset, offset+limit)
/// slice.  The returned count always equals
/// min(limit, max(0, total - offset)).
pub fn assemble_response(params: &SearchParams, all: Vec<SearchResult>) -> (resp: SearchResponse)
    ensures
        resp.query@ == params.query@,
        resp.offset == params.offset,
        resp.wf(),
        resp.total_results == all@.len(),
        resp.results.deep_view() == page_slice(
            all.deep_view(),
            params.offset as int,
            params.limit as int,
        ),
        resp.returned as int == returned_count(
            all@.len() as int,
            params.offset as int,
            params.limit as int,
        ),
{
    let total = all.len();
    proof {
        assert(all.deep_view().len() == all@.len());
    }
    let paged = paginate(all, params.offset, params.limit);
    let returned = paged.len();
    proof {
        assert(paged.deep_view().len() == paged@.len());
    }
    SearchResponse {
        query: params.query.clone(),
        results: paged,
        total_results: total,
        returned,
        offset: params.offset,
    }
}

/// Turns one fetched search page into a response: a challenge page yields a
/// zero-result success (never a transport failure); otherwise the page is
/// parsed and the offset/limit slice of the parsed results is returned.
pub fn search_from_html(params: &SearchParams, html: &str) -> (resp: SearchResponse)
    ensures
        resp.query@ == params.query@,
        resp.offset == params.offset,
        resp.wf(),
        is_challenge_spec(html@) ==> resp.total_results == 0 && resp.results@.len() == 0,
        !is_challenge_spec(html@) ==> resp.total_results == parsed_results(html@).len()
            && resp.results.deep_view() == page_slice(
            parsed_results(html@),
            params.offset as int,
            params.limit as int,
        ),
        resp.returned as int == returned_count(
            resp.total_results as int,
            params.offset as int,
            params.limit as int,
        ),
{
    if is_challenge_page(html) {
        SearchResponse {
            query: params.query.clone(),
            results: Vec::new(),
            total_results: 0,
            returned: 0,
            offset: params.offset,
        }
    } else {
        let all = parse_results(html);
        proof {
            assert(all.deep_view().len() == all@.len());
        }
        assemble_response(params, all)
    }
}

/// How many pages the extended path fetches to cover offset+limit results:
/// the ceiling of (limit+offset)/RESULTS_PER_PAGE, at least one page and at
/// most MAX_PAGES.
pub open spec fn pages_needed_spec(limit: int, offset: int) -> int {
    let raw = (limit + offset + RESULTS_PER_PAGE - 1) / RESULTS_PER_PAGE as int;
    if raw > MAX_PAGES as int {
        MAX_PAGES as int
    } else {
        raw
    }
}

/// Computes the capped page count for the extended path.
pub fn pages_needed(limit: usize, offset: usize) -> (r: usize)
    requires
        1 <= limit <= 9999,
    ensures
        r == pages_needed_spec(limit as int, offset as int),
        1 <= r <= MAX_PAGES,
{
    if offset > RESULTS_PER_PAGE * MAX_PAGES {
        MAX_PAGES
    } else {
        let raw = (limit + offset + (RESULTS_PER_PAGE - 1)) / RESULTS_PER_PAGE;
        if raw > MAX_PAGES {
            MAX_PAGES
        } else {
            raw
        }
    }
}

/// Results aggregated from parsed pages in completion order: pages are
/// concatenated whole until the accumulated count reaches the target; later
/// pages are not consumed.  Cross-page ordering therefore follows completion
/// order, a documented relaxation of the extended path.
pub open spec fn merged_pages(
    pages: Seq<Seq<(Seq<char>, Seq<char>, Seq<char>)>>,
    target: int,
) -> Seq<(Seq<char>, Seq<char>, Seq<char>)>
    decreases pages.len(),
{
    if target <= 0 || pages.len() == 0 {
        Seq::<(Seq<char>, Seq<char>, Seq<char>)>::empty()
    } else if pages[0].len() >= target {
        pages[0]
    } else {
        pages[0] + merged_pages(pages.drop_first(), target - pages[0].len())
    }
}

/// Appends the aggregation of `pages[i..]` towards `target` onto `out`.
fn merge_from(pages: &Vec<Vec<SearchResult>>, i: usize, target: usize, out: &mut Vec<SearchResult>)
    requires
        i <= pages@.len(),
    ensures
        final(out).deep_view() == old(out).deep_view() + merged_pages(
            pages.deep_view().skip(i as int),
            target as int,
        ),
    decreases pages@.len() - i,
{
    proof {
        assert(pages.deep_view().len() == pages@.len());
    }
    if target == 0 || i == pages.len() {
        proof {
            assert(out.deep_view() + merged_pages(pages.deep_view().skip(i as int), target as int)
                =~= out.deep_view());
        }
        return ;
    }
    let ghost pv = pages.deep_view().skip(i as int);
    proof {
        assert(pv[0] == pages.deep_view()[i as int]);
        assert(pages.deep_view()[i as int] == pages@[i as int].deep_view());
        assert(pv.drop_first() =~= pages.deep_view().skip(i + 1));
    }
    let page = &pages[i];
    let m = page.len();
    proof {
        assert(page.deep_view().len() == page@.len());
    }
    let ghost out0 = out.deep_view();
    let mut j: usize = 0;
    while j < m
        invariant
            m == page@.len(),
            0 <= j <= m,
            out.deep_view() == out0 + page.deep_view().subrange(0, j as int),
        decreases m - j,
    {
        let e = page[j].clone();
        proof {
            assert(page.deep_view()[j as int] == page@[j as int].deep_view());
            assert((out0 + page.deep_view().subrange(0, j as int)).push(e.deep_view()) =~= out0
                + page.deep_view().subrange(0, j + 1));
            assert(out@.push(e).map_values(|x: SearchResult| x.deep_view()) =~= out.deep_view(
            ).push(e.deep_view()));
        }
        out.push(e);
        j = j + 1;
    }
    proof {
        assert(page.deep_view().subrange(0, m as int) =~= page.deep_view());
    }
    if m >= target {
        proof {
            assert(merged_pages(pv, target as int) == page.deep_view());
        }
        return ;
    }
    merge_from(pages, i + 1, target - m, out);
    proof {
        assert(merged_pages(pv, target as int) == page.deep_view() + merged_pages(
            pages.deep_view().skip(i + 1),
            target - m,
        ));
        assert(out0 + merged_pages(pv, target as int) =~= (out0 + page.deep_view())
            + merged_pages(pages.deep_view().skip(i + 1), target - m));
    }
}

/// Aggregates parsed pages, in the order they completed, until the target
/// count is reached; remaining pages contribute nothing.
pub fn merge_pages(pages: &Vec<Vec<SearchResult>>, target: usize) -> (r: Vec<SearchResult>)
    ensures
        r.deep_view() == merged_pages(pages.deep_view(), target as int),
{
    let mut out: Vec<SearchResult> = Vec::new();
    proof {
        assert(pages.deep_view().skip(0) =~= pages.deep_view());
    }
    merge_from(pages, 0, target, &mut out);
    proof {
        assert(Seq::<(Seq<char>, Seq<char>, Seq<char>)>::empty() + merged_pages(
            pages.deep_view(),
            target as int,
        ) =~= merged_pages(pages.deep_view(), target as int));
    }
    out
}

} // verus!
