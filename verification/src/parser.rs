//! Search-result parsing: result containers are selected from the page,
//! each entry's title, link and snippet are read, sponsored entries are
//! filtered, links are resolved, and incomplete entries are dropped.

use vstd::prelude::*;
use crate::models::SearchResult;
use crate::text::{contains_seq, contains_sub, trim, trim_spec};
use crate::urls::{extract_real_url, resolve_url_spec};

verus! {

/// The outer HTML of each element of `html` matching selector `sel`, in
/// document order.
pub uninterp spec fn selected_fragments(html: Seq<char>, sel: Seq<char>) -> Seq<Seq<char>>;

/// Relies on scraper (Html::parse_document, Selector::parse, Html::select,
/// ElementRef::html): collects the outer HTML of every element matching the
/// selector, in document order.  The result depends on the document and
/// selector text alone; an unparsable selector selects nothing, and a
/// malformed document degrades to fewer matches, never to a failure.
#[verifier::external_body]
pub(crate) fn fragments_matching(html: &str, sel: &str) -> (r: Vec<String>)
    ensures
        r.deep_view() == selected_fragments(html@, sel@),
{
    let doc = scraper::Html::parse_document(html);
    let parsed = match scraper::Selector::parse(sel) {
        Ok(p) => p,
        Err(_) => return Vec::new(),
    };
    doc.select(&parsed).map(|el| el.html()).collect()
}

/// The concatenated text and the named attribute of the first element of
/// `html` matching `sel`, when there is such an element.
pub uninterp spec fn first_text_and_attr_of(html: Seq<char>, sel: Seq<char>, attr: Seq<char>) -> Option<
    (Seq<char>, Option<Seq<char>>),
>;

/// Relies on scraper (Html::parse_document, Selector::parse, Html::select,
/// ElementRef::text, ElementRef::attr): the concatenated descendant text and
/// the named attribute of the first element matching the selector.  The
/// result depends on the document, selector and attribute name alone.
#[verifier::external_body]
fn first_text_and_attr(html: &str, sel: &str, attr: &str) -> (r: Option<(String, Option<String>)>)
    ensures
        r.deep_view() == first_text_and_attr_of(html@, sel@, attr@),
{
    let doc = scraper::Html::parse_document(html);
    let parsed = match scraper::Selector::parse(sel) {
        Ok(p) => p,
        Err(_) => return None,
    };
    doc.select(&parsed).next().map(
        |el| (el.text().collect::<String>(), el.attr(attr).map(|a| a.to_string())),
    )
}

/// The concatenated text of the first element of `html` matching `sel`.
pub uninterp spec fn first_text_of(html: Seq<char>, sel: Seq<char>) -> Option<Seq<char>>;

/// Relies on scraper (Html::parse_document, Selector::parse, Html::select,
/// ElementRef::text): the concatenated descendant text of the first element
/// matching the selector.  The result depends on the document and selector
/// text alone.
#[verifier::external_body]
fn first_text(html: &str, sel: &str) -> (r: Option<String>)
    ensures
        r.deep_view() == first_text_of(html@, sel@),
{
    let doc = scraper::Html::parse_document(html);
    let parsed = match scraper::Selector::parse(sel) {
        Ok(p) => p,
        Err(_) => return None,
    };
    doc.select(&parsed).next().map(|el| el.text().collect::<String>())
}

/// Selector for result containers.
pub open spec fn result_selector() -> Seq<char> {
    ".web-result, .result"@
}

/// Selector for the anchor carrying a result's title and link.
pub open spec fn anchor_selector() -> Seq<char> {
    ".result__a"@
}

/// Selector for a result's snippet element.
pub open spec fn snippet_selector() -> Seq<char> {
    ".result__snippet"@
}

/// The attribute carrying the raw destination link.
pub open spec fn href_attr() -> Seq<char> {
    "href"@
}

/// The marker the upstream engine puts into sponsored-redirect links.
pub open spec fn ad_marker() -> Seq<char> {
    "y.js"@
}

/// The raw destination link of a result fragment (empty when the anchor or
/// the attribute is missing).
pub open spec fn fragment_href(f: Seq<char>) -> Seq<char> {
    match first_text_and_attr_of(f, anchor_selector(), href_attr()) {
        Some((_t, Some(h))) => h,
        _ => Seq::<char>::empty(),
    }
}

/// The raw title text of a result fragment (empty when the anchor is
/// missing).
pub open spec fn fragment_title(f: Seq<char>) -> Seq<char> {
    match first_text_and_attr_of(f, anchor_selector(), href_attr()) {
        Some((t, _a)) => t,
        _ => Seq::<char>::empty(),
    }
}

/// The resolved destination URL of a result fragment (empty when the raw
/// link resolves to nothing).
pub open spec fn fragment_url(f: Seq<char>) -> Seq<char> {
    match resolve_url_spec(fragment_href(f)) {
        Some(u) => u,
        None => Seq::<char>::empty(),
    }
}

/// The trimmed snippet text of a result fragment (empty when absent).
pub open spec fn fragment_snippet(f: Seq<char>) -> Seq<char> {
    match first_text_of(f, snippet_selector()) {
        Some(s) => trim_spec(s),
        None => Seq::<char>::empty(),
    }
}

/// The admitted (title, url, snippet) of one result fragment, if any: the
/// fragment must carry an anchor, its link must not be a sponsored redirect,
/// and both the trimmed title and the resolved URL must be non-empty.
pub open spec fn entry_of_fragment(f: Seq<char>) -> Option<(Seq<char>, Seq<char>, Seq<char>)> {
    match first_text_and_attr_of(f, anchor_selector(), href_attr()) {
        None => None,
        Some(_) => {
            if contains_seq(fragment_href(f), ad_marker()) {
                None
            } else {
                let title = trim_spec(fragment_title(f));
                let url = fragment_url(f);
                if title.len() > 0 && url.len() > 0 {
                    Some((title, url, fragment_snippet(f)))
                } else {
                    None
                }
            }
        },
    }
}

/// Entries admitted from a sequence of result fragments, in document order.
pub open spec fn admitted_entries(frags: Seq<Seq<char>>) -> Seq<(Seq<char>, Seq<char>, Seq<char>)>
    decreases frags.len(),
{
    if frags.len() == 0 {
        Seq::<(Seq<char>, Seq<char>, Seq<char>)>::empty()
    } else {
        match entry_of_fragment(frags[0]) {
            Some(e) => seq![e] + admitted_entries(frags.drop_first()),
            None => admitted_entries(frags.drop_first()),
        }
    }
}

/// All results parsed from a search page, in document order.
pub open spec fn parsed_results(html: Seq<char>) -> Seq<(Seq<char>, Seq<char>, Seq<char>)> {
    admitted_entries(selected_fragments(html, result_selector()))
}

/// Parses the result entries out of a search page.  Malformed or partial
/// markup degrades to fewer results, never to a failure.
pub fn parse_results(html: &str) -> (r: Vec<SearchResult>)
    ensures
        r.deep_view() == parsed_results(html@),
{
    let frags = fragments_matching(html, ".web-result, .result");
    let mut out: Vec<SearchResult> = Vec::new();
    let n = frags.len();
    proof {
        assert(frags.deep_view().skip(0) =~= frags.deep_view());
        assert(out.deep_view() + admitted_entries(frags.deep_view()) =~= admitted_entries(
            frags.deep_view(),
        ));
    }
    let mut i: usize = 0;
    while i < n
        invariant
            n == frags@.len(),
            0 <= i <= n,
            frags.deep_view() == selected_fragments(html@, result_selector()),
            out.deep_view() + admitted_entries(frags.deep_view().skip(i as int)) == parsed_results(
                html@,
            ),
        decreases n - i,
    {
        let ghost fv = frags.deep_view()[i as int];
        proof {
            assert(frags.deep_view().skip(i as int)[0] == fv);
            assert(frags.deep_view().skip(i as int).drop_first() =~= frags.deep_view().skip(
                i + 1,
            ));
            assert(frags.deep_view()[i as int] == frags@[i as int]@);
        }
        let f = &frags[i];
        match first_text_and_attr(f.as_str(), ".result__a", "href") {
            None => {
                proof {
                    assert(entry_of_fragment(fv) is None);
                }
            },
            Some((raw_title, attr)) => {
                let href = match attr {
                    Some(h) => h,
                    None => String::new(),
                };
                proof {
                    assert(href@ == fragment_href(fv));
                }
                if contains_sub(href.as_str(), "y.js") {
                    proof {
                        assert(entry_of_fragment(fv) is None);
                    }
                } else {
                    let url = match extract_real_url(href.as_str()) {
                        Some(u) => u,
                        None => String::new(),
                    };
                    proof {
                        assert(url@ == fragment_url(fv));
                    }
                    let title = trim(raw_title.as_str());
                    if !title.is_empty() && !url.as_str().is_empty() {
                        let snippet = match first_text(f.as_str(), ".result__snippet") {
                            Some(s) => trim(s.as_str()).to_owned(),
                            None => String::new(),
                        };
                        proof {
                            assert(snippet@ == fragment_snippet(fv));
                        }
                        let entry = SearchResult { title: title.to_owned(), url, snippet };
                        proof {
                            assert(entry_of_fragment(fv) == Some(entry.deep_view()));
                            assert(out.deep_view().push(entry.deep_view()) =~= out@.push(
                                entry,
                            ).map_values(|x: SearchResult| x.deep_view()));
                            assert(out.deep_view() + (seq![entry.deep_view()] + admitted_entries(
                                frags.deep_view().skip(i + 1),
                            )) =~= out.deep_view().push(entry.deep_view()) + admitted_entries(
                                frags.deep_view().skip(i + 1),
                            ));
                        }
                        out.push(entry);
                    } else {
                        proof {
                            assert(entry_of_fragment(fv) is None);
                        }
                    }
                }
            },
        }
        i = i + 1;
    }
    proof {
        assert(frags.deep_view().skip(n as int) =~= Seq::<Seq<char>>::empty());
        assert(out.deep_view() + Seq::<(Seq<char>, Seq<char>, Seq<char>)>::empty()
            =~= out.deep_view());
    }
    out
}

/// A fragment whose raw link contains the sponsored-redirect marker yields
/// no entry, whatever the surrounding markup holds.
pub proof fn lemma_ad_entry_dropped(f: Seq<char>)
    requires
        contains_seq(fragment_href(f), ad_marker()),
    ensures
        entry_of_fragment(f) is None,
{
}

/// A fragment with an empty trimmed title, or without a resolvable URL,
/// yields no entry.
pub proof fn lemma_incomplete_entry_dropped(f: Seq<char>)
    requires
        trim_spec(fragment_title(f)).len() == 0 || fragment_url(f).len() == 0,
    ensures
        entry_of_fragment(f) is None,
{
}

/// Every result parsed from a page originates in a selected result fragment
/// whose link is free of the ad marker and whose trimmed title and resolved
/// URL are non-empty: an ad entry or an incomplete entry is never present in
/// parsed output, whatever the surrounding markup holds.
pub proof fn lemma_parsed_results_sound(html: Seq<char>, k: int)
    requires
        0 <= k < parsed_results(html).len(),
    ensures
        exists|j: int|
            0 <= j < selected_fragments(html, result_selector()).len() && entry_of_fragment(
                #[trigger] selected_fragments(html, result_selector())[j],
            ) == Some(parsed_results(html)[k]) && !contains_seq(
                fragment_href(selected_fragments(html, result_selector())[j]),
                ad_marker(),
            ) && trim_spec(fragment_title(selected_fragments(html, result_selector())[j])).len()
                > 0 && fragment_url(selected_fragments(html, result_selector())[j]).len() > 0,
{
    let frags = selected_fragments(html, result_selector());
    lemma_admitted_entries_sound(frags, k);
    let j = choose|j: int|
        0 <= j < frags.len() && entry_of_fragment(frags[j]) == Some(admitted_entries(frags)[k])
            && !contains_seq(fragment_href(frags[j]), ad_marker()) && trim_spec(
            fragment_title(frags[j]),
        ).len() > 0 && fragment_url(frags[j]).len() > 0 && admitted_entries(frags)[k] == (
        trim_spec(fragment_title(frags[j])),
        fragment_url(frags[j]),
        fragment_snippet(frags[j]),
        );
    assert(0 <= j < frags.len() && entry_of_fragment(frags[j]) == Some(parsed_results(html)[k])
        && !contains_seq(fragment_href(frags[j]), ad_marker()) && trim_spec(
        fragment_title(frags[j]),
    ).len() > 0 && fragment_url(frags[j]).len() > 0);
}

/// Every admitted entry originates in some fragment of the list: its link is
/// free of the ad marker, and its trimmed title and resolved URL are
/// non-empty and are exactly what the entry carries.
pub proof fn lemma_admitted_entries_sound(frags: Seq<Seq<char>>, k: int)
    requires
        0 <= k < admitted_entries(frags).len(),
    ensures
        exists|j: int|
            0 <= j < frags.len() && entry_of_fragment(frags[j]) == Some(admitted_entries(frags)[k])
                && !contains_seq(fragment_href(frags[j]), ad_marker()) && trim_spec(
                fragment_title(frags[j]),
            ).len() > 0 && fragment_url(frags[j]).len() > 0 && admitted_entries(frags)[k] == (
            trim_spec(fragment_title(frags[j])),
            fragment_url(frags[j]),
            fragment_snippet(frags[j]),
            ),
    decreases frags.len(),
{
    if frags.len() > 0 {
        match entry_of_fragment(frags[0]) {
            Some(e) => {
                if k == 0 {
                    assert(entry_of_fragment(frags[0]) == Some(admitted_entries(frags)[0]));
                } else {
                    lemma_admitted_entries_sound(frags.drop_first(), k - 1);
                    let j0 = choose|j0: int|
                        0 <= j0 < frags.drop_first().len() && entry_of_fragment(
                            frags.drop_first()[j0],
                        ) == Some(admitted_entries(frags.drop_first())[k - 1]) && !contains_seq(
                            fragment_href(frags.drop_first()[j0]),
                            ad_marker(),
                        ) && trim_spec(fragment_title(frags.drop_first()[j0])).len() > 0
                            && fragment_url(frags.drop_first()[j0]).len() > 0 && admitted_entries(
                            frags.drop_first(),
                        )[k - 1] == (
                        trim_spec(fragment_title(frags.drop_first()[j0])),
                        fragment_url(frags.drop_first()[j0]),
                        fragment_snippet(frags.drop_first()[j0]),
                        );
                    assert(frags.drop_first()[j0] == frags[j0 + 1]);
                    assert(admitted_entries(frags)[k] == admitted_entries(frags.drop_first())[k
                        - 1]);
                }
            },
            None => {
                lemma_admitted_entries_sound(frags.drop_first(), k);
                let j0 = choose|j0: int|
                    0 <= j0 < frags.drop_first().len() && entry_of_fragment(
                        frags.drop_first()[j0],
                    ) == Some(admitted_entries(frags.drop_first())[k]) && !contains_seq(
                        fragment_href(frags.drop_first()[j0]),
                        ad_marker(),
                    ) && trim_spec(fragment_title(frags.drop_first()[j0])).len() > 0
                        && fragment_url(frags.drop_first()[j0]).len() > 0 && admitted_entries(
                        frags.drop_first(),
                    )[k] == (
                    trim_spec(fragment_title(frags.drop_first()[j0])),
                    fragment_url(frags.drop_first()[j0]),
                    fragment_snippet(frags.drop_first()[j0]),
                    );
                assert(frags.drop_first()[j0] == frags[j0 + 1]);
            },
        }
    }
}

} // verus!
