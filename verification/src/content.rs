//! Main-content extraction and cleaning: candidate containers are tried in
//! priority order, text nodes are gathered outside boilerplate subtrees,
//! fragments are trimmed, filtered and joined, and the cleaned text is
//! clipped at a size ceiling under a fixed header.

use vstd::prelude::*;
use crate::models::ExtractedPage;
use crate::parser::{fragments_matching, selected_fragments};
use crate::text::{
    collapse, collapse_ws, contains_seq, dec_str, is_match_at, lemma_find_first, push_dec,
    split_lines, split_lines_spec, strs_view, trim, trim_spec,
};

verus! {

/// A candidate container must extract to more than this many characters.
pub const MIN_CONTENT: usize = 200;

/// Ceiling on the cleaned content length, in characters.
pub const MAX_CONTENT: usize = 10000;

/// The text nodes under the body (or root) of `html`, in document order,
/// with the subtrees of the comma-listed tag names skipped.
pub uninterp spec fn text_fragments_in(html: Seq<char>, skip_tags: Seq<char>) -> Seq<Seq<char>>;

/// Relies on scraper (Html::parse_document, Selector::parse, Html::select,
/// Html::root_element) and the node traversal it re-exports from ego-tree
/// (descendants, ancestors): the text nodes under the document body, or
/// under the root when no body exists, in document order, skipping every
/// node lying under one of the comma-listed tag names.  The result depends
/// on the document and the tag list alone.
#[verifier::external_body]
fn collect_text_fragments(html: &str, skip_tags: &str) -> (r: Vec<String>)
    ensures
        r.deep_view() == text_fragments_in(html@, skip_tags@),
{
    let doc = scraper::Html::parse_document(html);
    let skips: Vec<&str> = skip_tags.split(',').collect();
    let body = scraper::Selector::parse("body").ok().and_then(|s| doc.select(&s).next());
    let root = body.unwrap_or_else(|| doc.root_element());
    let mut out: Vec<String> = Vec::new();
    for node in root.descendants() {
        if let Some(t) = node.value().as_text() {
            if !node.ancestors().any(|a| a.value().as_element().map_or(false, |e| skips.contains(&e.name()))) {
                out.push(t.to_string());
            }
        }
    }
    out
}

/// The tag names whose subtrees carry no readable content.
pub open spec fn skip_tags_list() -> Seq<char> {
    "script,style,nav,footer,header,aside,svg,noscript"@
}

/// The trimmed fragments that survive the noise filter: fragments whose
/// trimmed text is at most one character long are discarded.
pub open spec fn kept_fragments(frs: Seq<Seq<char>>) -> Seq<Seq<char>>
    decreases frs.len(),
{
    if frs.len() == 0 {
        Seq::<Seq<char>>::empty()
    } else {
        let t = trim_spec(frs[0]);
        if t.len() > 1 {
            seq![t] + kept_fragments(frs.drop_first())
        } else {
            kept_fragments(frs.drop_first())
        }
    }
}

/// The parts glued together with single spaces.
pub open spec fn join_space(parts: Seq<Seq<char>>) -> Seq<char> {
    if parts.len() == 0 {
        Seq::<char>::empty()
    } else {
        parts[0] + join_tail(parts.drop_first())
    }
}

/// The parts each preceded by one space, glued together.
pub open spec fn join_tail(parts: Seq<Seq<char>>) -> Seq<char>
    decreases parts.len(),
{
    if parts.len() == 0 {
        Seq::<char>::empty()
    } else {
        seq![' '] + parts[0] + join_tail(parts.drop_first())
    }
}

/// The readable text of a document: its kept text fragments, trimmed and
/// joined with single spaces.
pub open spec fn extracted_text(html: Seq<char>) -> Seq<char> {
    join_space(kept_fragments(text_fragments_in(html, skip_tags_list())))
}

/// Joins strings with single spaces.
fn join_with_space(parts: &Vec<String>) -> (r: String)
    ensures
        r@ == join_space(strs_view(parts@)),
{
    let n = parts.len();
    if n == 0 {
        return String::new();
    }
    let mut out = parts[0].clone();
    proof {
        assert(strs_view(parts@)[0] == parts@[0]@);
        assert(out@ + join_tail(strs_view(parts@).skip(1)) =~= join_space(strs_view(parts@)));
    }
    let mut i: usize = 1;
    while i < n
        invariant
            n == parts@.len(),
            1 <= i <= n,
            join_space(strs_view(parts@)) == out@ + join_tail(strs_view(parts@).skip(i as int)),
        decreases n - i,
    {
        proof {
            assert(strs_view(parts@).skip(i as int)[0] == parts@[i as int]@);
            assert(strs_view(parts@).skip(i as int).drop_first() =~= strs_view(parts@).skip(
                i + 1,
            ));
            assert(out@ + (seq![' '] + parts@[i as int]@ + join_tail(
                strs_view(parts@).skip(i + 1),
            )) =~= (out@ + seq![' '] + parts@[i as int]@) + join_tail(
                strs_view(parts@).skip(i + 1),
            ));
        }
        out.append(" ");
        proof {
            reveal_strlit(" ");
            assert(" "@ =~= seq![' ']);
        }
        out.append(parts[i].as_str());
        i = i + 1;
    }
    proof {
        assert(strs_view(parts@).skip(n as int) =~= Seq::<Seq<char>>::empty());
        assert(out@ + Seq::<char>::empty() =~= out@);
    }
    out
}

/// Keeps the trimmed fragments that pass the noise filter.
fn filter_fragments(frags: &Vec<String>) -> (r: Vec<String>)
    ensures
        strs_view(r@) == kept_fragments(strs_view(frags@)),
{
    let n = frags.len();
    let mut kept: Vec<String> = Vec::new();
    proof {
        assert(strs_view(frags@).skip(0) =~= strs_view(frags@));
        assert(strs_view(kept@) + kept_fragments(strs_view(frags@)) =~= kept_fragments(
            strs_view(frags@),
        ));
    }
    let mut i: usize = 0;
    while i < n
        invariant
            n == frags@.len(),
            0 <= i <= n,
            kept_fragments(strs_view(frags@)) == strs_view(kept@) + kept_fragments(
                strs_view(frags@).skip(i as int),
            ),
        decreases n - i,
    {
        proof {
            assert(strs_view(frags@).skip(i as int)[0] == frags@[i as int]@);
            assert(strs_view(frags@).skip(i as int).drop_first() =~= strs_view(frags@).skip(
                i + 1,
            ));
        }
        let t = trim(frags[i].as_str());
        if t.unicode_len() > 1 {
            let owned = t.to_owned();
            proof {
                assert(strs_view(kept@.push(owned)) =~= strs_view(kept@) + seq![owned@]);
                assert(strs_view(kept@) + (seq![t@] + kept_fragments(
                    strs_view(frags@).skip(i + 1),
                )) =~= strs_view(kept@.push(owned)) + kept_fragments(
                    strs_view(frags@).skip(i + 1),
                ));
            }
            kept.push(owned);
        }
        i = i + 1;
    }
    proof {
        assert(strs_view(frags@).skip(n as int) =~= Seq::<Seq<char>>::empty());
        assert(strs_view(kept@) + Seq::<Seq<char>>::empty() =~= strs_view(kept@));
    }
    kept
}

/// Extracts the readable text of a document: text nodes outside boilerplate
/// subtrees, trimmed, freed of one-character noise, and joined with spaces.
pub fn extract_text_content(html: &str) -> (r: String)
    ensures
        r@ == extracted_text(html@),
{
    let frags = collect_text_fragments(
        html,
        "script,style,nav,footer,header,aside,svg,noscript",
    );
    proof {
        assert(strs_view(frags@) =~= frags.deep_view());
    }
    let kept = filter_fragments(&frags);
    join_with_space(&kept)
}

/// The text a candidate container offers: the extracted text of its first
/// match, or nothing when the selector matches nowhere.
pub open spec fn candidate_text(html: Seq<char>, sel: Seq<char>) -> Seq<char> {
    let frs = selected_fragments(html, sel);
    if frs.len() > 0 {
        extracted_text(frs[0])
    } else {
        Seq::<char>::empty()
    }
}

/// The candidate container selectors, in priority order.
pub open spec fn content_selectors() -> Seq<Seq<char>> {
    seq![
        "article"@,
        "main"@,
        "[role=\"main\"]"@,
        ".content"@,
        ".post-content"@,
        ".article-content"@,
        ".entry-content"@,
        "#content"@,
        ".main-content"@,
    ]
}

/// The first candidate whose text passes the length threshold, or the whole
/// document's text when none does.
pub open spec fn chain_content(html: Seq<char>, sels: Seq<Seq<char>>) -> Seq<char>
    decreases sels.len(),
{
    if sels.len() == 0 {
        extracted_text(html)
    } else if candidate_text(html, sels[0]).len() > MIN_CONTENT {
        candidate_text(html, sels[0])
    } else {
        chain_content(html, sels.drop_first())
    }
}

/// The main content chosen for a page.
pub open spec fn extract_content_spec(html: Seq<char>) -> Seq<char> {
    chain_content(html, content_selectors())
}

/// Tries one candidate container: the extracted text of its first match,
/// when that text passes the length threshold.
fn try_candidate(html: &str, sel: &str) -> (r: Option<String>)
    ensures
        match r {
            Some(t) => candidate_text(html@, sel@).len() > MIN_CONTENT && t@ == candidate_text(
                html@,
                sel@,
            ),
            None => candidate_text(html@, sel@).len() <= MIN_CONTENT,
        },
{
    let frs = fragments_matching(html, sel);
    proof {
        assert(frs.deep_view().len() == frs@.len());
    }
    if frs.len() > 0 {
        proof {
            assert(frs.deep_view()[0] == frs@[0]@);
        }
        let t = extract_text_content(frs[0].as_str());
        if t.unicode_len() > MIN_CONTENT {
            Some(t)
        } else {
            None
        }
    } else {
        None
    }
}

/// Chooses the main content of a page: candidate containers are tried in
/// priority order and the first one whose text passes the length threshold
/// wins; when none qualifies, the whole document's text is used.
pub fn extract_content(html: &str) -> (r: String)
    ensures
        r@ == extract_content_spec(html@),
{
    let ghost sels = content_selectors();
    proof {
        assert(sels.skip(0) =~= sels);
    }
    if let Some(t) = try_candidate(html, "article") {
        proof {
            assert(chain_content(html@, sels) == candidate_text(html@, "article"@));
        }
        return t;
    }
    proof {
        assert(sels.drop_first() =~= sels.skip(1));
        assert(chain_content(html@, sels) == chain_content(html@, sels.skip(1)));
    }
    if let Some(t) = try_candidate(html, "main") {
        proof {
            assert(sels.skip(1)[0] == "main"@);
            assert(chain_content(html@, sels.skip(1)) == candidate_text(html@, "main"@));
        }
        return t;
    }
    proof {
        assert(sels.skip(1)[0] == "main"@);
        assert(sels.skip(1).drop_first() =~= sels.skip(2));
        assert(chain_content(html@, sels.skip(1)) == chain_content(html@, sels.skip(2)));
    }
    if let Some(t) = try_candidate(html, "[role=\"main\"]") {
        proof {
            assert(sels.skip(2)[0] == "[role=\"main\"]"@);
            assert(chain_content(html@, sels.skip(2)) == candidate_text(
                html@,
                "[role=\"main\"]"@,
            ));
        }
        return t;
    }
    proof {
        assert(sels.skip(2)[0] == "[role=\"main\"]"@);
        assert(sels.skip(2).drop_first() =~= sels.skip(3));
        assert(chain_content(html@, sels.skip(2)) == chain_content(html@, sels.skip(3)));
    }
    if let Some(t) = try_candidate(html, ".content") {
        proof {
            assert(sels.skip(3)[0] == ".content"@);
            assert(chain_content(html@, sels.skip(3)) == candidate_text(html@, ".content"@));
        }
        return t;
    }
    proof {
        assert(sels.skip(3)[0] == ".content"@);
        assert(sels.skip(3).drop_first() =~= sels.skip(4));
        assert(chain_content(html@, sels.skip(3)) == chain_content(html@, sels.skip(4)));
    }
    if let Some(t) = try_candidate(html, ".post-content") {
        proof {
            assert(sels.skip(4)[0] == ".post-content"@);
            assert(chain_content(html@, sels.skip(4)) == candidate_text(
                html@,
                ".post-content"@,
            ));
        }
        return t;
    }
    proof {
        assert(sels.skip(4)[0] == ".post-content"@);
        assert(sels.skip(4).drop_first() =~= sels.skip(5));
        assert(chain_content(html@, sels.skip(4)) == chain_content(html@, sels.skip(5)));
    }
    if let Some(t) = try_candidate(html, ".article-content") {
        proof {
            assert(sels.skip(5)[0] == ".article-content"@);
            assert(chain_content(html@, sels.skip(5)) == candidate_text(
                html@,
                ".article-content"@,
            ));
        }
        return t;
    }
    proof {
        assert(sels.skip(5)[0] == ".article-content"@);
        assert(sels.skip(5).drop_first() =~= sels.skip(6));
        assert(chain_content(html@, sels.skip(5)) == chain_content(html@, sels.skip(6)));
    }
    if let Some(t) = try_candidate(html, ".entry-content") {
        proof {
            assert(sels.skip(6)[0] == ".entry-content"@);
            assert(chain_content(html@, sels.skip(6)) == candidate_text(
                html@,
                ".entry-content"@,
            ));
        }
        return t;
    }
    proof {
        assert(sels.skip(6)[0] == ".entry-content"@);
        assert(sels.skip(6).drop_first() =~= sels.skip(7));
        assert(chain_content(html@, sels.skip(6)) == chain_content(html@, sels.skip(7)));
    }
    if let Some(t) = try_candidate(html, "#content") {
        proof {
            assert(sels.skip(7)[0] == "#content"@);
            assert(chain_content(html@, sels.skip(7)) == candidate_text(html@, "#content"@));
        }
        return t;
    }
    proof {
        assert(sels.skip(7)[0] == "#content"@);
        assert(sels.skip(7).drop_first() =~= sels.skip(8));
        assert(chain_content(html@, sels.skip(7)) == chain_content(html@, sels.skip(8)));
    }
    if let Some(t) = try_candidate(html, ".main-content") {
        proof {
            assert(sels.skip(8)[0] == ".main-content"@);
            assert(chain_content(html@, sels.skip(8)) == candidate_text(
                html@,
                ".main-content"@,
            ));
        }
        return t;
    }
    proof {
        assert(sels.skip(8)[0] == ".main-content"@);
        assert(sels.skip(8).drop_first() =~= sels.skip(9));
        assert(sels.skip(9) =~= Seq::<Seq<char>>::empty());
        assert(chain_content(html@, sels.skip(8)) == chain_content(html@, sels.skip(9)));
        assert(chain_content(html@, sels.skip(9)) == extracted_text(html@));
    }
    extract_text_content(html)
}

/// When no candidate container passes the length threshold, content
/// selection falls back to the whole document's text.
pub proof fn lemma_fallback_to_whole_document(html: Seq<char>, sels: Seq<Seq<char>>)
    requires
        forall|k: int| 0 <= k < sels.len() ==> candidate_text(html, #[trigger] sels[k]).len()
            <= MIN_CONTENT,
    ensures
        chain_content(html, sels) == extracted_text(html),
    decreases sels.len(),
{
    if sels.len() > 0 {
        assert(candidate_text(html, sels[0]).len() <= MIN_CONTENT);
        assert(forall|k: int| 0 <= k < sels.drop_first().len() ==> sels.drop_first()[k]
            == sels[k + 1]);
        lemma_fallback_to_whole_document(html, sels.drop_first());
    }
}

/// Every kept fragment is longer than one character.
proof fn lemma_kept_fragments_long(frs: Seq<Seq<char>>, j: int)
    requires
        0 <= j < kept_fragments(frs).len(),
    ensures
        kept_fragments(frs)[j].len() > 1,
    decreases frs.len(),
{
    if frs.len() > 0 {
        if trim_spec(frs[0]).len() > 1 {
            if j > 0 {
                lemma_kept_fragments_long(frs.drop_first(), j - 1);
            }
        } else {
            lemma_kept_fragments_long(frs.drop_first(), j);
        }
    }
}

/// A fragment whose trimmed text passes the noise filter keeps the kept list
/// non-empty.
proof fn lemma_kept_fragments_nonempty(frs: Seq<Seq<char>>, k: int)
    requires
        0 <= k < frs.len(),
        trim_spec(frs[k]).len() > 1,
    ensures
        kept_fragments(frs).len() > 0,
    decreases frs.len(),
{
    if frs.len() > 0 {
        if trim_spec(frs[0]).len() > 1 {
        } else {
            assert(frs.drop_first()[k - 1] == frs[k]);
            lemma_kept_fragments_nonempty(frs.drop_first(), k - 1);
        }
    }
}

/// A document with any text node that passes the noise filter extracts to
/// non-empty text.
pub proof fn lemma_extracted_text_nonempty(html: Seq<char>, k: int)
    requires
        0 <= k < text_fragments_in(html, skip_tags_list()).len(),
        trim_spec(text_fragments_in(html, skip_tags_list())[k]).len() > 1,
    ensures
        extracted_text(html).len() > 0,
{
    let frs = text_fragments_in(html, skip_tags_list());
    lemma_kept_fragments_nonempty(frs, k);
    lemma_kept_fragments_long(frs, 0);
}

/// The fixed label every extracted page is prefixed with.
pub open spec fn content_header() -> Seq<char> {
    "Webpage Content:\n\n"@
}

/// The marker appended when the content was cut at the size ceiling.
pub open spec fn truncation_marker() -> Seq<char> {
    "\n\n[Content truncated due to size...]"@
}

/// The lines that survive cleaning: each line is trimmed; blank lines are
/// dropped, and lines shorter than three characters are dropped once any
/// real content has been seen.
pub open spec fn kept_lines(lines: Seq<Seq<char>>, seen: bool) -> Seq<Seq<char>>
    decreases lines.len(),
{
    if lines.len() == 0 {
        Seq::<Seq<char>>::empty()
    } else {
        let t = trim_spec(lines[0]);
        if t.len() == 0 {
            kept_lines(lines.drop_first(), seen)
        } else if t.len() < 3 && seen {
            kept_lines(lines.drop_first(), seen)
        } else {
            seq![t] + kept_lines(lines.drop_first(), true)
        }
    }
}

/// The cleaned body of a page before the size ceiling is applied: kept
/// lines joined with spaces, with all whitespace runs collapsed.
pub open spec fn cleaned_core(s: Seq<char>) -> Seq<char> {
    collapse_ws(join_space(kept_lines(split_lines_spec(s), false)))
}

/// Whether cleaning had to cut the content at the size ceiling.
pub open spec fn content_truncated(s: Seq<char>) -> bool {
    cleaned_core(s).len() > MAX_CONTENT
}

/// The final cleaned text: the header, the (possibly clipped) body, and the
/// truncation marker when the body was clipped.
pub open spec fn cleaned_text(s: Seq<char>) -> Seq<char> {
    if content_truncated(s) {
        content_header() + cleaned_core(s).take(MAX_CONTENT as int) + truncation_marker()
    } else {
        content_header() + cleaned_core(s)
    }
}

/// Keeps the content lines that survive cleaning.
fn filter_lines(lines: &Vec<String>) -> (r: Vec<String>)
    ensures
        strs_view(r@) == kept_lines(strs_view(lines@), false),
{
    let n = lines.len();
    let mut kept: Vec<String> = Vec::new();
    let mut seen = false;
    proof {
        assert(strs_view(lines@).skip(0) =~= strs_view(lines@));
        assert(strs_view(kept@) + kept_lines(strs_view(lines@), false) =~= kept_lines(
            strs_view(lines@),
            false,
        ));
    }
    let mut i: usize = 0;
    while i < n
        invariant
            n == lines@.len(),
            0 <= i <= n,
            kept_lines(strs_view(lines@), false) == strs_view(kept@) + kept_lines(
                strs_view(lines@).skip(i as int),
                seen,
            ),
        decreases n - i,
    {
        proof {
            assert(strs_view(lines@).skip(i as int)[0] == lines@[i as int]@);
            assert(strs_view(lines@).skip(i as int).drop_first() =~= strs_view(lines@).skip(
                i + 1,
            ));
        }
        let t = trim(lines[i].as_str());
        let tl = t.unicode_len();
        if tl == 0 {
        } else if tl < 3 && seen {
        } else {
            let owned = t.to_owned();
            proof {
                assert(strs_view(kept@.push(owned)) =~= strs_view(kept@) + seq![owned@]);
                assert(strs_view(kept@) + (seq![t@] + kept_lines(
                    strs_view(lines@).skip(i + 1),
                    true,
                )) =~= strs_view(kept@.push(owned)) + kept_lines(
                    strs_view(lines@).skip(i + 1),
                    true,
                ));
            }
            kept.push(owned);
            seen = true;
        }
        i = i + 1;
    }
    proof {
        assert(strs_view(lines@).skip(n as int) =~= Seq::<Seq<char>>::empty());
        assert(strs_view(kept@) + Seq::<Seq<char>>::empty() =~= strs_view(kept@));
    }
    kept
}

/// Cleans extracted content: lines are trimmed and filtered, joined with
/// spaces, whitespace runs are collapsed, and the result is clipped at the
/// size ceiling and prefixed with the content header.  The text never
/// exceeds header + ceiling + marker in length, and it ends with the
/// truncation marker exactly when the body was clipped.
pub fn clean_content(content: &str) -> (ep: ExtractedPage)
    ensures
        ep.text@ == cleaned_text(content@),
        ep.truncated == content_truncated(content@),
        ep.text@.len() <= content_header().len() + MAX_CONTENT + truncation_marker().len(),
        ep.truncated ==> ep.text@.len() >= truncation_marker().len() && ep.text@.subrange(
            ep.text@.len() - truncation_marker().len(),
            ep.text@.len() as int,
        ) == truncation_marker(),
{
    let lines = split_lines(content);
    let kept = filter_lines(&lines);
    let joined = join_with_space(&kept);
    let collapsed = collapse(joined.as_str());
    let core_len = collapsed.unicode_len();
    let truncated = core_len > MAX_CONTENT;
    let mut text = String::new();
    text.append("Webpage Content:\n\n");
    if truncated {
        let cut = collapsed.as_str().substring_char(0, MAX_CONTENT);
        text.append(cut);
        text.append("\n\n[Content truncated due to size...]");
        proof {
            let whole = content_header() + cleaned_core(content@).take(MAX_CONTENT as int)
                + truncation_marker();
            assert(text@ =~= whole);
            assert(whole.subrange(
                whole.len() - truncation_marker().len(),
                whole.len() as int,
            ) =~= truncation_marker());
        }
    } else {
        text.append(collapsed.as_str());
        proof {
            assert(text@ =~= content_header() + cleaned_core(content@));
        }
    }
    ExtractedPage { text, truncated }
}

/// The readable error text for a failed content fetch.
pub open spec fn http_error_text(status: nat, url: Seq<char>) -> Seq<char> {
    "HTTP Error: "@ + dec_str(status) + " - Failed to fetch content from: "@ + url
}

/// `needle` occurs in the concatenation that surrounds it.
proof fn lemma_contains_middle(a: Seq<char>, b: Seq<char>, c: Seq<char>)
    ensures
        contains_seq(a + b + c, b),
{
    let whole = a + b + c;
    assert(whole.subrange(a.len() as int, a.len() + b.len() as int) =~= b);
    assert(is_match_at(whole, b, a.len() as int));
    lemma_find_first(whole, b);
}

/// Builds the page a content fetch hands back: a non-success status yields a
/// readable error description naming the status code and the URL (never a
/// failure); a success status yields the cleaned main content of the page.
pub fn extract_page(url: &str, status: u16, html: &str) -> (ep: ExtractedPage)
    ensures
        !(200 <= status < 300) ==> ep.text@ == http_error_text(status as nat, url@)
            && !ep.truncated && contains_seq(ep.text@, dec_str(status as nat)) && contains_seq(
            ep.text@,
            url@,
        ),
        200 <= status < 300 ==> ep.text@ == cleaned_text(extract_content_spec(html@))
            && ep.truncated == content_truncated(extract_content_spec(html@)),
{
    if status < 200 || status >= 300 {
        let mut text = String::new();
        text.append("HTTP Error: ");
        push_dec(&mut text, status as usize);
        text.append(" - Failed to fetch content from: ");
        text.append(url);
        proof {
            assert(text@ =~= http_error_text(status as nat, url@));
            lemma_contains_middle(
                "HTTP Error: "@,
                dec_str(status as nat),
                " - Failed to fetch content from: "@ + url@,
            );
            assert("HTTP Error: "@ + dec_str(status as nat) + (
            " - Failed to fetch content from: "@ + url@) =~= text@);
            lemma_contains_middle(
                "HTTP Error: "@ + dec_str(status as nat) + " - Failed to fetch content from: "@,
                url@,
                Seq::<char>::empty(),
            );
            assert(("HTTP Error: "@ + dec_str(status as nat)
                + " - Failed to fetch content from: "@ + url@) + Seq::<char>::empty() =~= text@);
        }
        ExtractedPage { text, truncated: false }
    } else {
        let content = extract_content(html);
        clean_content(content.as_str())
    }
}

} // verus!
