//! Destination-URL resolution for parsed search entries: redirect-wrapped
//! links are decoded, protocol-relative links are completed, absolute links
//! pass through, and anything else yields no usable URL.

use vstd::prelude::*;
use crate::text::{
    contains_seq, find_first, find_sub, is_match_at, lemma_find_first, starts_with,
    starts_with_spec,
};

verus! {

/// What urlencoding::decode returns on a given input, when it succeeds.
pub uninterp spec fn percent_decoded(s: Seq<char>) -> Option<Seq<char>>;

/// Relies on urlencoding::decode: percent-decodes a string, failing exactly
/// when the decoded bytes are not valid UTF-8.  The result depends on the
/// input characters alone.
#[verifier::external_body]
fn percent_decode(s: &str) -> (r: Option<String>)
    ensures
        match r {
            Some(d) => percent_decoded(s@) == Some(d@),
            None => percent_decoded(s@) is None,
        },
{
    match urlencoding::decode(s) {
        Ok(d) => Some(d.into_owned()),
        Err(_) => None,
    }
}

/// The query-parameter marker the upstream engine wraps destinations behind.
pub open spec fn redirect_marker() -> Seq<char> {
    "uddg="@
}

/// The percent-encoded destination carried after the first redirect marker,
/// cut at the first following '&'.
pub open spec fn redirect_param(u: Seq<char>) -> Seq<char> {
    let start = find_first(u, redirect_marker()) + redirect_marker().len();
    let after = u.subrange(start as int, u.len() as int);
    let amp = find_first(after, "&"@);
    if amp >= 0 {
        after.subrange(0, amp)
    } else {
        after
    }
}

/// The resolved destination of a raw link, if it has one: a redirect-wrapped
/// link decodes its carried parameter, a protocol-relative link gains the
/// https scheme, an absolute http(s) link stands as it is, and any other
/// form resolves to nothing.
pub open spec fn resolve_url_spec(u: Seq<char>) -> Option<Seq<char>> {
    if contains_seq(u, redirect_marker()) {
        percent_decoded(redirect_param(u))
    } else if u.len() >= 2 && u[0] == '/' && u[1] == '/' {
        Some("https:"@ + u)
    } else if starts_with_spec(u, "http://"@) || starts_with_spec(u, "https://"@) {
        Some(u)
    } else {
        None
    }
}

/// A protocol-relative link free of the redirect marker resolves to itself
/// behind the https scheme.
pub proof fn lemma_protocol_relative_resolution(u: Seq<char>)
    requires
        !contains_seq(u, redirect_marker()),
        u.len() >= 2,
        u[0] == '/',
        u[1] == '/',
    ensures
        resolve_url_spec(u) == Some("https:"@ + u),
{
}

/// Resolves a raw destination link to a real URL, when it has one.
pub fn extract_real_url(ddg_url: &str) -> (r: Option<String>)
    ensures
        match r {
            Some(u) => resolve_url_spec(ddg_url@) == Some(u@),
            None => resolve_url_spec(ddg_url@) is None,
        },
{
    let len = ddg_url.unicode_len();
    match find_sub(ddg_url, "uddg=") {
        Some(i) => {
            proof {
                lemma_find_first(ddg_url@, "uddg="@);
                reveal_strlit("uddg=");
                assert(is_match_at(ddg_url@, "uddg="@, i as int));
            }
            let start = i + 5;
            let after = ddg_url.substring_char(start, len);
            let enc = match find_sub(after, "&") {
                Some(a) => {
                    proof {
                        lemma_find_first(after@, "&"@);
                    }
                    after.substring_char(0, a)
                },
                None => after,
            };
            proof {
                assert(enc@ == redirect_param(ddg_url@));
            }
            percent_decode(enc)
        },
        None => {
            if len >= 2 && ddg_url.get_char(0) == '/' && ddg_url.get_char(1) == '/' {
                let mut out = String::new();
                out.append("https:");
                out.append(ddg_url);
                proof {
                    assert(out@ =~= "https:"@ + ddg_url@);
                }
                Some(out)
            } else if starts_with(ddg_url, "http://") || starts_with(ddg_url, "https://") {
                Some(ddg_url.to_owned())
            } else {
                None
            }
        },
    }
}

} // verus!
