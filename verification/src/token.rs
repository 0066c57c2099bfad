//! TokenExtractor: pulls the embedded session search key out of a served
//! HTML page.
//!
//! The page carries the key as `search_key&quot;:&quot;<key>&`, the
//! HTML-entity-encoded form of `search_key":"<key>&`. Scanning marker
//! occurrences left to right, the first one followed by a nonempty maximal
//! run of lowercase alphanumerics terminated by `&` yields that run as the
//! key; an empty run is no session key and captures nothing.

use vstd::prelude::*;

use crate::errors::ExtractionError;
use crate::text::is_lower_alnum;
use crate::text::lit_at;
use crate::text::lit_matches_at;
use crate::text::run_len;
use crate::text::scan_run;

verus! {

/// The marker that precedes the search key, in the encoded form in which
/// the page serves it.
pub open spec fn search_key_marker() -> Seq<char> {
    "search_key&quot;:&quot;"@
}

/// Whether a capturable key sits at marker position `i`: the marker occurs
/// there and the nonempty maximal token run after it is terminated by `&`.
pub open spec fn token_match_at(s: Seq<char>, i: int) -> bool {
    let p = i + search_key_marker().len();
    &&& lit_at(s, i, search_key_marker())
    &&& run_len(s, p) >= 1
    &&& p + run_len(s, p) < s.len()
    &&& s[p + run_len(s, p)] == '&'
}

/// The key captured at marker position `i`.
pub open spec fn token_at(s: Seq<char>, i: int) -> Seq<char> {
    let p = i + search_key_marker().len();
    s.subrange(p, p + run_len(s, p))
}

/// The captured search key, scanning candidate positions from `i` upward.
pub open spec fn search_key_from(s: Seq<char>, i: int) -> Option<Seq<char>>
    decreases s.len() - i,
{
    if i < 0 || i >= s.len() {
        None
    } else if token_match_at(s, i) {
        Some(token_at(s, i))
    } else {
        search_key_from(s, i + 1)
    }
}

/// The search key of a whole page: the leftmost capturable marker wins.
pub open spec fn search_key_of(s: Seq<char>) -> Option<Seq<char>> {
    search_key_from(s, 0)
}

/// Extract the session search key from a served page.
///
/// Returns the key of the leftmost capturable marker — a nonempty run of
/// lowercase alphanumerics terminated by `&` — or
/// `ExtractionError::MarkerNotFound` exactly when no marker occurrence in
/// the page captures one.
pub fn extract_search_key(html: &str) -> (r: Result<String, ExtractionError>)
    ensures
        match r {
            Ok(t) => search_key_of(html@) == Some(t@),
            Err(e) => search_key_of(html@) is None && e == ExtractionError::MarkerNotFound,
        },
{
    let marker = "search_key&quot;:&quot;";
    proof {
        assert(marker@ == search_key_marker());
    }
    let n = html.unicode_len();
    let mlen = marker.unicode_len();
    let mut i: usize = 0;
    while i < n
        invariant
            0 <= i <= n,
            n == html@.len(),
            marker@ == search_key_marker(),
            mlen == search_key_marker().len(),
            search_key_from(html@, 0) == search_key_from(html@, i as int),
        decreases n - i,
    {
        if lit_matches_at(html, i, marker) {
            let p = i + mlen;
            let j = scan_run(html, p);
            if j > p && j < n && html.get_char(j) == '&' {
                let tok = html.substring_char(p, j);
                proof {
                    assert(token_match_at(html@, i as int));
                    assert(tok@ =~= token_at(html@, i as int));
                }
                return Ok(tok.to_owned());
            }
            proof {
                assert(!token_match_at(html@, i as int));
            }
        } else {
            proof {
                assert(!token_match_at(html@, i as int));
            }
        }
        i = i + 1;
    }
    Err(ExtractionError::MarkerNotFound)
}

/// No token match at or after `i` means no key is captured from `i` on.
proof fn lemma_no_match_from(s: Seq<char>, i: int)
    requires
        forall|j: int| i <= j ==> !token_match_at(s, j),
    ensures
        search_key_from(s, i) is None,
    decreases s.len() - i,
{
    if 0 <= i && i < s.len() {
        lemma_no_match_from(s, i + 1);
    }
}

/// The first capturable marker position decides the extracted key.
pub proof fn lemma_search_key_found(s: Seq<char>, i: int)
    requires
        token_match_at(s, i),
        forall|j: int| 0 <= j < i ==> !token_match_at(s, j),
    ensures
        search_key_of(s) == Some(token_at(s, i)),
{
    lemma_search_key_found_from(s, 0, i);
}

/// Helper: scanning from `k` (at or before the first capturable position
/// `i`) lands on `i`.
proof fn lemma_search_key_found_from(s: Seq<char>, k: int, i: int)
    requires
        0 <= k <= i,
        token_match_at(s, i),
        forall|j: int| k <= j < i ==> !token_match_at(s, j),
    ensures
        search_key_from(s, k) == Some(token_at(s, i)),
    decreases i - k,
{
    assert(i + search_key_marker().len() <= s.len());
    if k < i {
        lemma_search_key_found_from(s, k + 1, i);
    }
}

/// Law: a page without any capturable marker fails extraction.
pub proof fn lemma_no_marker_no_key(s: Seq<char>)
    requires
        forall|i: int| !lit_at(s, i, search_key_marker()),
    ensures
        search_key_of(s) is None,
{
    assert forall|j: int| 0 <= j implies !token_match_at(s, j) by {
        assert(!lit_at(s, j, search_key_marker()));
    }
    lemma_no_match_from(s, 0);
}

/// Law: a page that carries the marker followed by the token characters
/// `key` and a terminating `&`, with no earlier capturable marker, yields
/// exactly `key`.
pub proof fn lemma_marker_with_key(s: Seq<char>, i: int, key: Seq<char>)
    requires
        lit_at(s, i, search_key_marker() + key + seq!['&']),
        key.len() >= 1,
        forall|k: int| 0 <= k < key.len() ==> is_lower_alnum(key[k]),
        forall|j: int| 0 <= j < i ==> !token_match_at(s, j),
    ensures
        search_key_of(s) == Some(key),
{
    let lit = search_key_marker() + key + seq!['&'];
    let mlen = search_key_marker().len();
    let p = i + mlen;
    assert forall|t: int| 0 <= t < lit.len() implies s[i + t] == lit[t] by {
        assert(s.subrange(i, i + lit.len())[t] == lit[t]);
    }
    assert(lit_at(s, i, search_key_marker())) by {
        assert(s.subrange(i, i + mlen) =~= search_key_marker());
    }
    assert forall|k: int| p <= k < p + key.len() implies is_lower_alnum(s[k]) by {
        assert(s[k] == lit[k - i]);
        assert(lit[k - i] == key[k - i - mlen]);
    }
    assert(s[p + key.len()] == '&') by {
        assert(lit[mlen + key.len() as int] == '&');
    }
    assert(!is_lower_alnum('&'));
    crate::text::lemma_run_len_chars(s, p, p + key.len());
    assert(token_match_at(s, i));
    assert forall|t: int| 0 <= t < key.len() implies s[p + t] == key[t] by {
        assert(s[i + (mlen + t)] == lit[mlen + t]);
        assert(lit[mlen + t] == key[t]);
    }
    assert(token_at(s, i) =~= key);
    lemma_search_key_found(s, i);
}

/// Instance of `lemma_marker_with_key` for the key `abc123`.
pub proof fn lemma_marker_abc123(s: Seq<char>, i: int)
    requires
        lit_at(s, i, "search_key&quot;:&quot;abc123&"@),
        forall|j: int| 0 <= j < i ==> !token_match_at(s, j),
    ensures
        search_key_of(s) == Some("abc123"@),
{
    reveal_strlit("search_key&quot;:&quot;abc123&");
    reveal_strlit("search_key&quot;:&quot;");
    reveal_strlit("abc123");
    let key = "abc123"@;
    assert("search_key&quot;:&quot;abc123&"@ =~= search_key_marker() + key + seq!['&']);
    assert forall|k: int| 0 <= k < key.len() implies is_lower_alnum(key[k]) by {
        assert(key.len() == 6);
        assert(is_lower_alnum(key[0]) && is_lower_alnum(key[1]) && is_lower_alnum(key[2])
            && is_lower_alnum(key[3]) && is_lower_alnum(key[4]) && is_lower_alnum(key[5]));
    }
    lemma_marker_with_key(s, i, key);
}

} // verus!
