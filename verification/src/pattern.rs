//! NotificationAssembler's pattern step: find the property id inside
//! inbound mail content.
//!
//! The content may carry quoted-printable soft line breaks, so every
//! literal `=\r\n` is stripped first and every remaining `\r\n` after it.
//! The property id is then the lowercase alphanumeric token of the first
//! gallery image URL: the literal gallery prefix, at least one further
//! character, and the earliest token run terminated by `.jpg`.

use vstd::prelude::*;

use crate::errors::PatternNotFoundError;
use crate::text::is_lower_alnum;
use crate::text::lit_at;
use crate::text::lit_matches_at;
use crate::text::run_len;
use crate::text::scan_run;

verus! {

/// `s` with every occurrence of `pat` removed, scanning left to right over
/// non-overlapping occurrences.
pub open spec fn strip_lit(s: Seq<char>, pat: Seq<char>) -> Seq<char>
    recommends
        pat.len() > 0,
    decreases s.len(),
{
    if s.len() == 0 {
        Seq::empty()
    } else if pat.len() > 0 && s.len() >= pat.len() && s.subrange(0, pat.len() as int) == pat {
        strip_lit(s.skip(pat.len() as int), pat)
    } else {
        seq![s[0]] + strip_lit(s.skip(1), pat)
    }
}

/// Inbound content with soft line breaks stripped: first every `=\r\n`,
/// then every remaining `\r\n`.
pub open spec fn cleaned(s: Seq<char>) -> Seq<char> {
    strip_lit(strip_lit(s, "=\r\n"@), "\r\n"@)
}

/// Remove every occurrence of `pat` from `s`, scanning left to right.
pub fn strip_pattern(s: &str, pat: &str) -> (r: String)
    requires
        pat@.len() > 0,
    ensures
        r@ == strip_lit(s@, pat@),
{
    let n = s.unicode_len();
    let plen = pat.unicode_len();
    let mut out = String::new();
    let mut i: usize = 0;
    proof {
        assert(s@.skip(0) =~= s@);
        assert(out@ + strip_lit(s@, pat@) =~= strip_lit(s@, pat@));
    }
    while i < n
        invariant
            0 <= i <= n,
            n == s@.len(),
            plen == pat@.len(),
            plen > 0,
            out@ + strip_lit(s@.skip(i as int), pat@) == strip_lit(s@, pat@),
        decreases n - i,
    {
        let ghost tail = s@.skip(i as int);
        if lit_matches_at(s, i, pat) {
            proof {
                assert(tail.len() >= pat@.len());
                assert(tail.subrange(0, pat@.len() as int) =~= s@.subrange(
                    i as int,
                    i + pat@.len(),
                ));
                assert(tail.skip(pat@.len() as int) =~= s@.skip(i + plen));
                assert(strip_lit(tail, pat@) == strip_lit(s@.skip(i + plen), pat@));
            }
            i = i + plen;
        } else {
            let piece = s.substring_char(i, i + 1);
            out.append(piece);
            proof {
                if tail.len() >= pat@.len() {
                    assert(tail.subrange(0, pat@.len() as int) =~= s@.subrange(
                        i as int,
                        i + pat@.len(),
                    ));
                }
                assert(tail[0] == s@[i as int]);
                assert(tail.skip(1) =~= s@.skip(i + 1));
                assert(strip_lit(tail, pat@) == seq![s@[i as int]] + strip_lit(
                    s@.skip(i + 1),
                    pat@,
                ));
                assert(piece@ =~= seq![s@[i as int]]);
                assert(out@ + strip_lit(s@.skip(i + 1), pat@) =~= strip_lit(s@, pat@));
            }
            i = i + 1;
        }
    }
    proof {
        assert(s@.skip(n as int).len() == 0);
        assert(out@ + strip_lit(s@.skip(n as int), pat@) =~= out@);
    }
    out
}

/// Strip soft line breaks from inbound content.
pub fn clean_content(s: &str) -> (r: String)
    ensures
        r@ == cleaned(s@),
{
    proof {
        reveal_strlit("=\r\n");
        reveal_strlit("\r\n");
    }
    let pass = strip_pattern(s, "=\r\n");
    strip_pattern(pass.as_str(), "\r\n")
}

/// The gallery URL prefix that precedes a property id.
pub open spec fn gallery_prefix() -> Seq<char> {
    "https://bilder.hemnet.se/images/itemgallery"@
}

/// Capture attempt at `q`: a nonempty maximal token run terminated by
/// `.jpg` yields the run.
pub open spec fn gallery_cap_at(s: Seq<char>, q: int) -> Option<Seq<char>> {
    let m = run_len(s, q);
    if m >= 1 && q + m + 4 <= s.len() && s[q + m] == '.' && s[q + m + 1] == 'j' && s[q + m + 2]
        == 'p' && s[q + m + 3] == 'g' {
        Some(s.subrange(q, q + m))
    } else {
        None
    }
}

/// The earliest capture at or after `q`.
pub open spec fn gallery_search(s: Seq<char>, q: int) -> Option<Seq<char>>
    decreases s.len() - q,
{
    if q < 0 || q >= s.len() {
        None
    } else if gallery_cap_at(s, q) is Some {
        gallery_cap_at(s, q)
    } else {
        gallery_search(s, q + 1)
    }
}

/// Whether the gallery prefix at `i`, followed by at least one character,
/// admits a capture.
pub open spec fn gallery_match_at(s: Seq<char>, i: int) -> bool {
    lit_at(s, i, gallery_prefix()) && gallery_search(s, i + gallery_prefix().len() + 1) is Some
}

/// The captured token, scanning prefix occurrences from `i` upward.
pub open spec fn gallery_from(s: Seq<char>, i: int) -> Option<Seq<char>>
    decreases s.len() - i,
{
    if i < 0 || i >= s.len() {
        None
    } else if gallery_match_at(s, i) {
        gallery_search(s, i + gallery_prefix().len() + 1)
    } else {
        gallery_from(s, i + 1)
    }
}

/// The gallery token of a text: the leftmost prefix occurrence that admits
/// a capture decides.
pub open spec fn gallery_token_of(s: Seq<char>) -> Option<Seq<char>> {
    gallery_from(s, 0)
}

/// The property id carried by inbound content: the gallery token of the
/// cleaned text.
pub open spec fn property_id_of(content: Seq<char>) -> Option<Seq<char>> {
    gallery_token_of(cleaned(content))
}

/// Find the gallery token in an already-cleaned text.
pub fn find_gallery_token(s: &str) -> (r: Option<String>)
    ensures
        match r {
            Some(t) => gallery_token_of(s@) == Some(t@),
            None => gallery_token_of(s@) is None,
        },
{
    let prefix = "https://bilder.hemnet.se/images/itemgallery";
    proof {
        assert(prefix@ == gallery_prefix());
    }
    let n = s.unicode_len();
    let plen = prefix.unicode_len();
    let mut i: usize = 0;
    while i < n
        invariant
            0 <= i <= n,
            n == s@.len(),
            prefix@ == gallery_prefix(),
            plen == gallery_prefix().len(),
            gallery_from(s@, 0) == gallery_from(s@, i as int),
        decreases n - i,
    {
        if lit_matches_at(s, i, prefix) {
            if i + plen < n {
                let q0 = i + plen + 1;
                let mut q = q0;
                while q < n
                    invariant
                        q0 <= q,
                        q0 == i + plen + 1,
                        i + plen < n,
                        n == s@.len(),
                        plen == gallery_prefix().len(),
                        lit_at(s@, i as int, gallery_prefix()),
                        gallery_search(s@, q0 as int) == gallery_search(s@, q as int),
                        gallery_from(s@, 0) == gallery_from(s@, i as int),
                    decreases n - q,
                {
                    let j = scan_run(s, q);
                    let m = j - q;
                    if m >= 1 && n - j >= 4 && s.get_char(j) == '.' && s.get_char(j + 1) == 'j'
                        && s.get_char(j + 2) == 'p' && s.get_char(j + 3) == 'g' {
                        let tok = s.substring_char(q, j);
                        proof {
                            assert(gallery_cap_at(s@, q as int) == Some(tok@));
                            assert(gallery_search(s@, q as int) == Some(tok@));
                            assert(gallery_match_at(s@, i as int));
                            assert(gallery_from(s@, i as int) == Some(tok@));
                        }
                        return Some(tok.to_owned());
                    }
                    proof {
                        assert(gallery_cap_at(s@, q as int) is None);
                    }
                    q = q + 1;
                }
                proof {
                    assert(gallery_search(s@, q as int) is None);
                    assert(!gallery_match_at(s@, i as int));
                }
            } else {
                proof {
                    assert(i + plen == n);
                    assert(gallery_search(s@, i as int + plen as int + 1) is None);
                    assert(!gallery_match_at(s@, i as int));
                }
            }
        } else {
            proof {
                assert(!gallery_match_at(s@, i as int));
            }
        }
        i = i + 1;
    }
    None
}

/// Extract the property id from raw inbound mail content.
///
/// Strips soft line breaks, then captures the token of the first gallery
/// image URL; fails with `PatternNotFoundError` exactly when the cleaned
/// content holds no such URL.
pub fn extract_property_id(content: &str) -> (r: Result<String, PatternNotFoundError>)
    ensures
        match r {
            Ok(t) => property_id_of(content@) == Some(t@),
            Err(e) => property_id_of(content@) is None && e == PatternNotFoundError::NoMatch,
        },
{
    let c = clean_content(content);
    match find_gallery_token(c.as_str()) {
        Some(t) => Ok(t),
        None => Err(PatternNotFoundError::NoMatch),
    }
}

/// No gallery match at or after `i` means no token is captured from `i` on.
proof fn lemma_no_gallery_from(s: Seq<char>, i: int)
    requires
        forall|j: int| i <= j ==> !gallery_match_at(s, j),
    ensures
        gallery_from(s, i) is None,
    decreases s.len() - i,
{
    if 0 <= i && i < s.len() {
        lemma_no_gallery_from(s, i + 1);
    }
}

/// Law: a text without the gallery prefix anywhere captures nothing.
pub proof fn lemma_no_prefix_no_token(s: Seq<char>)
    requires
        forall|i: int| !lit_at(s, i, gallery_prefix()),
    ensures
        gallery_token_of(s) is None,
{
    assert forall|j: int| 0 <= j implies !gallery_match_at(s, j) by {
        assert(!lit_at(s, j, gallery_prefix()));
    }
    lemma_no_gallery_from(s, 0);
}

/// Scanning from `k` (at or before the first matching position `i`) lands
/// on `i`.
proof fn lemma_gallery_found_from(s: Seq<char>, k: int, i: int)
    requires
        0 <= k <= i,
        gallery_match_at(s, i),
        forall|j: int| k <= j < i ==> !gallery_match_at(s, j),
    ensures
        gallery_from(s, k) == gallery_search(s, i + gallery_prefix().len() + 1),
    decreases i - k,
{
    assert(i + gallery_prefix().len() <= s.len());
    if k < i {
        lemma_gallery_found_from(s, k + 1, i);
    }
}

/// The first matching prefix occurrence decides the captured token.
pub proof fn lemma_gallery_found(s: Seq<char>, i: int)
    requires
        gallery_match_at(s, i),
        forall|j: int| 0 <= j < i ==> !gallery_match_at(s, j),
    ensures
        gallery_token_of(s) == gallery_search(s, i + gallery_prefix().len() + 1),
{
    lemma_gallery_found_from(s, 0, i);
}

/// Law: a text that carries the gallery prefix, a one-character path
/// separator, the token `key` and the terminator `.jpg`, with no earlier
/// matching prefix occurrence, captures exactly `key`.
pub proof fn lemma_gallery_with_key(s: Seq<char>, i: int, key: Seq<char>)
    requires
        lit_at(s, i, gallery_prefix() + seq!['/'] + key + seq!['.', 'j', 'p', 'g']),
        key.len() >= 1,
        forall|k: int| 0 <= k < key.len() ==> is_lower_alnum(key[k]),
        forall|j: int| 0 <= j < i ==> !gallery_match_at(s, j),
    ensures
        gallery_token_of(s) == Some(key),
{
    let lit = gallery_prefix() + seq!['/'] + key + seq!['.', 'j', 'p', 'g'];
    let plen = gallery_prefix().len();
    let q = i + plen + 1;
    assert forall|t: int| 0 <= t < lit.len() implies s[i + t] == lit[t] by {
        assert(s.subrange(i, i + lit.len())[t] == lit[t]);
    }
    assert(lit_at(s, i, gallery_prefix())) by {
        assert(s.subrange(i, i + plen) =~= gallery_prefix());
    }
    assert forall|k: int| q <= k < q + key.len() implies is_lower_alnum(s[k]) by {
        assert(s[i + (k - i)] == lit[k - i]);
        assert(lit[k - i] == key[k - i - plen - 1]);
    }
    assert(s[q + key.len() as int] == '.') by {
        assert(lit[plen + 1 + key.len() as int] == '.');
    }
    assert(!is_lower_alnum('.'));
    crate::text::lemma_run_len_chars(s, q, q + key.len());
    assert(s[q + key.len() as int + 1] == 'j') by {
        assert(lit[plen + 2 + key.len() as int] == 'j');
    }
    assert(s[q + key.len() as int + 2] == 'p') by {
        assert(lit[plen + 3 + key.len() as int] == 'p');
    }
    assert(s[q + key.len() as int + 3] == 'g') by {
        assert(lit[plen + 4 + key.len() as int] == 'g');
    }
    assert forall|t: int| 0 <= t < key.len() implies s[q + t] == key[t] by {
        assert(s[i + (plen + 1 + t)] == lit[plen + 1 + t]);
        assert(lit[plen + 1 + t] == key[t]);
    }
    assert(gallery_cap_at(s, q) == Some(key)) by {
        assert(s.subrange(q, q + key.len() as int) =~= key);
    }
    assert(gallery_search(s, q) == Some(key));
    assert(gallery_match_at(s, i));
    lemma_gallery_found(s, i);
}

} // verus!
