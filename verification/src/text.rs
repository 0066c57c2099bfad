//! Shared text primitives: lowercase-alphanumeric token runs and literal
//! matching over character sequences.

use vstd::prelude::*;

verus! {

/// A character that may appear in an extracted token: a lowercase latin
/// letter or a decimal digit.
pub open spec fn is_lower_alnum(c: char) -> bool {
    ('a' as u32 <= c as u32 && c as u32 <= 'z' as u32) || ('0' as u32 <= c as u32 && c as u32
        <= '9' as u32)
}

/// Executable twin of `is_lower_alnum`.
pub fn lower_alnum(c: char) -> (r: bool)
    ensures
        r == is_lower_alnum(c),
{
    let u = c as u32;
    ('a' as u32 <= u && u <= 'z' as u32) || ('0' as u32 <= u && u <= '9' as u32)
}

/// Length of the maximal run of token characters starting at `p`.
pub open spec fn run_len(s: Seq<char>, p: int) -> int
    decreases s.len() - p,
{
    if p < 0 || p >= s.len() || !is_lower_alnum(s[p]) {
        0
    } else {
        1 + run_len(s, p + 1)
    }
}

/// A scan that stopped at the first non-token character measured the
/// maximal run exactly.
pub proof fn lemma_run_len_chars(s: Seq<char>, p: int, j: int)
    requires
        0 <= p <= j <= s.len(),
        forall|k: int| p <= k < j ==> is_lower_alnum(s[k]),
        j < s.len() ==> !is_lower_alnum(s[j]),
    ensures
        run_len(s, p) == j - p,
    decreases j - p,
{
    if p < j {
        lemma_run_len_chars(s, p + 1, j);
    }
}

/// Advance past the maximal run of token characters starting at `p`;
/// returns the index just after the run.
pub fn scan_run(s: &str, p: usize) -> (j: usize)
    requires
        p <= s@.len(),
    ensures
        p <= j <= s@.len(),
        j - p == run_len(s@, p as int),
{
    let n = s.unicode_len();
    let mut j = p;
    while j < n && lower_alnum(s.get_char(j))
        invariant
            p <= j <= n,
            n == s@.len(),
            forall|k: int| p <= k < j ==> is_lower_alnum(s@[k]),
        decreases n - j,
    {
        j = j + 1;
    }
    proof {
        lemma_run_len_chars(s@, p as int, j as int);
    }
    j
}

/// Whether `lit` occurs in `s` as the characters starting at `i`.
pub open spec fn lit_at(s: Seq<char>, i: int, lit: Seq<char>) -> bool {
    0 <= i && i + lit.len() <= s.len() && s.subrange(i, i + lit.len()) == lit
}

/// Test `lit_at` by comparing character by character.
pub fn lit_matches_at(s: &str, i: usize, lit: &str) -> (r: bool)
    requires
        i <= s@.len(),
    ensures
        r == lit_at(s@, i as int, lit@),
{
    let n = s.unicode_len();
    let m = lit.unicode_len();
    if m > n - i {
        proof {
            assert(!lit_at(s@, i as int, lit@));
        }
        return false;
    }
    let mut k: usize = 0;
    while k < m && s.get_char(i + k) == lit.get_char(k)
        invariant
            0 <= k <= m,
            m == lit@.len(),
            n == s@.len(),
            i + m <= n,
            forall|t: int| 0 <= t < k ==> s@[i + t] == lit@[t],
        decreases m - k,
    {
        k = k + 1;
    }
    if k == m {
        proof {
            assert(s@.subrange(i as int, i + lit@.len()) =~= lit@);
        }
        true
    } else {
        proof {
            assert(s@[i + k as int] != lit@[k as int]);
            assert(s@.subrange(i as int, i + lit@.len()) != lit@) by {
                if s@.subrange(i as int, i + lit@.len()) == lit@ {
                    assert(s@.subrange(i as int, i + lit@.len())[k as int] == lit@[k as int]);
                }
            }
        }
        false
    }
}

/// Character-by-character string equality.
pub fn str_eq(a: &str, b: &str) -> (r: bool)
    ensures
        r == (a@ == b@),
{
    let na = a.unicode_len();
    let nb = b.unicode_len();
    if na != nb {
        return false;
    }
    let mut k: usize = 0;
    while k < na && a.get_char(k) == b.get_char(k)
        invariant
            0 <= k <= na,
            na == a@.len(),
            na == nb,
            nb == b@.len(),
            forall|t: int| 0 <= t < k ==> a@[t] == b@[t],
        decreases na - k,
    {
        k = k + 1;
    }
    if k == na {
        proof {
            assert(a@ =~= b@);
        }
        true
    } else {
        proof {
            assert(a@[k as int] != b@[k as int]);
        }
        false
    }
}

/// Whether some element of `v` has the characters `k`.
pub fn contains_str(v: &Vec<String>, k: &str) -> (r: bool)
    ensures
        r == v.deep_view().contains(k@),
{
    let mut j: usize = 0;
    while j < v.len()
        invariant
            0 <= j <= v.len(),
            forall|t: int| 0 <= t < j ==> v.deep_view()[t] != k@,
        decreases v.len() - j,
    {
        if str_eq(v[j].as_str(), k) {
            proof {
                assert(v.deep_view()[j as int] == k@);
            }
            return true;
        }
        j = j + 1;
    }
    proof {
        assert(forall|t: int| 0 <= t < v.deep_view().len() ==> v.deep_view()[t] != k@);
    }
    false
}

} // verus!
