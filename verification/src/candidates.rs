//! ListingDiscovery's derivation step: turn search-result entries into the
//! candidate mapping from property id to listing id.
//!
//! A property id is derived once from the listing's thumbnail URL: the text
//! of the last `/`-separated path segment before its first `.`. Entries are
//! folded into a mapping in order; when two entries collapse to the same
//! property id, the later one wins.

use vstd::map::*;
use vstd::prelude::*;

use crate::text::str_eq;

verus! {

/// Start of the last path segment: the position after the last `/`, or 0
/// when the text has none.
pub open spec fn stem_start(s: Seq<char>) -> int
    decreases s.len(),
{
    if s.len() == 0 {
        0
    } else if s[s.len() - 1] == '/' {
        s.len() as int
    } else {
        stem_start(s.drop_last())
    }
}

/// End of the stem: the first `.` at or after `a`, or the end of the text.
pub open spec fn stem_end(s: Seq<char>, a: int) -> int
    decreases s.len() - a,
{
    if a < 0 || a >= s.len() {
        s.len() as int
    } else if s[a] == '.' {
        a
    } else {
        stem_end(s, a + 1)
    }
}

/// The filename stem of a URL: the last path segment up to its first `.`.
/// Every text has one, so derivation never fails.
pub open spec fn stem_of(s: Seq<char>) -> Seq<char> {
    s.subrange(stem_start(s), stem_end(s, stem_start(s)))
}

/// A forward scan that records the position after each `/` lands on
/// `stem_start`.
proof fn lemma_stem_start_extend(s: Seq<char>, k: int)
    requires
        0 <= k < s.len(),
    ensures
        stem_start(s.subrange(0, k + 1)) == if s[k] == '/' {
            k + 1
        } else {
            stem_start(s.subrange(0, k))
        },
{
    let p = s.subrange(0, k + 1);
    assert(p[p.len() - 1] == s[k]);
    if s[k] != '/' {
        assert(p.drop_last() =~= s.subrange(0, k));
    }
}

/// `stem_end` is reached by a forward scan for `.`.
proof fn lemma_stem_end(s: Seq<char>, a: int, b: int)
    requires
        0 <= a <= b <= s.len(),
        forall|t: int| a <= t < b ==> s[t] != '.',
        b < s.len() ==> s[b] == '.',
    ensures
        stem_end(s, a) == b,
    decreases b - a,
{
    if a < b {
        lemma_stem_end(s, a + 1, b);
    }
}

/// One candidate listing: the derived property id and the site's internal
/// numeric listing id.
#[derive(Debug, Clone)]
pub struct Candidate {
    pub property_id: String,
    pub listing_id: i32,
}

/// One entry of the search response: listing id and thumbnail URL.
#[derive(Debug, Clone)]
pub struct ListingEntry {
    pub listing_id: i32,
    pub thumbnail_url: String,
}

/// The mapping carried by a candidate sequence: entries folded in order,
/// the later entry winning on a repeated property id.
pub open spec fn map_of(s: Seq<Candidate>) -> Map<Seq<char>, int>
    decreases s.len(),
{
    if s.len() == 0 {
        Map::empty()
    } else {
        map_of(s.drop_last()).insert(s.last().property_id@, s.last().listing_id as int)
    }
}

/// No two candidates share a property id.
pub open spec fn unique_keys(s: Seq<Candidate>) -> bool {
    forall|x: int, y: int|
        0 <= x < y < s.len() ==> s[x].property_id@ != s[y].property_id@
}

/// Index of the last candidate with property id `k`, or -1.
pub open spec fn last_key_index(s: Seq<Candidate>, k: Seq<char>) -> int
    decreases s.len(),
{
    if s.len() == 0 {
        -1
    } else if s.last().property_id@ == k {
        s.len() - 1
    } else {
        last_key_index(s.drop_last(), k)
    }
}

/// Pointwise characterization of `map_of`: a key is present exactly when
/// some candidate carries it, and its value is the last such candidate's
/// listing id.
pub proof fn lemma_map_of(s: Seq<Candidate>, k: Seq<char>)
    ensures
        map_of(s).contains_key(k) <==> 0 <= last_key_index(s, k),
        0 <= last_key_index(s, k) ==> last_key_index(s, k) < s.len() && s[last_key_index(
            s,
            k,
        )].property_id@ == k && map_of(s)[k] == s[last_key_index(s, k)].listing_id as int,
        last_key_index(s, k) < 0 ==> forall|x: int|
            0 <= x < s.len() ==> s[x].property_id@ != k,
    decreases s.len(),
{
    if s.len() > 0 {
        lemma_map_of(s.drop_last(), k);
        assert(forall|x: int| 0 <= x < s.len() - 1 ==> s.drop_last()[x] == s[x]);
    }
}

/// The candidate mapping: a sequence of candidates with pairwise distinct
/// property ids, viewed as a map from property id to listing id.
#[derive(Debug, Clone)]
pub struct CandidateMap {
    pub entries: Vec<Candidate>,
}

impl CandidateMap {
    /// Pairwise distinct property ids.
    pub open spec fn wf(&self) -> bool {
        unique_keys(self.entries@)
    }

    /// The mapping this value carries.
    pub open spec fn as_map(&self) -> Map<Seq<char>, int> {
        map_of(self.entries@)
    }

    /// The empty mapping.
    pub fn new() -> (r: CandidateMap)
        ensures
            r.wf(),
            r.as_map() == Map::<Seq<char>, int>::empty(),
            r.entries@.len() == 0,
    {
        CandidateMap { entries: Vec::new() }
    }

    /// Number of candidates.
    pub fn len(&self) -> (n: usize)
        ensures
            n == self.entries@.len(),
    {
        self.entries.len()
    }

    /// Index of the candidate with the given property id.
    fn find(&self, property_id: &str) -> (r: Option<usize>)
        requires
            self.wf(),
        ensures
            match r {
                Some(x) => x < self.entries@.len() && self.entries@[x as int].property_id@
                    == property_id@,
                None => forall|t: int|
                    0 <= t < self.entries@.len() ==> self.entries@[t].property_id@
                        != property_id@,
            },
    {
        let mut x: usize = 0;
        while x < self.entries.len()
            invariant
                0 <= x <= self.entries@.len(),
                forall|t: int| 0 <= t < x ==> self.entries@[t].property_id@ != property_id@,
            decreases self.entries@.len() - x,
        {
            if str_eq(self.entries[x].property_id.as_str(), property_id) {
                return Some(x);
            }
            x = x + 1;
        }
        None
    }

    /// Insert a candidate; a repeated property id keeps the new listing id
    /// (the later entry wins).
    pub fn insert(&mut self, property_id: String, listing_id: i32)
        requires
            old(self).wf(),
        ensures
            final(self).wf(),
            final(self).as_map() == old(self).as_map().insert(property_id@, listing_id as int),
    {
        let ghost pre = self.entries@;
        match self.find(property_id.as_str()) {
            Some(x) => {
                let c = Candidate { property_id, listing_id };
                self.entries.set(x, c);
                proof {
                    lemma_insert_update(pre, x as int, self.entries@[x as int]);
                }
            },
            None => {
                let c = Candidate { property_id, listing_id };
                self.entries.push(c);
                proof {
                    assert(self.entries@.drop_last() =~= pre);
                }
            },
        }
    }

    /// The listing id recorded for a property id.
    pub fn get(&self, property_id: &str) -> (r: Option<i32>)
        requires
            self.wf(),
        ensures
            match r {
                Some(v) => self.as_map().contains_key(property_id@) && self.as_map()[property_id@]
                    == v as int,
                None => !self.as_map().contains_key(property_id@),
            },
    {
        proof {
            lemma_map_of(self.entries@, property_id@);
        }
        match self.find(property_id) {
            Some(x) => {
                proof {
                    lemma_key_index_unique(self.entries@, x as int);
                }
                Some(self.entries[x].listing_id)
            },
            None => None,
        }
    }
}

/// With pairwise distinct keys, the candidate at `x` is the last one with
/// its key.
pub proof fn lemma_key_index_unique(s: Seq<Candidate>, x: int)
    requires
        unique_keys(s),
        0 <= x < s.len(),
    ensures
        last_key_index(s, s[x].property_id@) == x,
    decreases s.len(),
{
    if x < s.len() - 1 {
        assert(s.drop_last()[x] == s[x]);
        lemma_key_index_unique(s.drop_last(), x);
    }
}

/// Replacing the candidate that carries a key rewrites exactly that key's
/// value in the mapping.
proof fn lemma_insert_update(s: Seq<Candidate>, x: int, c: Candidate)
    requires
        unique_keys(s),
        0 <= x < s.len(),
        c.property_id@ == s[x].property_id@,
    ensures
        unique_keys(s.update(x, c)),
        map_of(s.update(x, c)) == map_of(s).insert(c.property_id@, c.listing_id as int),
    decreases s.len(),
{
    let t = s.update(x, c);
    assert forall|a: int, b: int| 0 <= a < b < t.len() implies t[a].property_id@
        != t[b].property_id@ by {
        assert(s[a].property_id@ != s[b].property_id@);
    }
    let m1 = map_of(t);
    let m2 = map_of(s).insert(c.property_id@, c.listing_id as int);
    assert_maps_equal!(m1, m2, k => {
        lemma_map_of(s, k);
        lemma_map_of(t, k);
        if k == c.property_id@ {
            lemma_key_index_unique(t, x);
        } else {
            if 0 <= last_key_index(s, k) {
                let y = last_key_index(s, k);
                assert(t[y] == s[y]);
                lemma_key_index_unique(t, y);
            }
            if 0 <= last_key_index(t, k) {
                let y = last_key_index(t, k);
                assert(y != x);
                assert(s[y] == t[y]);
                lemma_key_index_unique(s, y);
            }
        }
    });
}

/// The mapping that a sequence of search entries folds to: each entry
/// contributes its thumbnail's stem as key, the later entry winning.
pub open spec fn spec_candidates(entries: Seq<ListingEntry>) -> Map<Seq<char>, int>
    decreases entries.len(),
{
    if entries.len() == 0 {
        Map::empty()
    } else {
        spec_candidates(entries.drop_last()).insert(
            stem_of(entries.last().thumbnail_url@),
            entries.last().listing_id as int,
        )
    }
}

/// Derive the property id of one thumbnail URL: the filename stem of its
/// last path segment. Total: every text has a stem.
pub fn derive_property_id(url: &str) -> (r: String)
    ensures
        r@ == stem_of(url@),
{
    let n = url.unicode_len();
    let mut a: usize = 0;
    let mut k: usize = 0;
    proof {
        assert(url@.subrange(0, 0) =~= Seq::<char>::empty());
    }
    while k < n
        invariant
            0 <= a <= k <= n,
            n == url@.len(),
            a as int == stem_start(url@.subrange(0, k as int)),
        decreases n - k,
    {
        proof {
            lemma_stem_start_extend(url@, k as int);
        }
        if url.get_char(k) == '/' {
            a = k + 1;
        }
        k = k + 1;
    }
    proof {
        assert(url@.subrange(0, n as int) =~= url@);
    }
    let mut b: usize = a;
    while b < n && url.get_char(b) != '.'
        invariant
            a <= b <= n,
            n == url@.len(),
            forall|t: int| a <= t < b ==> url@[t] != '.',
        decreases n - b,
    {
        b = b + 1;
    }
    proof {
        lemma_stem_end(url@, a as int, b as int);
    }
    let stem = url.substring_char(a, b);
    stem.to_owned()
}

/// Fold search entries into the candidate mapping, deriving each property
/// id from the entry's thumbnail URL; on a repeated id the later entry
/// wins.
pub fn build_candidates(entries: &Vec<ListingEntry>) -> (r: CandidateMap)
    ensures
        r.wf(),
        r.as_map() == spec_candidates(entries@),
{
    let mut r = CandidateMap::new();
    let mut i: usize = 0;
    proof {
        assert(entries@.subrange(0, 0) =~= Seq::<ListingEntry>::empty());
    }
    while i < entries.len()
        invariant
            0 <= i <= entries@.len(),
            r.wf(),
            r.as_map() == spec_candidates(entries@.subrange(0, i as int)),
        decreases entries@.len() - i,
    {
        let id = derive_property_id(entries[i].thumbnail_url.as_str());
        r.insert(id, entries[i].listing_id);
        proof {
            let p = entries@.subrange(0, i + 1);
            assert(p.drop_last() =~= entries@.subrange(0, i as int));
            assert(p.last() == entries@[i as int]);
        }
        i = i + 1;
    }
    proof {
        assert(entries@.subrange(0, entries@.len() as int) =~= entries@);
    }
    r
}

} // verus!
