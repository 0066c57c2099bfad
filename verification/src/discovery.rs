//! ListingDiscovery's response handling: check the search response's shape
//! and fold its entries into the candidate mapping.
//!
//! A search response is an object with a `properties` array whose entries
//! carry a numeric `id` and a string `small_image_url`. Any other shape,
//! and any text that is not valid JSON, is a `DiscoveryError`.

use vstd::prelude::*;

use crate::candidates::CandidateMap;
use crate::candidates::ListingEntry;
use crate::candidates::build_candidates;
use crate::candidates::spec_candidates;
use crate::candidates::stem_of;
use crate::errors::DiscoveryError;
use crate::json::JsonData;
use crate::json::json_as_array;
use crate::json::json_as_i64;
use crate::json::json_as_str;
use crate::json::json_get;
use crate::json::json_text;
use crate::json::json_view;
use crate::json::parse_json;

verus! {

/// The pair one search entry yields: a listing id that fits the site's
/// numeric id type, and the thumbnail URL.
pub open spec fn spec_entry(j: JsonData) -> Option<(int, Seq<char>)> {
    match j {
        JsonData::Obj(m) => {
            if m.contains_key("id"@) && m.contains_key("small_image_url"@) {
                match (m["id"@], m["small_image_url"@]) {
                    (JsonData::Num(n), JsonData::Str(u)) => if i32::MIN <= n <= i32::MAX {
                        Some((n, u))
                    } else {
                        None
                    },
                    _ => None,
                }
            } else {
                None
            }
        },
        _ => None,
    }
}

/// The pairs of a whole entry array; nothing when any entry is malformed.
pub open spec fn spec_entries(a: Seq<JsonData>) -> Option<Seq<(int, Seq<char>)>>
    decreases a.len(),
{
    if a.len() == 0 {
        Some(Seq::empty())
    } else {
        match spec_entry(a[0]) {
            Some(e) => match spec_entries(a.drop_first()) {
                Some(rest) => Some(seq![e] + rest),
                None => None,
            },
            None => None,
        }
    }
}

/// The pairs of a whole search document.
pub open spec fn spec_search_doc(j: JsonData) -> Option<Seq<(int, Seq<char>)>> {
    match j {
        JsonData::Obj(m) => if m.contains_key("properties"@) {
            match m["properties"@] {
                JsonData::Arr(a) => spec_entries(a),
                _ => None,
            }
        } else {
            None
        },
        _ => None,
    }
}

/// The pairs a sequence of parsed entries carries.
pub open spec fn entries_view(es: Seq<ListingEntry>) -> Seq<(int, Seq<char>)> {
    es.map_values(|e: ListingEntry| (e.listing_id as int, e.thumbnail_url@))
}

/// Parse one search entry.
fn parse_entry(v: &serde_json::Value) -> (r: Option<ListingEntry>)
    ensures
        match r {
            Some(e) => spec_entry(json_view(*v)) == Some((e.listing_id as int, e.thumbnail_url@)),
            None => spec_entry(json_view(*v)) is None,
        },
{
    let idv = match json_get(v, "id") {
        Some(x) => x,
        None => {
            return None;
        },
    };
    let urlv = match json_get(v, "small_image_url") {
        Some(x) => x,
        None => {
            return None;
        },
    };
    let id64 = match json_as_i64(idv) {
        Some(x) => x,
        None => {
            return None;
        },
    };
    if id64 < i32::MIN as i64 || id64 > i32::MAX as i64 {
        return None;
    }
    let url = match json_as_str(urlv) {
        Some(x) => x,
        None => {
            return None;
        },
    };
    Some(ListingEntry { listing_id: id64 as i32, thumbnail_url: url.to_owned() })
}

/// Check the search response's shape and collect its entries; fails with
/// `InvalidJson` exactly on text that is not JSON and with
/// `UnexpectedShape` exactly on a document of another shape.
pub fn parse_search_listings(body: &str) -> (r: Result<Vec<ListingEntry>, DiscoveryError>)
    ensures
        match r {
            Ok(es) => json_text(body@) matches Some(doc) && spec_search_doc(doc) == Some(
                entries_view(es@),
            ),
            Err(e) => match json_text(body@) {
                Option::None => e matches DiscoveryError::InvalidJson(_),
                Option::Some(doc) => spec_search_doc(doc) is None && (
                e matches DiscoveryError::UnexpectedShape(_)),
            },
        },
{
    let doc = match parse_json(body) {
        Ok(v) => v,
        Err(m) => {
            return Err(DiscoveryError::InvalidJson(m));
        },
    };
    let props = match json_get(&doc, "properties") {
        Some(p) => p,
        None => {
            return Err(DiscoveryError::UnexpectedShape("properties".to_owned()));
        },
    };
    let arr = match json_as_array(props) {
        Some(a) => a,
        None => {
            return Err(DiscoveryError::UnexpectedShape("properties".to_owned()));
        },
    };
    let ghost a = json_view(*props)->Arr_0;
    let mut es: Vec<ListingEntry> = Vec::new();
    let mut x: usize = 0;
    proof {
        assert(a.skip(0) =~= a);
    }
    while x < arr.len()
        invariant
            0 <= x <= a.len(),
            arr@.len() == a.len(),
            json_text(body@) is Some,
            spec_search_doc(json_text(body@)->Some_0) == spec_entries(a),
            forall|i: int| 0 <= i < a.len() ==> json_view(arr@[i]) == a[i],
            match spec_entries(a.skip(x as int)) {
                Some(rest) => spec_entries(a) == Some(entries_view(es@) + rest),
                None => spec_entries(a) is None,
            },
        decreases a.len() - x,
    {
        let ghost tail = a.skip(x as int);
        let ghost pre = entries_view(es@);
        proof {
            assert(tail[0] == a[x as int]);
            assert(tail.drop_first() =~= a.skip(x as int + 1));
        }
        match parse_entry(&arr[x]) {
            Some(e) => {
                es.push(e);
                proof {
                    assert(entries_view(es@) =~= pre.push(
                        (e.listing_id as int, e.thumbnail_url@),
                    ));
                    let nxt = spec_entries(a.skip(x as int + 1));
                    if nxt is Some {
                        let rest = nxt->Some_0;
                        assert(pre + (seq![(e.listing_id as int, e.thumbnail_url@)] + rest)
                            =~= entries_view(es@) + rest);
                    }
                }
            },
            None => {
                proof {
                    assert(spec_entries(tail) is None);
                }
                return Err(DiscoveryError::UnexpectedShape("properties entry".to_owned()));
            },
        }
        x = x + 1;
    }
    proof {
        assert(a.skip(a.len() as int).len() == 0);
        assert(entries_view(es@) + Seq::<(int, Seq<char>)>::empty() =~= entries_view(es@));
    }
    Ok(es)
}

/// Candidate pairs folded to the mapping from property id (the thumbnail's
/// stem) to listing id, the later pair winning.
pub open spec fn candidates_of_pairs(ps: Seq<(int, Seq<char>)>) -> Map<Seq<char>, int>
    decreases ps.len(),
{
    if ps.len() == 0 {
        Map::empty()
    } else {
        candidates_of_pairs(ps.drop_last()).insert(stem_of(ps.last().1), ps.last().0)
    }
}

/// Folding entries and folding their pairs agree.
proof fn lemma_candidates_pairs(es: Seq<ListingEntry>)
    ensures
        spec_candidates(es) == candidates_of_pairs(entries_view(es)),
    decreases es.len(),
{
    if es.len() > 0 {
        lemma_candidates_pairs(es.drop_last());
        assert(entries_view(es).drop_last() =~= entries_view(es.drop_last()));
        assert(entries_view(es).last() == (es.last().listing_id as int, es.last().thumbnail_url@));
    }
}

/// ListingDiscovery's computation: from the search response body to the
/// candidate mapping from property id to listing id.
pub fn discover_candidates(body: &str) -> (r: Result<CandidateMap, DiscoveryError>)
    ensures
        match r {
            Ok(m) => json_text(body@) matches Some(doc) && spec_search_doc(doc) matches Some(ps)
                && m.wf() && m.as_map() == candidates_of_pairs(ps),
            Err(e) => match json_text(body@) {
                Option::None => e matches DiscoveryError::InvalidJson(_),
                Option::Some(doc) => spec_search_doc(doc) is None && (
                e matches DiscoveryError::UnexpectedShape(_)),
            },
        },
{
    match parse_search_listings(body) {
        Ok(es) => {
            let m = build_candidates(&es);
            proof {
                lemma_candidates_pairs(es@);
            }
            Ok(m)
        },
        Err(e) => Err(e),
    }
}

} // verus!
