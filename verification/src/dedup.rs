//! DedupFilter: prune candidates that the store already holds.
//!
//! The batched existence check keys on property id. A malformed or failed
//! response propagates as `StoreQueryError`; it is never treated as "all
//! missing", so the filter can never drop work through a false negative.

use vstd::map::*;
use vstd::prelude::*;

use crate::candidates::Candidate;
use crate::candidates::CandidateMap;
use crate::candidates::last_key_index;
use crate::candidates::lemma_key_index_unique;
use crate::candidates::lemma_map_of;
use crate::candidates::map_of;
use crate::candidates::unique_keys;
use crate::errors::StoreQueryError;
use crate::kv::AttrVal;
use crate::kv::KvItem;
use crate::kv::property_id_field;
use crate::kv::spec_item_get;
use crate::text::contains_str;
use crate::text::str_eq;

verus! {

/// The items one table returned in a batched lookup.
#[derive(Debug, Clone)]
pub struct TableItems {
    pub table: String,
    pub items: Vec<KvItem>,
}

/// A batched lookup response: per-table item lists, or nothing when the
/// response came back empty; beside them, the keys of the batch the store
/// did not examine. A key left unexamined was not reported absent, so a
/// pruning that ignored this component could drop work through a false
/// negative; any nonempty set propagates as an error instead.
#[derive(Debug, Clone)]
pub struct BatchResponse {
    pub responses: Option<Vec<TableItems>>,
    pub unprocessed_keys: Vec<KvItem>,
}

/// The items of the first table entry with the given name.
pub open spec fn find_table(ts: Seq<TableItems>, name: Seq<char>) -> Option<Seq<KvItem>>
    decreases ts.len(),
{
    if ts.len() == 0 {
        None
    } else if ts[0].table@ == name {
        Some(ts[0].items@)
    } else {
        find_table(ts.drop_first(), name)
    }
}

/// The key attribute of each returned item, when every item carries the
/// key field as a string; nothing otherwise.
pub open spec fn spec_existing_ids(items: Seq<KvItem>) -> Option<Seq<Seq<char>>>
    decreases items.len(),
{
    if items.len() == 0 {
        Some(Seq::empty())
    } else {
        match spec_item_get(items[0].fields@, property_id_field()) {
            Some(AttrVal::S(id)) => match spec_existing_ids(items.drop_first()) {
                Some(rest) => Some(seq![id@] + rest),
                None => None,
            },
            _ => None,
        }
    }
}

/// Collect the property ids a batched lookup reported as existing; fails
/// exactly when some item lacks the key field or carries it with another
/// type.
pub fn existing_ids(items: &Vec<KvItem>) -> (r: Result<Vec<String>, StoreQueryError>)
    ensures
        match r {
            Ok(ids) => spec_existing_ids(items@) == Some(ids.deep_view()),
            Err(e) => spec_existing_ids(items@) is None && e matches StoreQueryError::BadKeyField(
                _,
            ),
        },
{
    let mut ids: Vec<String> = Vec::new();
    let mut x: usize = 0;
    proof {
        assert(items@.skip(0) =~= items@);
    }
    while x < items.len()
        invariant
            0 <= x <= items@.len(),
            match spec_existing_ids(items@.skip(x as int)) {
                Some(rest) => spec_existing_ids(items@) == Some(ids.deep_view() + rest),
                None => spec_existing_ids(items@) is None,
            },
        decreases items@.len() - x,
    {
        let ghost tail = items@.skip(x as int);
        let ghost pre = ids.deep_view();
        proof {
            assert(tail[0] == items@[x as int]);
            assert(tail.drop_first() =~= items@.skip(x as int + 1));
        }
        match items[x].get("PropertyId") {
            Some(v) => match v {
                AttrVal::S(id) => {
                    ids.push(id.clone());
                    proof {
                        assert(ids.deep_view() =~= pre.push(id@));
                        let nxt = spec_existing_ids(items@.skip(x as int + 1));
                        if nxt is Some {
                            let rest = nxt->Some_0;
                            assert(pre + (seq![id@] + rest) =~= ids.deep_view() + rest);
                        }
                    }
                },
                _ => {
                    return Err(StoreQueryError::BadKeyField("PropertyId".to_owned()));
                },
            },
            None => {
                return Err(StoreQueryError::BadKeyField("PropertyId".to_owned()));
            },
        }
        x = x + 1;
    }
    proof {
        assert(items@.skip(items@.len() as int).len() == 0);
        assert(ids.deep_view() + Seq::<Seq<char>>::empty() =~= ids.deep_view());
    }
    Ok(ids)
}

/// Remove every candidate whose property id was reported as existing; keep
/// every other candidate with its listing id untouched.
pub fn filter_candidates(c: &CandidateMap, existing: &Vec<String>) -> (r: CandidateMap)
    requires
        c.wf(),
    ensures
        r.wf(),
        r.as_map() == c.as_map().remove_keys(existing.deep_view().to_set()),
{
    let ghost src = c.entries@;
    let ghost reported = existing.deep_view().to_set();
    let mut kept: Vec<Candidate> = Vec::new();
    let mut x: usize = 0;
    while x < c.entries.len()
        invariant
            0 <= x <= src.len(),
            src == c.entries@,
            unique_keys(src),
            unique_keys(kept@),
            forall|t: int|
                0 <= t < kept@.len() ==> !existing.deep_view().contains(
                    #[trigger] kept@[t].property_id@,
                ),
            forall|t: int|
                0 <= t < kept@.len() ==> exists|y: int|
                    0 <= y < x && src[y].property_id@ == #[trigger] kept@[t].property_id@
                        && src[y].listing_id == kept@[t].listing_id,
            forall|y: int|
                0 <= y < x ==> existing.deep_view().contains(#[trigger] src[y].property_id@) || (
                exists|t: int|
                    0 <= t < kept@.len() && kept@[t].property_id@ == src[y].property_id@),
        decreases src.len() - x,
    {
        let ghost pre = kept@;
        if !contains_str(existing, c.entries[x].property_id.as_str()) {
            let e = Candidate {
                property_id: c.entries[x].property_id.clone(),
                listing_id: c.entries[x].listing_id,
            };
            kept.push(e);
            proof {
                assert(kept@.drop_last() =~= pre);
                assert(kept@.last().property_id@ == src[x as int].property_id@);
                assert forall|a: int, b: int| 0 <= a < b < kept@.len() implies kept@[a].property_id@
                    != kept@[b].property_id@ by {
                    if b == kept@.len() - 1 {
                        let y = choose|y: int|
                            0 <= y < x && src[y].property_id@ == pre[a].property_id@
                                && src[y].listing_id == pre[a].listing_id;
                        assert(src[y].property_id@ != src[x as int].property_id@);
                    }
                }
            }
        }
        x = x + 1;
    }
    let r = CandidateMap { entries: kept };
    proof {
        let m1 = map_of(kept@);
        let m2 = map_of(src).remove_keys(reported);
        assert_maps_equal!(m1, m2, k => {
            lemma_map_of(kept@, k);
            lemma_map_of(src, k);
            if 0 <= last_key_index(kept@, k) {
                let t = last_key_index(kept@, k);
                let y = choose|y: int|
                    0 <= y < src.len() && src[y].property_id@ == kept@[t].property_id@
                        && src[y].listing_id == kept@[t].listing_id;
                lemma_key_index_unique(src, y);
            }
            if 0 <= last_key_index(src, k) && !reported.contains(k) {
                let y = last_key_index(src, k);
                let t = choose|t: int|
                    0 <= t < kept@.len() && kept@[t].property_id@ == src[y].property_id@;
                if 0 <= t < kept@.len() {
                    lemma_key_index_unique(kept@, t);
                }
            }
        });
    }
    r
}

/// Law: pruning removes exactly the reported set: a candidate survives if
/// and only if it was a candidate and was not reported existing, and every
/// survivor keeps its listing id.
pub proof fn lemma_dedup_exact(
    before: Map<Seq<char>, int>,
    reported: Set<Seq<char>>,
    after: Map<Seq<char>, int>,
)
    requires
        after == before.remove_keys(reported),
    ensures
        forall|k: Seq<char>|
            #[trigger] after.contains_key(k) <==> before.contains_key(k) && !reported.contains(k),
        forall|k: Seq<char>| #[trigger] after.contains_key(k) ==> after[k] == before[k],
{
}

/// Prune the candidate mapping by one batched store response: remove
/// exactly the reported ids; propagate every malformed or partial response
/// as an error rather than treating it as "all missing".
pub fn dedup_candidates(c: &CandidateMap, resp: &BatchResponse, table: &str) -> (r: Result<
    CandidateMap,
    StoreQueryError,
>)
    requires
        c.wf(),
    ensures
        match r {
            Ok(m) => match resp.responses {
                Option::Some(ts) => resp.unprocessed_keys@.len() == 0 && match find_table(
                    ts@,
                    table@,
                ) {
                    Option::Some(items) => match spec_existing_ids(items) {
                        Option::Some(ids) => m.wf() && m.as_map() == c.as_map().remove_keys(
                            ids.to_set(),
                        ),
                        Option::None => false,
                    },
                    Option::None => false,
                },
                Option::None => false,
            },
            Err(e) => match resp.responses {
                Option::None => e == StoreQueryError::MissingResponses,
                Option::Some(ts) => if resp.unprocessed_keys@.len() > 0 {
                    e == StoreQueryError::UnprocessedKeys
                } else {
                    match find_table(ts@, table@) {
                        Option::None => e matches StoreQueryError::MissingTable(t) && t@ == table@,
                        Option::Some(items) => spec_existing_ids(items) is None && (
                        e matches StoreQueryError::BadKeyField(_)),
                    }
                },
            },
        },
{
    match &resp.responses {
        None => Err(StoreQueryError::MissingResponses),
        Some(ts) => {
            if resp.unprocessed_keys.len() > 0 {
                return Err(StoreQueryError::UnprocessedKeys);
            }
            match find_table_entry(ts, table) {
                None => Err(StoreQueryError::MissingTable(table.to_owned())),
                Some(items) => match existing_ids(items) {
                    Ok(ids) => Ok(filter_candidates(c, &ids)),
                    Err(e) => Err(e),
                },
            }
        },
    }
}

/// Look up the item list of one table in a batched response.
fn find_table_entry<'a>(ts: &'a Vec<TableItems>, name: &str) -> (r: Option<&'a Vec<KvItem>>)
    ensures
        match r {
            Some(items) => find_table(ts@, name@) == Some(items@),
            None => find_table(ts@, name@) is None,
        },
{
    let mut x: usize = 0;
    proof {
        assert(ts@.skip(0) =~= ts@);
    }
    while x < ts.len()
        invariant
            0 <= x <= ts@.len(),
            find_table(ts@.skip(x as int), name@) == find_table(ts@, name@),
        decreases ts@.len() - x,
    {
        let ghost tail = ts@.skip(x as int);
        proof {
            assert(tail[0] == ts@[x as int]);
            assert(tail.drop_first() =~= ts@.skip(x as int + 1));
        }
        if str_eq(ts[x].table.as_str(), name) {
            return Some(&ts[x].items);
        }
        x = x + 1;
    }
    proof {
        assert(ts@.skip(ts@.len() as int).len() == 0);
    }
    None
}

} // verus!
