use hemnet_pipeline::candidates::CandidateMap;
use hemnet_pipeline::candidates::ListingEntry;
use hemnet_pipeline::candidates::build_candidates;
use hemnet_pipeline::candidates::derive_property_id;
use hemnet_pipeline::dedup::BatchResponse;
use hemnet_pipeline::dedup::TableItems;
use hemnet_pipeline::dedup::dedup_candidates;
use hemnet_pipeline::dedup::existing_ids;
use hemnet_pipeline::dedup::filter_candidates;
use hemnet_pipeline::errors::StoreQueryError;
use hemnet_pipeline::kv::AttrVal;
use hemnet_pipeline::kv::KvField;
use hemnet_pipeline::kv::KvItem;

fn key_item(name: &str, value: AttrVal) -> KvItem {
    KvItem { fields: vec![KvField { name: name.to_string(), value }] }
}

fn candidates(pairs: &[(&str, i32)]) -> CandidateMap {
    let mut c = CandidateMap::new();
    for (id, listing) in pairs {
        c.insert(id.to_string(), *listing);
    }
    c
}

#[test]
fn stem_of_plain_url() {
    assert_eq!(
        derive_property_id("https://bilder.hemnet.se/images/itemgallery/foo.jpg"),
        "foo".to_string()
    );
}

#[test]
fn stem_without_slash_or_dot() {
    assert_eq!(derive_property_id("abc"), "abc".to_string());
}

#[test]
fn stem_of_trailing_slash_is_empty() {
    assert_eq!(derive_property_id("https://x/y/"), String::new());
}

#[test]
fn stem_stops_at_first_dot() {
    assert_eq!(derive_property_id("a/b/pic.small.jpg"), "pic".to_string());
}

#[test]
fn build_candidates_later_entry_wins() {
    let entries = vec![
        ListingEntry { listing_id: 10, thumbnail_url: "x/foo.jpg".to_string() },
        ListingEntry { listing_id: 20, thumbnail_url: "y/foo.jpg".to_string() },
        ListingEntry { listing_id: 30, thumbnail_url: "y/bar.jpg".to_string() },
    ];
    let c = build_candidates(&entries);
    assert_eq!(c.len(), 2);
    assert_eq!(c.get("foo"), Some(20));
    assert_eq!(c.get("bar"), Some(30));
}

#[test]
fn filter_removes_exactly_reported_ids() {
    let c = candidates(&[("p1", 10), ("p2", 20)]);
    let out = filter_candidates(&c, &vec!["p1".to_string()]);
    assert_eq!(out.len(), 1);
    assert_eq!(out.get("p1"), None);
    assert_eq!(out.get("p2"), Some(20));
}

#[test]
fn filter_with_empty_report_keeps_all() {
    let c = candidates(&[("p1", 10), ("p2", 20)]);
    let out = filter_candidates(&c, &Vec::new());
    assert_eq!(out.len(), 2);
    assert_eq!(out.get("p1"), Some(10));
    assert_eq!(out.get("p2"), Some(20));
}

#[test]
fn existing_ids_collected_in_order() {
    let items = vec![
        key_item("PropertyId", AttrVal::S("a".to_string())),
        key_item("PropertyId", AttrVal::S("b".to_string())),
    ];
    assert_eq!(existing_ids(&items), Ok(vec!["a".to_string(), "b".to_string()]));
}

#[test]
fn existing_ids_rejects_wrong_key_type() {
    let items = vec![key_item("PropertyId", AttrVal::N("7".to_string()))];
    assert!(matches!(existing_ids(&items), Err(StoreQueryError::BadKeyField(_))));
}

#[test]
fn existing_ids_rejects_missing_key_field() {
    let items = vec![key_item("Other", AttrVal::S("a".to_string()))];
    assert!(matches!(existing_ids(&items), Err(StoreQueryError::BadKeyField(_))));
}

#[test]
fn dedup_prunes_reported_candidates() {
    let c = candidates(&[("p1", 10), ("p2", 20)]);
    let resp = BatchResponse {
        responses: Some(vec![TableItems {
            table: "HemnetProperties".to_string(),
            items: vec![key_item("PropertyId", AttrVal::S("p1".to_string()))],
        }]),
        unprocessed_keys: Vec::new(),
    };
    let out = dedup_candidates(&c, &resp, "HemnetProperties").unwrap();
    assert_eq!(out.len(), 1);
    assert_eq!(out.get("p2"), Some(20));
    assert_eq!(out.get("p1"), None);
}

#[test]
fn rerun_is_filtered_out_entirely() {
    // First run: nothing exists yet, both candidates survive and are
    // written. Second run against the same candidates, with the first
    // run's ids now existing: nothing survives, so nothing is uploaded
    // and nothing is written.
    let c = candidates(&[("p1", 10), ("p2", 20)]);
    let first_run = filter_candidates(&c, &Vec::new());
    let written: Vec<String> =
        first_run.entries.iter().map(|e| e.property_id.clone()).collect();
    assert_eq!(written.len(), 2);
    let second_run = filter_candidates(&c, &written);
    assert_eq!(second_run.len(), 0);
}

#[test]
fn dedup_empty_response_is_an_error() {
    let c = candidates(&[("p1", 10)]);
    let resp = BatchResponse { responses: None, unprocessed_keys: Vec::new() };
    assert!(matches!(
        dedup_candidates(&c, &resp, "HemnetProperties"),
        Err(StoreQueryError::MissingResponses)
    ));
}

#[test]
fn dedup_missing_table_is_an_error() {
    let c = candidates(&[("p1", 10)]);
    let resp = BatchResponse {
        responses: Some(vec![TableItems { table: "Another".to_string(), items: Vec::new() }]),
        unprocessed_keys: Vec::new(),
    };
    assert!(matches!(
        dedup_candidates(&c, &resp, "HemnetProperties"),
        Err(StoreQueryError::MissingTable(_))
    ));
}

#[test]
fn dedup_partial_batch_is_an_error_not_all_missing() {
    // The store answered but left one key unexamined: pruning on that
    // answer could drop the unexamined key as "absent", so the query fails.
    let c = candidates(&[("p1", 10), ("p2", 20)]);
    let resp = BatchResponse {
        responses: Some(vec![TableItems {
            table: "HemnetProperties".to_string(),
            items: Vec::new(),
        }]),
        unprocessed_keys: vec![key_item("PropertyId", AttrVal::S("p2".to_string()))],
    };
    assert!(matches!(
        dedup_candidates(&c, &resp, "HemnetProperties"),
        Err(StoreQueryError::UnprocessedKeys)
    ));
}

#[test]
fn dedup_never_treats_bad_batch_as_all_missing() {
    let c = candidates(&[("p1", 10)]);
    let resp = BatchResponse {
        responses: Some(vec![TableItems {
            table: "HemnetProperties".to_string(),
            items: vec![key_item("PropertyId", AttrVal::Other)],
        }]),
        unprocessed_keys: Vec::new(),
    };
    assert!(matches!(
        dedup_candidates(&c, &resp, "HemnetProperties"),
        Err(StoreQueryError::BadKeyField(_))
    ));
}
