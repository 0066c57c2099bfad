use hemnet_pipeline::detail::parse_listing_detail;
use hemnet_pipeline::discovery::discover_candidates;
use hemnet_pipeline::discovery::parse_search_listings;
use hemnet_pipeline::envelope::event_message;
use hemnet_pipeline::envelope::parse_inbound_message;
use hemnet_pipeline::errors::DetailFetchError;
use hemnet_pipeline::errors::DiscoveryError;
use hemnet_pipeline::errors::EnvelopeError;

#[test]
fn search_listings_parsed() {
    let body = r#"{"properties":[
        {"id":11,"small_image_url":"https://x/itemgallery/aaa.jpg"},
        {"id":22,"small_image_url":"https://x/itemgallery/bbb.jpg"}
    ]}"#;
    let es = parse_search_listings(body).unwrap();
    assert_eq!(es.len(), 2);
    assert_eq!(es[0].listing_id, 11);
    assert_eq!(es[0].thumbnail_url, "https://x/itemgallery/aaa.jpg");
    assert_eq!(es[1].listing_id, 22);
}

#[test]
fn search_listings_invalid_json() {
    assert!(matches!(
        parse_search_listings("{not json"),
        Err(DiscoveryError::InvalidJson(_))
    ));
}

#[test]
fn search_listings_missing_properties_member() {
    assert!(matches!(
        parse_search_listings(r#"{"other":[]}"#),
        Err(DiscoveryError::UnexpectedShape(_))
    ));
}

#[test]
fn search_listings_entry_without_id() {
    let body = r#"{"properties":[{"small_image_url":"u"}]}"#;
    assert!(matches!(
        parse_search_listings(body),
        Err(DiscoveryError::UnexpectedShape(_))
    ));
}

#[test]
fn search_listings_string_id_is_a_shape_error() {
    let body = r#"{"properties":[{"id":"11","small_image_url":"u"}]}"#;
    assert!(matches!(
        parse_search_listings(body),
        Err(DiscoveryError::UnexpectedShape(_))
    ));
}

#[test]
fn discover_maps_stems_to_listing_ids() {
    let body = r#"{"properties":[
        {"id":11,"small_image_url":"https://x/itemgallery/aaa.jpg"},
        {"id":22,"small_image_url":"https://x/itemgallery/bbb.jpg"}
    ]}"#;
    let c = discover_candidates(body).unwrap();
    assert_eq!(c.len(), 2);
    assert_eq!(c.get("aaa"), Some(11));
    assert_eq!(c.get("bbb"), Some(22));
}

#[test]
fn detail_with_images_parsed() {
    let body = r#"{"data":{"listing":{
        "streetAddress":"Main Street 1",
        "images":{"images":[{"url":"https://x/a.jpg"},{"url":"https://x/b.jpg"}]}
    }}}"#;
    let d = parse_listing_detail(body).unwrap();
    assert_eq!(d.street_address, "Main Street 1");
    assert_eq!(
        d.image_urls,
        Some(vec!["https://x/a.jpg".to_string(), "https://x/b.jpg".to_string()])
    );
}

#[test]
fn detail_with_absent_image_list_is_no_images_not_an_error() {
    let body = r#"{"data":{"listing":{"streetAddress":"Main Street 1"}}}"#;
    let d = parse_listing_detail(body).unwrap();
    assert_eq!(d.street_address, "Main Street 1");
    assert_eq!(d.image_urls, None);
}

#[test]
fn detail_with_null_image_list_is_no_images() {
    let body = r#"{"data":{"listing":{"streetAddress":"Main Street 1","images":null}}}"#;
    let d = parse_listing_detail(body).unwrap();
    assert_eq!(d.image_urls, None);
}

#[test]
fn detail_missing_street_address_is_a_shape_error() {
    let body = r#"{"data":{"listing":{"images":null}}}"#;
    assert!(matches!(
        parse_listing_detail(body),
        Err(DetailFetchError::UnexpectedShape(_))
    ));
}

#[test]
fn detail_invalid_json() {
    assert!(matches!(
        parse_listing_detail("nope"),
        Err(DetailFetchError::InvalidJson(_))
    ));
}

#[test]
fn event_unwrapped_to_inner_message() {
    let event = r#"{"Records":[{"Sns":{"Message":"inner text"}}]}"#;
    assert_eq!(event_message(event), Ok("inner text".to_string()));
}

#[test]
fn event_with_no_records_is_a_shape_error() {
    let event = r#"{"Records":[]}"#;
    assert!(matches!(event_message(event), Err(EnvelopeError::UnexpectedShape(_))));
}

#[test]
fn inbound_message_parsed() {
    let msg = r#"{"mail":{"commonHeaders":{"subject":"Sold!"}},"content":"raw mail"}"#;
    let m = parse_inbound_message(msg).unwrap();
    assert_eq!(m.subject, "Sold!");
    assert_eq!(m.content, "raw mail");
}

#[test]
fn inbound_message_without_subject_is_a_shape_error() {
    let msg = r#"{"mail":{"commonHeaders":{}},"content":"raw mail"}"#;
    assert!(matches!(
        parse_inbound_message(msg),
        Err(EnvelopeError::UnexpectedShape(_))
    ));
}
