use hemnet_pipeline::errors::StoreReadError;
use hemnet_pipeline::errors::UnknownPropertyError;
use hemnet_pipeline::ingest::IngestAction;
use hemnet_pipeline::ingest::ingest_plan;
use hemnet_pipeline::kv::AttrVal;
use hemnet_pipeline::kv::KvField;
use hemnet_pipeline::kv::KvItem;
use hemnet_pipeline::kv::PropertyRecord;
use hemnet_pipeline::kv::image_ids_of_item;
use hemnet_pipeline::kv::resolve_property_item;
use hemnet_pipeline::num::i32_dec;

fn sample_record() -> PropertyRecord {
    PropertyRecord {
        property_id: "xyz789".to_string(),
        listing_id: -42,
        street_address: "Main Street 1".to_string(),
        image_ids: vec!["id1".to_string(), "id2".to_string()],
    }
}

#[test]
fn decimal_of_zero() {
    assert_eq!(i32_dec(0), "0".to_string());
}

#[test]
fn decimal_of_positive() {
    assert_eq!(i32_dec(1234567), "1234567".to_string());
}

#[test]
fn decimal_of_negative() {
    assert_eq!(i32_dec(-45), "-45".to_string());
}

#[test]
fn decimal_of_extremes() {
    assert_eq!(i32_dec(i32::MAX), "2147483647".to_string());
    assert_eq!(i32_dec(i32::MIN), "-2147483648".to_string());
}

#[test]
fn record_item_carries_all_four_fields() {
    let item = sample_record().to_item();
    assert_eq!(item.fields.len(), 4);
    assert_eq!(item.fields[0].name, "PropertyId");
    assert!(matches!(&item.fields[0].value, AttrVal::S(s) if s == "xyz789"));
    assert_eq!(item.fields[1].name, "ListingPropertyId");
    assert!(matches!(&item.fields[1].value, AttrVal::N(n) if n == "-42"));
    assert_eq!(item.fields[2].name, "StreetAddress");
    assert!(matches!(&item.fields[2].value, AttrVal::S(s) if s == "Main Street 1"));
    assert_eq!(item.fields[3].name, "ImageIds");
}

#[test]
fn image_ids_read_back_from_record_item() {
    let item = sample_record().to_item();
    let ids = image_ids_of_item(&item).unwrap();
    assert_eq!(ids, &vec!["id1".to_string(), "id2".to_string()]);
}

#[test]
fn image_ids_missing_field_is_an_error() {
    let item = KvItem {
        fields: vec![KvField { name: "PropertyId".to_string(), value: AttrVal::S("p".to_string()) }],
    };
    assert!(matches!(
        image_ids_of_item(&item),
        Err(StoreReadError::MissingField(_))
    ));
}

#[test]
fn image_ids_wrong_type_is_an_error() {
    let item = KvItem {
        fields: vec![KvField { name: "ImageIds".to_string(), value: AttrVal::S("p".to_string()) }],
    };
    assert!(matches!(
        image_ids_of_item(&item),
        Err(StoreReadError::WrongFieldType(_))
    ));
}

#[test]
fn resolving_a_stored_item_returns_it() {
    let item = sample_record().to_item();
    let resolved = resolve_property_item(Some(item), "xyz789").unwrap();
    assert_eq!(resolved.fields.len(), 4);
}

#[test]
fn resolving_a_missing_record_is_unknown_property() {
    assert!(matches!(
        resolve_property_item(None, "xyz789"),
        Err(UnknownPropertyError::NoRecord(p)) if p == "xyz789"
    ));
}

#[test]
fn ingest_plan_uploads_every_image_then_writes_the_record() {
    let images = vec![vec![1u8, 2, 3], vec![4u8, 5]];
    let plan = ingest_plan("xyz789", 7, "Main Street 1", images.clone());
    assert_eq!(plan.len(), 3);
    let mut upload_ids = Vec::new();
    for (i, action) in plan.iter().take(2).enumerate() {
        match action {
            IngestAction::UploadImage { id, bytes } => {
                assert_eq!(bytes, &images[i]);
                assert!(!id.is_empty());
                upload_ids.push(id.clone());
            },
            IngestAction::PutRecord { .. } => panic!("record written before an image"),
        }
    }
    assert_ne!(upload_ids[0], upload_ids[1]);
    match &plan[2] {
        IngestAction::PutRecord { record } => {
            assert_eq!(record.property_id, "xyz789");
            assert_eq!(record.listing_id, 7);
            assert_eq!(record.street_address, "Main Street 1");
            assert_eq!(record.image_ids, upload_ids);
        },
        IngestAction::UploadImage { .. } => panic!("last action must write the record"),
    }
}

#[test]
fn ingest_plan_of_no_images_only_writes_the_record() {
    let plan = ingest_plan("p", 1, "addr", Vec::new());
    assert_eq!(plan.len(), 1);
    match &plan[0] {
        IngestAction::PutRecord { record } => assert!(record.image_ids.is_empty()),
        IngestAction::UploadImage { .. } => panic!("no image was given"),
    }
}
