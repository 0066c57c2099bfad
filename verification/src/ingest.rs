//! ImageIngestor and PropertyRecordStore planning: the ordered actions
//! that ingest one listing, and the ordering laws they give.
//!
//! Ingesting a listing is planned as a sequence of actions that the caller
//! performs in order, aborting on the first failure: one upload per
//! downloaded image under a fresh identifier, then one record write whose
//! image id list is exactly the uploaded ids. The record write standing
//! last is what makes the write-after-children invariant hold: no store
//! state ever holds the record without every one of its images. A partial
//! failure leaves uploaded blobs behind with no compensating deletion;
//! that is the accepted no-rollback policy.

use vstd::prelude::*;

use crate::kv::PropertyRecord;

verus! {

/// Relies on uuid::Uuid::new_v4 and its hyphenated text form: a fresh
/// random 128-bit identifier. Nothing is promised of its value; in
/// particular, two draws may collide, and no contract here claims
/// otherwise.
#[verifier::external_body]
fn fresh_image_id() -> (r: String) {
    uuid::Uuid::new_v4().to_string()
}

/// One step of ingesting a listing, in program order.
pub enum IngestAction {
    /// Store the bytes in blob storage under the fresh id (the blob key
    /// equals the image id; no secondary index).
    UploadImage { id: String, bytes: Vec<u8> },
    /// Write the property record to the key-value store, overwriting
    /// unconditionally.
    PutRecord { record: PropertyRecord },
}

/// Whether an action is an image upload.
pub open spec fn is_upload(a: IngestAction) -> bool {
    a is UploadImage
}

/// The id an upload action stores under.
pub open spec fn upload_id(a: IngestAction) -> Seq<char> {
    match a {
        IngestAction::UploadImage { id, .. } => id@,
        IngestAction::PutRecord { .. } => Seq::empty(),
    }
}

/// The bytes an upload action stores.
pub open spec fn upload_bytes(a: IngestAction) -> Seq<u8> {
    match a {
        IngestAction::UploadImage { bytes, .. } => bytes@,
        IngestAction::PutRecord { .. } => Seq::empty(),
    }
}

/// The record a record write carries.
pub open spec fn record_of(a: IngestAction) -> PropertyRecord {
    match a {
        IngestAction::PutRecord { record } => record,
        IngestAction::UploadImage { .. } => arbitrary(),
    }
}

/// Well-formedness of one listing's ingest plan: one upload per image in
/// input order, then exactly one record write, last, whose image id list
/// is exactly the uploaded ids in order.
pub open spec fn ingest_plan_wf(
    plan: Seq<IngestAction>,
    property_id: Seq<char>,
    listing_id: int,
    street_address: Seq<char>,
    images: Seq<Seq<u8>>,
) -> bool {
    &&& plan.len() == images.len() + 1
    &&& forall|i: int|
        0 <= i < images.len() ==> is_upload(#[trigger] plan[i]) && upload_bytes(plan[i])
            == images[i]
    &&& !is_upload(plan.last())
    &&& record_of(plan.last()).property_id@ == property_id
    &&& record_of(plan.last()).listing_id as int == listing_id
    &&& record_of(plan.last()).street_address@ == street_address
    &&& record_of(plan.last()).image_ids.deep_view().len() == images.len()
    &&& forall|i: int|
        0 <= i < images.len() ==> record_of(plan.last()).image_ids.deep_view()[i] == upload_id(
            #[trigger] plan[i],
        )
}

/// Plan the ingestion of one listing whose detail fetch returned images:
/// draw a fresh id per downloaded image, upload each under its id, and
/// write the property record only after every upload.
pub fn ingest_plan(
    property_id: &str,
    listing_id: i32,
    street_address: &str,
    images: Vec<Vec<u8>>,
) -> (plan: Vec<IngestAction>)
    ensures
        ingest_plan_wf(
            plan@,
            property_id@,
            listing_id as int,
            street_address@,
            images.deep_view(),
        ),
{
    let n = images.len();
    let mut plan: Vec<IngestAction> = Vec::new();
    let mut ids: Vec<String> = Vec::new();
    let mut x: usize = 0;
    while x < n
        invariant
            0 <= x <= n,
            n == images@.len(),
            plan@.len() == x,
            ids@.len() == x,
            forall|i: int|
                0 <= i < x ==> is_upload(#[trigger] plan@[i]) && upload_bytes(plan@[i])
                    == images.deep_view()[i] && upload_id(plan@[i]) == ids.deep_view()[i],
        decreases n - x,
    {
        let id = fresh_image_id();
        let bytes = images[x].clone();
        proof {
            assert(bytes@ =~= images@[x as int]@);
        }
        ids.push(id.clone());
        plan.push(IngestAction::UploadImage { id, bytes });
        x = x + 1;
    }
    let record = PropertyRecord {
        property_id: property_id.to_owned(),
        listing_id,
        street_address: street_address.to_owned(),
        image_ids: ids,
    };
    plan.push(IngestAction::PutRecord { record });
    plan
}

/// An abstract store state: blob contents by image id, records by property
/// id.
pub struct StoreModel {
    pub blobs: Map<Seq<char>, Seq<u8>>,
    pub records: Map<Seq<char>, PropertyRecord>,
}

/// The store state after one action.
pub open spec fn apply_action(st: StoreModel, a: IngestAction) -> StoreModel {
    match a {
        IngestAction::UploadImage { id, bytes } => StoreModel {
            blobs: st.blobs.insert(id@, bytes@),
            records: st.records,
        },
        IngestAction::PutRecord { record } => StoreModel {
            blobs: st.blobs,
            records: st.records.insert(record.property_id@, record),
        },
    }
}

/// The store state after the first `k` actions of a plan.
pub open spec fn apply_plan(st: StoreModel, plan: Seq<IngestAction>, k: int) -> StoreModel
    decreases k,
{
    if k <= 0 {
        st
    } else {
        apply_action(apply_plan(st, plan, k - 1), plan[k - 1])
    }
}

/// While only uploads have run, the records are untouched and every id
/// uploaded so far is in blob storage.
proof fn lemma_uploads_prefix(st: StoreModel, plan: Seq<IngestAction>, k: int)
    requires
        0 <= k <= plan.len(),
        forall|i: int| 0 <= i < k ==> is_upload(#[trigger] plan[i]),
    ensures
        apply_plan(st, plan, k).records == st.records,
        forall|i: int|
            0 <= i < k ==> apply_plan(st, plan, k).blobs.contains_key(upload_id(
                #[trigger] plan[i],
            )),
    decreases k,
{
    if k > 0 {
        lemma_uploads_prefix(st, plan, k - 1);
    }
}

/// Law (write-after-children): apply any prefix of a well-formed ingest
/// plan, in order, to any store that does not yet hold the property's
/// record. Whenever the record is observable in the resulting store, every
/// id on its image list is independently retrievable from blob storage.
/// No store state ever holds a partial record.
pub proof fn lemma_write_after_children(
    st: StoreModel,
    plan: Seq<IngestAction>,
    property_id: Seq<char>,
    listing_id: int,
    street_address: Seq<char>,
    images: Seq<Seq<u8>>,
    k: int,
)
    requires
        ingest_plan_wf(plan, property_id, listing_id, street_address, images),
        0 <= k <= plan.len(),
        !st.records.contains_key(property_id),
    ensures
        apply_plan(st, plan, k).records.contains_key(property_id) ==> apply_plan(
            st,
            plan,
            k,
        ).records[property_id] == record_of(plan.last()) && (forall|i: int|
            0 <= i < record_of(plan.last()).image_ids.deep_view().len() ==> apply_plan(
                st,
                plan,
                k,
            ).blobs.contains_key(#[trigger] record_of(plan.last()).image_ids.deep_view()[i])),
{
    let m = images.len() as int;
    if k <= m {
        lemma_uploads_prefix(st, plan, k);
    } else {
        assert(k == m + 1);
        lemma_uploads_prefix(st, plan, m);
        let mid = apply_plan(st, plan, m);
        assert(apply_plan(st, plan, k) == apply_action(mid, plan[m]));
        assert(plan[m] == plan.last());
        let record = record_of(plan.last());
        assert(apply_plan(st, plan, k).records == mid.records.insert(record.property_id@, record));
        assert(apply_plan(st, plan, k).blobs == mid.blobs);
        assert forall|i: int| 0 <= i < record.image_ids.deep_view().len() implies mid.blobs.contains_key(
            #[trigger] record.image_ids.deep_view()[i],
        ) by {
            assert(record.image_ids.deep_view()[i] == upload_id(plan[i]));
            assert(mid.blobs.contains_key(upload_id(plan[i])));
        }
    }
}

/// The candidates that survive the dedup filter: those the store did not
/// report as existing.
pub open spec fn survivors(
    candidates: Map<Seq<char>, int>,
    existing: Set<Seq<char>>,
) -> Map<Seq<char>, int> {
    candidates.remove_keys(existing)
}

/// The property ids one run writes records (and uploads images) for: the
/// surviving candidates whose detail fetch yields an image list.
pub open spec fn written_ids(
    candidates: Map<Seq<char>, int>,
    existing: Set<Seq<char>>,
    has_images: spec_fn(int) -> bool,
) -> Set<Seq<char>> {
    Set::new(
        |p: Seq<char>|
            survivors(candidates, existing).contains_key(p) && has_images(
                survivors(candidates, existing)[p],
            ),
    )
}

/// Law (rerun idempotence): run the pipeline once against a store whose
/// records are `existing`; it writes records for exactly
/// `written_ids(candidates, existing, has_images)` and uploads images for
/// exactly those ids. With no store mutation in between, a second run over
/// the same candidates and the same detail outcomes sees those ids as
/// existing, and writes no record and uploads no image at all.
pub proof fn lemma_rerun_idempotent(
    candidates: Map<Seq<char>, int>,
    existing: Set<Seq<char>>,
    has_images: spec_fn(int) -> bool,
)
    ensures
        written_ids(
            candidates,
            existing.union(written_ids(candidates, existing, has_images)),
            has_images,
        ) == Set::<Seq<char>>::empty(),
{
    let w1 = written_ids(candidates, existing, has_images);
    let w2 = written_ids(candidates, existing.union(w1), has_images);
    assert forall|p: Seq<char>| !(#[trigger] w2.contains(p)) by {
        if w2.contains(p) {
            assert(w1.contains(p));
        }
    }
    assert(w2 =~= Set::<Seq<char>>::empty());
}

} // verus!
