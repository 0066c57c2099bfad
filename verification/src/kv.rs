//! The key-value store's data model: items of named attribute values, the
//! property record, and the record's round trip through an item.
//!
//! The store is the sole source of truth for processed properties. A record
//! is written as one item keyed by property id, with the listing id in
//! decimal text form and the ordered image id list; the notification path
//! reads the image ids back from the same shape.

use vstd::prelude::*;

use crate::errors::StoreReadError;
use crate::errors::UnknownPropertyError;
use crate::num::dec_str_int;
use crate::num::i32_dec;
use crate::text::str_eq;

verus! {

broadcast use vstd::std_specs::vec::vec_clone_deep_view_proof;

/// One attribute value of a store item: string, number (in the decimal
/// text form the store transports), ordered string list, or any other
/// store type the pipeline does not use. The image id list is an ordered
/// list, so it travels as `Strings`, never as an unordered set.
#[derive(Debug, Clone)]
pub enum AttrVal {
    S(String),
    N(String),
    Strings(Vec<String>),
    Other,
}

/// One named attribute of a store item.
#[derive(Debug, Clone)]
pub struct KvField {
    pub name: String,
    pub value: AttrVal,
}

/// One store item.
#[derive(Debug, Clone)]
pub struct KvItem {
    pub fields: Vec<KvField>,
}

/// The first field with the given name (store items carry each name once).
pub open spec fn spec_item_get(fields: Seq<KvField>, name: Seq<char>) -> Option<AttrVal>
    decreases fields.len(),
{
    if fields.len() == 0 {
        None
    } else if fields[0].name@ == name {
        Some(fields[0].value)
    } else {
        spec_item_get(fields.drop_first(), name)
    }
}

impl KvItem {
    /// The attribute recorded under `name`.
    pub open spec fn spec_get(&self, name: Seq<char>) -> Option<AttrVal> {
        spec_item_get(self.fields@, name)
    }

    /// Look up an attribute by name.
    pub fn get(&self, name: &str) -> (r: Option<&AttrVal>)
        ensures
            match r {
                Some(v) => self.spec_get(name@) == Some(*v),
                None => self.spec_get(name@) is None,
            },
    {
        let mut x: usize = 0;
        proof {
            assert(self.fields@.skip(0) =~= self.fields@);
        }
        while x < self.fields.len()
            invariant
                0 <= x <= self.fields@.len(),
                spec_item_get(self.fields@.skip(x as int), name@) == spec_item_get(
                    self.fields@,
                    name@,
                ),
            decreases self.fields@.len() - x,
        {
            let ghost tail = self.fields@.skip(x as int);
            proof {
                assert(tail[0] == self.fields@[x as int]);
                assert(tail.drop_first() =~= self.fields@.skip(x as int + 1));
            }
            if str_eq(self.fields[x].name.as_str(), name) {
                return Some(&self.fields[x].value);
            }
            x = x + 1;
        }
        proof {
            assert(self.fields@.skip(self.fields@.len() as int).len() == 0);
        }
        None
    }
}

/// Store field name of the primary key.
pub open spec fn property_id_field() -> Seq<char> {
    "PropertyId"@
}

/// Store field name of the numeric listing id.
pub open spec fn listing_id_field() -> Seq<char> {
    "ListingPropertyId"@
}

/// Store field name of the street address.
pub open spec fn street_address_field() -> Seq<char> {
    "StreetAddress"@
}

/// Store field name of the ordered image id list.
pub open spec fn image_ids_field() -> Seq<char> {
    "ImageIds"@
}

/// Read the ordered image id list out of a property record item; fails
/// exactly when the field is absent or not a string list.
pub fn image_ids_of_item<'a>(item: &'a KvItem) -> (r: Result<&'a Vec<String>, StoreReadError>)
    ensures
        match r {
            Ok(ids) => item.spec_get(image_ids_field()) == Some(AttrVal::Strings(*ids)),
            Err(e) => match item.spec_get(image_ids_field()) {
                Option::None => e matches StoreReadError::MissingField(f) && f@
                    == image_ids_field(),
                Option::Some(v) => !(v is Strings) && (e matches StoreReadError::WrongFieldType(f) && f@
                    == image_ids_field()),
            },
        },
{
    match item.get("ImageIds") {
        Some(v) => match v {
            AttrVal::Strings(ids) => Ok(ids),
            _ => Err(StoreReadError::WrongFieldType("ImageIds".to_owned())),
        },
        None => Err(StoreReadError::MissingField("ImageIds".to_owned())),
    }
}

/// Resolve a point read of the record store: the stored item, or the
/// terminal unknown-property outcome exactly when the store holds no
/// record under the id. "Not found" is distinct from a transport failure,
/// which never reaches this function.
pub fn resolve_property_item(item: Option<KvItem>, property_id: &str) -> (r: Result<
    KvItem,
    UnknownPropertyError,
>)
    ensures
        match r {
            Ok(it) => item == Some(it),
            Err(e) => item is None && (e matches UnknownPropertyError::NoRecord(p) && p@
                == property_id@),
        },
{
    match item {
        Some(it) => Ok(it),
        None => Err(UnknownPropertyError::NoRecord(property_id.to_owned())),
    }
}

/// The durable unit of work: one fully ingested property.
#[derive(Debug, Clone)]
pub struct PropertyRecord {
    pub property_id: String,
    pub listing_id: i32,
    pub street_address: String,
    pub image_ids: Vec<String>,
}

/// Whether `item` is exactly the store image of a record with the given
/// parts: the four record fields, in order.
pub open spec fn is_record_item(
    item: KvItem,
    property_id: Seq<char>,
    listing_id: int,
    street_address: Seq<char>,
    image_ids: Seq<Seq<char>>,
) -> bool {
    &&& item.fields@.len() == 4
    &&& item.fields@[0].name@ == property_id_field()
    &&& item.fields@[0].value matches AttrVal::S(v0) && v0@ == property_id
    &&& item.fields@[1].name@ == listing_id_field()
    &&& item.fields@[1].value matches AttrVal::N(v1) && v1@ == dec_str_int(listing_id)
    &&& item.fields@[2].name@ == street_address_field()
    &&& item.fields@[2].value matches AttrVal::S(v2) && v2@ == street_address
    &&& item.fields@[3].name@ == image_ids_field()
    &&& item.fields@[3].value matches AttrVal::Strings(v3) && v3.deep_view() == image_ids
}

impl PropertyRecord {
    /// The store item this record writes: its four fields, keyed by
    /// property id, overwriting unconditionally on a repeated write.
    pub fn to_item(&self) -> (item: KvItem)
        ensures
            is_record_item(
                item,
                self.property_id@,
                self.listing_id as int,
                self.street_address@,
                self.image_ids.deep_view(),
            ),
    {
        let ids = self.image_ids.clone();
        proof {
            assert(ids.deep_view() =~= self.image_ids.deep_view());
        }
        let mut fields: Vec<KvField> = Vec::new();
        fields.push(
            KvField { name: "PropertyId".to_owned(), value: AttrVal::S(self.property_id.clone()) },
        );
        fields.push(
            KvField {
                name: "ListingPropertyId".to_owned(),
                value: AttrVal::N(i32_dec(self.listing_id)),
            },
        );
        fields.push(
            KvField {
                name: "StreetAddress".to_owned(),
                value: AttrVal::S(self.street_address.clone()),
            },
        );
        fields.push(KvField { name: "ImageIds".to_owned(), value: AttrVal::Strings(ids) });
        KvItem { fields }
    }
}

/// Law: the image id list and property id written into a record's item are
/// read back exactly.
pub proof fn lemma_record_item_round_trip(
    item: KvItem,
    property_id: Seq<char>,
    listing_id: int,
    street_address: Seq<char>,
    image_ids: Seq<Seq<char>>,
)
    requires
        is_record_item(item, property_id, listing_id, street_address, image_ids),
    ensures
        spec_item_get(item.fields@, image_ids_field()) matches Some(AttrVal::Strings(v))
            && v.deep_view() == image_ids,
        spec_item_get(item.fields@, property_id_field()) matches Some(AttrVal::S(v)) && v@
            == property_id,
{
    reveal_strlit("PropertyId");
    reveal_strlit("ListingPropertyId");
    reveal_strlit("StreetAddress");
    reveal_strlit("ImageIds");
    let f = item.fields@;
    let f1 = f.drop_first();
    let f2 = f1.drop_first();
    let f3 = f2.drop_first();
    assert(f1[0] == f[1] && f1.len() == 3);
    assert(f2[0] == f[2] && f2.len() == 2);
    assert(f3[0] == f[3] && f3.len() == 1);
    assert(property_id_field().len() == 10);
    assert(listing_id_field().len() == 17);
    assert(street_address_field().len() == 13);
    assert(image_ids_field().len() == 8);
    let key = image_ids_field();
    assert(spec_item_get(f, key) == spec_item_get(f1, key));
    assert(spec_item_get(f1, key) == spec_item_get(f2, key));
    assert(spec_item_get(f2, key) == spec_item_get(f3, key));
    assert(spec_item_get(f3, key) == Some(f[3].value));
    assert(spec_item_get(f, property_id_field()) == Some(f[0].value));
}

} // verus!
