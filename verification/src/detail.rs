//! ListingDetailFetcher's response handling: check one detail response's
//! shape and read out the street address and image URL list.
//!
//! A detail response is an object `data.listing` with a string
//! `streetAddress` and an optional `images` member. An absent or null
//! `images` member is the valid "no images" outcome, not an error: the
//! caller skips the listing entirely and writes no record for it.

use vstd::prelude::*;

use crate::errors::DetailFetchError;
use crate::json::JsonData;
use crate::json::json_as_array;
use crate::json::json_as_str;
use crate::json::json_get;
use crate::json::json_is_null;
use crate::json::json_text;
use crate::json::json_view;
use crate::json::parse_json;

verus! {

/// The detail outcome for one listing: street address, and the ordered
/// image URL list when the listing has one.
#[derive(Debug, Clone)]
pub struct ListingDetail {
    pub street_address: String,
    pub image_urls: Option<Vec<String>>,
}

/// The URL one image entry yields.
pub open spec fn spec_image_url(j: JsonData) -> Option<Seq<char>> {
    match j {
        JsonData::Obj(m) => if m.contains_key("url"@) {
            match m["url"@] {
                JsonData::Str(u) => Some(u),
                _ => None,
            }
        } else {
            None
        },
        _ => None,
    }
}

/// The URLs of a whole image array; nothing when any entry is malformed.
pub open spec fn spec_image_urls(a: Seq<JsonData>) -> Option<Seq<Seq<char>>>
    decreases a.len(),
{
    if a.len() == 0 {
        Some(Seq::empty())
    } else {
        match spec_image_url(a[0]) {
            Some(u) => match spec_image_urls(a.drop_first()) {
                Some(rest) => Some(seq![u] + rest),
                None => None,
            },
            None => None,
        }
    }
}

/// The `images` member of a listing: absent or null is the valid "no
/// images" outcome; an object must carry an `images` array of `{url}`
/// entries; anything else is a shape failure.
pub open spec fn spec_images_member(l: Map<Seq<char>, JsonData>) -> Option<
    Option<Seq<Seq<char>>>,
> {
    if !l.contains_key("images"@) {
        Some(None)
    } else {
        match l["images"@] {
            JsonData::Null => Some(None),
            JsonData::Obj(im) => if im.contains_key("images"@) {
                match im["images"@] {
                    JsonData::Arr(a) => match spec_image_urls(a) {
                        Some(us) => Some(Some(us)),
                        None => None,
                    },
                    _ => None,
                }
            } else {
                None
            },
            _ => None,
        }
    }
}

/// The street address and image URLs of a whole detail document.
pub open spec fn spec_detail_doc(j: JsonData) -> Option<(Seq<char>, Option<Seq<Seq<char>>>)> {
    match j {
        JsonData::Obj(top) => if top.contains_key("data"@) {
            match top["data"@] {
                JsonData::Obj(d) => if d.contains_key("listing"@) {
                    match d["listing"@] {
                        JsonData::Obj(l) => if l.contains_key("streetAddress"@) {
                            match l["streetAddress"@] {
                                JsonData::Str(addr) => match spec_images_member(l) {
                                    Some(imgs) => Some((addr, imgs)),
                                    None => None,
                                },
                                _ => None,
                            }
                        } else {
                            None
                        },
                        _ => None,
                    }
                } else {
                    None
                },
                _ => None,
            }
        } else {
            None
        },
        _ => None,
    }
}

/// Collect the image URLs of the inner `images` array.
fn parse_image_urls(arr: &Vec<serde_json::Value>, Ghost(a): Ghost<Seq<JsonData>>) -> (r: Option<
    Vec<String>,
>)
    requires
        arr@.len() == a.len(),
        forall|i: int| 0 <= i < a.len() ==> json_view(arr@[i]) == a[i],
    ensures
        match r {
            Some(us) => spec_image_urls(a) == Some(us.deep_view()),
            None => spec_image_urls(a) is None,
        },
{
    let mut us: Vec<String> = Vec::new();
    let mut x: usize = 0;
    proof {
        assert(a.skip(0) =~= a);
    }
    while x < arr.len()
        invariant
            0 <= x <= a.len(),
            arr@.len() == a.len(),
            forall|i: int| 0 <= i < a.len() ==> json_view(arr@[i]) == a[i],
            match spec_image_urls(a.skip(x as int)) {
                Some(rest) => spec_image_urls(a) == Some(us.deep_view() + rest),
                None => spec_image_urls(a) is None,
            },
        decreases a.len() - x,
    {
        let ghost tail = a.skip(x as int);
        let ghost pre = us.deep_view();
        proof {
            assert(tail[0] == a[x as int]);
            assert(tail.drop_first() =~= a.skip(x as int + 1));
        }
        let entry = match json_get(&arr[x], "url") {
            Some(u) => u,
            None => {
                return None;
            },
        };
        match json_as_str(entry) {
            Some(u) => {
                us.push(u.to_owned());
                proof {
                    assert(us.deep_view() =~= pre.push(u@));
                    let nxt = spec_image_urls(a.skip(x as int + 1));
                    if nxt is Some {
                        let rest = nxt->Some_0;
                        assert(pre + (seq![u@] + rest) =~= us.deep_view() + rest);
                    }
                }
            },
            None => {
                return None;
            },
        }
        x = x + 1;
    }
    proof {
        assert(a.skip(a.len() as int).len() == 0);
        assert(us.deep_view() + Seq::<Seq<char>>::empty() =~= us.deep_view());
    }
    Some(us)
}

/// Check one detail response's shape and read out the street address and
/// image URL list. An absent or null image list yields the "no images"
/// outcome; `InvalidJson` comes exactly on text that is not JSON and
/// `UnexpectedShape` exactly on a document of another shape.
pub fn parse_listing_detail(body: &str) -> (r: Result<ListingDetail, DetailFetchError>)
    ensures
        match r {
            Ok(d) => json_text(body@) matches Some(doc) && spec_detail_doc(doc) == Some(
                (d.street_address@, d.image_urls.deep_view()),
            ),
            Err(e) => match json_text(body@) {
                Option::None => e matches DetailFetchError::InvalidJson(_),
                Option::Some(doc) => spec_detail_doc(doc) is None && (
                e matches DetailFetchError::UnexpectedShape(_)),
            },
        },
{
    let doc = match parse_json(body) {
        Ok(v) => v,
        Err(m) => {
            return Err(DetailFetchError::InvalidJson(m));
        },
    };
    let data = match json_get(&doc, "data") {
        Some(d) => d,
        None => {
            return Err(DetailFetchError::UnexpectedShape("data".to_owned()));
        },
    };
    let listing = match json_get(data, "listing") {
        Some(l) => l,
        None => {
            return Err(DetailFetchError::UnexpectedShape("listing".to_owned()));
        },
    };
    let addr_v = match json_get(listing, "streetAddress") {
        Some(v) => v,
        None => {
            return Err(DetailFetchError::UnexpectedShape("streetAddress".to_owned()));
        },
    };
    let addr = match json_as_str(addr_v) {
        Some(s) => s,
        None => {
            return Err(DetailFetchError::UnexpectedShape("streetAddress".to_owned()));
        },
    };
    match json_get(listing, "images") {
        None => Ok(ListingDetail { street_address: addr.to_owned(), image_urls: None }),
        Some(images) => {
            if json_is_null(images) {
                return Ok(ListingDetail { street_address: addr.to_owned(), image_urls: None });
            }
            let inner = match json_get(images, "images") {
                Some(i) => i,
                None => {
                    return Err(DetailFetchError::UnexpectedShape("images".to_owned()));
                },
            };
            let arr = match json_as_array(inner) {
                Some(a) => a,
                None => {
                    return Err(DetailFetchError::UnexpectedShape("images".to_owned()));
                },
            };
            let ghost a = json_view(*inner)->Arr_0;
            match parse_image_urls(arr, Ghost(a)) {
                Some(us) => Ok(
                    ListingDetail { street_address: addr.to_owned(), image_urls: Some(us) },
                ),
                None => Err(DetailFetchError::UnexpectedShape("images url".to_owned())),
            }
        },
    }
}

} // verus!
