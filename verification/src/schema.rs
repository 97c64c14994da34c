//! The domain event schema: the tagged union of eleven payload shapes and
//! their shared substructures, decoded from the JSON value model.
//!
//! Every reader here is specified exactly: for each record a spec function
//! says which JSON values are accepted and which record each one denotes,
//! and the executable decoder is proved to return precisely that, with the
//! record's mathematical shape reached through `DeepView`.  A required field
//! that is absent or malformed fails the whole record; an optional field
//! that is absent or `null` reads as empty, never as a failure.

use vstd::prelude::*;

use crate::chain::{chain_of_json, Chain};
use crate::protocol::Event;
use crate::codec::{
    addr_of_json, bigint_of_json, fixed_hex_of, hash_of_json, ts_of_json, Address, BigUint,
    Hash256, Timestamp,
};
use crate::json::{
    as_str, ascii_u8, digits_len, get_field, str_to_bytes, view_items, Json, JsonV, json_field,
    json_str, json_bool, json_int, lemma_view_items,
};

verus! {

broadcast use vstd::std_specs::vec::group_vec_axioms, vstd::seq::group_seq_axioms, vstd::string::group_string_axioms;

// -------------------------------------------------------------------------
// Field readers: `req_*` readers fail on an absent or malformed field,
// `opt_*` readers read an absent or `null` field as empty and fail only on
// a malformed one.  The outer `Option` is the decoder's success.
// -------------------------------------------------------------------------

pub open spec fn req_str_of(v: JsonV, k: Seq<u8>) -> Option<Seq<u8>> {
    match get_field(v, k) {
        Some(f) => as_str(f),
        None => None,
    }
}

pub open spec fn opt_str_of(v: JsonV, k: Seq<u8>) -> Option<Option<Seq<u8>>> {
    match get_field(v, k) {
        None => Some(None),
        Some(JsonV::Null) => Some(None),
        Some(JsonV::Str(s)) => Some(Some(s)),
        Some(_) => None,
    }
}

pub open spec fn req_u64_of(v: JsonV, k: Seq<u8>) -> Option<u64> {
    match get_field(v, k) {
        Some(JsonV::Int(n)) => {
            if 0 <= n <= u64::MAX {
                Some(n as u64)
            } else {
                None
            }
        },
        _ => None,
    }
}

pub open spec fn opt_u64_of(v: JsonV, k: Seq<u8>) -> Option<Option<u64>> {
    match get_field(v, k) {
        None => Some(None),
        Some(JsonV::Null) => Some(None),
        Some(JsonV::Int(n)) => {
            if 0 <= n <= u64::MAX {
                Some(Some(n as u64))
            } else {
                None
            }
        },
        Some(_) => None,
    }
}

pub open spec fn req_bool_of(v: JsonV, k: Seq<u8>) -> Option<bool> {
    match get_field(v, k) {
        Some(JsonV::Bool(b)) => Some(b),
        _ => None,
    }
}

pub open spec fn req_ts_of(v: JsonV, k: Seq<u8>) -> Option<Timestamp> {
    match get_field(v, k) {
        Some(f) => ts_of_json(f),
        None => None,
    }
}

pub open spec fn opt_ts_of(v: JsonV, k: Seq<u8>) -> Option<Option<Timestamp>> {
    match get_field(v, k) {
        None => Some(None),
        Some(JsonV::Null) => Some(None),
        Some(f) => match ts_of_json(f) {
            Some(t) => Some(Some(t)),
            None => None,
        },
    }
}

pub open spec fn req_bigint_of(v: JsonV, k: Seq<u8>) -> Option<Seq<u8>> {
    match get_field(v, k) {
        Some(f) => bigint_of_json(f),
        None => None,
    }
}

pub open spec fn req_hash_of(v: JsonV, k: Seq<u8>) -> Option<Seq<u8>> {
    match get_field(v, k) {
        Some(f) => hash_of_json(f),
        None => None,
    }
}

pub open spec fn opt_hash_of(v: JsonV, k: Seq<u8>) -> Option<Option<Seq<u8>>> {
    match get_field(v, k) {
        None => Some(None),
        Some(JsonV::Null) => Some(None),
        Some(f) => match hash_of_json(f) {
            Some(h) => Some(Some(h)),
            None => None,
        },
    }
}

/// An address wrapped in the feed's nested single-field object.
pub open spec fn req_addr_obj_of(v: JsonV, k: Seq<u8>) -> Option<Seq<u8>> {
    match get_field(v, k) {
        Some(f) => addr_of_json(f),
        None => None,
    }
}

pub open spec fn opt_addr_obj_of(v: JsonV, k: Seq<u8>) -> Option<Option<Seq<u8>>> {
    match get_field(v, k) {
        None => Some(None),
        Some(JsonV::Null) => Some(None),
        Some(f) => match addr_of_json(f) {
            Some(a) => Some(Some(a)),
            None => None,
        },
    }
}

/// An address carried as a bare hex string.
pub open spec fn req_addr_bare_of(v: JsonV, k: Seq<u8>) -> Option<Seq<u8>> {
    match get_field(v, k) {
        Some(f) => crate::codec::addr_bare_of_json(f),
        None => None,
    }
}

// -------------------------------------------------------------------------
// Executable field readers.
// -------------------------------------------------------------------------

/// A fresh copy of byte text.
fn copy_bytes(s: &Vec<u8>) -> (r: Vec<u8>)
    ensures
        r@ == s@,
{
    crate::json::slice_range_to_vec(s.as_slice(), 0, s.len())
}

fn x_req_str(v: &Json, key: &str) -> (r: Option<Vec<u8>>)
    requires
        key.is_ascii(),
    ensures
        match r {
            Some(s) => req_str_of(v@, ascii_u8(key@)) == Some(s@),
            None => req_str_of(v@, ascii_u8(key@)) is None,
        },
{
    match json_field(v, key) {
        Some(f) => match json_str(f) {
            Some(s) => Some(copy_bytes(s)),
            None => None,
        },
        None => None,
    }
}

fn x_opt_str(v: &Json, key: &str) -> (r: Option<Option<Vec<u8>>>)
    requires
        key.is_ascii(),
    ensures
        match r {
            Some(Some(s)) => opt_str_of(v@, ascii_u8(key@)) == Some(Some(s@)),
            Some(None) => opt_str_of(v@, ascii_u8(key@)) == Some(None::<Seq<u8>>),
            None => opt_str_of(v@, ascii_u8(key@)) is None,
        },
{
    match json_field(v, key) {
        None => Some(None),
        Some(f) => match f {
            Json::Null => Some(None),
            Json::Str(s) => Some(Some(copy_bytes(s))),
            _ => None,
        },
    }
}

fn x_req_u64(v: &Json, key: &str) -> (r: Option<u64>)
    requires
        key.is_ascii(),
    ensures
        match r {
            Some(n) => req_u64_of(v@, ascii_u8(key@)) == Some(n),
            None => req_u64_of(v@, ascii_u8(key@)) is None,
        },
{
    match json_field(v, key) {
        Some(f) => match json_int(f) {
            Some(n) => {
                if n >= 0 {
                    Some(n as u64)
                } else {
                    None
                }
            },
            None => None,
        },
        None => None,
    }
}

fn x_opt_u64(v: &Json, key: &str) -> (r: Option<Option<u64>>)
    requires
        key.is_ascii(),
    ensures
        match r {
            Some(Some(n)) => opt_u64_of(v@, ascii_u8(key@)) == Some(Some(n)),
            Some(None) => opt_u64_of(v@, ascii_u8(key@)) == Some(None::<u64>),
            None => opt_u64_of(v@, ascii_u8(key@)) is None,
        },
{
    match json_field(v, key) {
        None => Some(None),
        Some(f) => match f {
            Json::Null => Some(None),
            Json::Int(n) => {
                if *n >= 0 {
                    Some(Some(*n as u64))
                } else {
                    None
                }
            },
            _ => None,
        },
    }
}

fn x_req_bool(v: &Json, key: &str) -> (r: Option<bool>)
    requires
        key.is_ascii(),
    ensures
        match r {
            Some(b) => req_bool_of(v@, ascii_u8(key@)) == Some(b),
            None => req_bool_of(v@, ascii_u8(key@)) is None,
        },
{
    match json_field(v, key) {
        Some(f) => json_bool(f),
        None => None,
    }
}

fn x_req_ts(v: &Json, key: &str) -> (r: Option<Timestamp>)
    requires
        key.is_ascii(),
    ensures
        match r {
            Some(t) => req_ts_of(v@, ascii_u8(key@)) == Some(t) && t.wf(),
            None => req_ts_of(v@, ascii_u8(key@)) is None,
        },
{
    match json_field(v, key) {
        Some(f) => Timestamp::decode(f),
        None => None,
    }
}

fn x_opt_ts(v: &Json, key: &str) -> (r: Option<Option<Timestamp>>)
    requires
        key.is_ascii(),
    ensures
        match r {
            Some(Some(t)) => opt_ts_of(v@, ascii_u8(key@)) == Some(Some(t)) && t.wf(),
            Some(None) => opt_ts_of(v@, ascii_u8(key@)) == Some(None::<Timestamp>),
            None => opt_ts_of(v@, ascii_u8(key@)) is None,
        },
{
    match json_field(v, key) {
        None => Some(None),
        Some(f) => match f {
            Json::Null => Some(None),
            _ => match Timestamp::decode(f) {
                Some(t) => Some(Some(t)),
                None => None,
            },
        },
    }
}

fn x_req_bigint(v: &Json, key: &str) -> (r: Option<BigUint>)
    requires
        key.is_ascii(),
    ensures
        match r {
            Some(b) => req_bigint_of(v@, ascii_u8(key@)) == Some(b.deep_view()) && b.wf(),
            None => req_bigint_of(v@, ascii_u8(key@)) is None,
        },
{
    match json_field(v, key) {
        Some(f) => BigUint::decode(f),
        None => None,
    }
}

fn x_req_hash(v: &Json, key: &str) -> (r: Option<Hash256>)
    requires
        key.is_ascii(),
    ensures
        match r {
            Some(h) => req_hash_of(v@, ascii_u8(key@)) == Some(h.deep_view()) && h.wf(),
            None => req_hash_of(v@, ascii_u8(key@)) is None,
        },
{
    match json_field(v, key) {
        Some(f) => Hash256::decode(f),
        None => None,
    }
}

fn x_opt_hash(v: &Json, key: &str) -> (r: Option<Option<Hash256>>)
    requires
        key.is_ascii(),
    ensures
        match r {
            Some(Some(h)) => opt_hash_of(v@, ascii_u8(key@)) == Some(Some(h.deep_view()))
                && h.wf(),
            Some(None) => opt_hash_of(v@, ascii_u8(key@)) == Some(None::<Seq<u8>>),
            None => opt_hash_of(v@, ascii_u8(key@)) is None,
        },
{
    match json_field(v, key) {
        None => Some(None),
        Some(f) => match f {
            Json::Null => Some(None),
            _ => match Hash256::decode(f) {
                Some(h) => Some(Some(h)),
                None => None,
            },
        },
    }
}

fn x_req_addr_obj(v: &Json, key: &str) -> (r: Option<Address>)
    requires
        key.is_ascii(),
    ensures
        match r {
            Some(a) => req_addr_obj_of(v@, ascii_u8(key@)) == Some(a.deep_view()) && a.wf(),
            None => req_addr_obj_of(v@, ascii_u8(key@)) is None,
        },
{
    match json_field(v, key) {
        Some(f) => Address::decode(f),
        None => None,
    }
}

fn x_opt_addr_obj(v: &Json, key: &str) -> (r: Option<Option<Address>>)
    requires
        key.is_ascii(),
    ensures
        match r {
            Some(Some(a)) => opt_addr_obj_of(v@, ascii_u8(key@)) == Some(Some(a.deep_view()))
                && a.wf(),
            Some(None) => opt_addr_obj_of(v@, ascii_u8(key@)) == Some(None::<Seq<u8>>),
            None => opt_addr_obj_of(v@, ascii_u8(key@)) is None,
        },
{
    match json_field(v, key) {
        None => Some(None),
        Some(f) => match f {
            Json::Null => Some(None),
            _ => match Address::decode(f) {
                Some(a) => Some(Some(a)),
                None => None,
            },
        },
    }
}

fn x_req_addr_bare(v: &Json, key: &str) -> (r: Option<Address>)
    requires
        key.is_ascii(),
    ensures
        match r {
            Some(a) => req_addr_bare_of(v@, ascii_u8(key@)) == Some(a.deep_view()) && a.wf(),
            None => req_addr_bare_of(v@, ascii_u8(key@)) is None,
        },
{
    match json_field(v, key) {
        Some(f) => Address::decode_bare(f),
        None => None,
    }
}

// -------------------------------------------------------------------------
// Shared substructures.
// -------------------------------------------------------------------------

/// The auctioning system of a listing.
#[derive(PartialEq, Eq, Structural, Clone, Copy, Debug)]
pub enum ListingType {
    English,
    Dutch,
}

impl DeepView for ListingType {
    type V = ListingType;

    open spec fn deep_view(&self) -> ListingType {
        *self
    }
}

/// An optional `listing_type` field: `english`, `dutch`, `null` or absent.
pub open spec fn opt_listing_type_of(v: JsonV, k: Seq<u8>) -> Option<Option<ListingType>> {
    match get_field(v, k) {
        None => Some(None),
        Some(JsonV::Null) => Some(None),
        Some(JsonV::Str(s)) => {
            if s == ascii_u8("english"@) {
                Some(Some(ListingType::English))
            } else if s == ascii_u8("dutch"@) {
                Some(Some(ListingType::Dutch))
            } else {
                None
            }
        },
        Some(_) => None,
    }
}

/// Whether `s` spells the ASCII string `name`.
fn bytes_are(s: &Vec<u8>, name: &str) -> (r: bool)
    requires
        name.is_ascii(),
    ensures
        r == (s@ == ascii_u8(name@)),
{
    let kb = str_to_bytes(name);
    let r = s == &kb;
    proof {
        if r {
            assert(s@ =~= kb@);
        }
        if s@ == kb@ {
            assert forall|i: int| 0 <= i < s@.len() implies s@[i] == kb@[i] by {}
            assert(r);
        }
    }
    r
}

fn x_opt_listing_type(v: &Json, key: &str) -> (r: Option<Option<ListingType>>)
    requires
        key.is_ascii(),
    ensures
        match r {
            Some(o) => opt_listing_type_of(v@, ascii_u8(key@)) == Some(o),
            None => opt_listing_type_of(v@, ascii_u8(key@)) is None,
        },
{
    proof {
        reveal_strlit("english");
        reveal_strlit("dutch");
    }
    match json_field(v, key) {
        None => Some(None),
        Some(f) => match f {
            Json::Null => Some(None),
            Json::Str(s) => {
                if bytes_are(s, "english") {
                    Some(Some(ListingType::English))
                } else if bytes_are(s, "dutch") {
                    Some(Some(ListingType::Dutch))
                } else {
                    None
                }
            },
            _ => None,
        },
    }
}

/// A collection, named by its slug.
#[derive(Debug, Clone)]
pub struct Collection {
    pub slug: Vec<u8>,
}

impl DeepView for Collection {
    type V = Seq<u8>;

    open spec fn deep_view(&self) -> Seq<u8> {
        self.slug@
    }
}

/// The collection wire shape: an object whose `slug` field holds a string.
pub open spec fn collection_of_json(v: JsonV) -> Option<Seq<u8>> {
    req_str_of(v, ascii_u8("slug"@))
}

impl Collection {
    pub fn decode(v: &Json) -> (r: Option<Collection>)
        ensures
            match r {
                Some(c) => collection_of_json(v@) == Some(c.deep_view()),
                None => collection_of_json(v@) is None,
            },
    {
        proof {
            reveal_strlit("slug");
        }
        match x_req_str(v, "slug") {
            Some(slug) => Some(Collection { slug }),
            None => None,
        }
    }
}

pub open spec fn req_collection_of(v: JsonV, k: Seq<u8>) -> Option<Seq<u8>> {
    match get_field(v, k) {
        Some(f) => collection_of_json(f),
        None => None,
    }
}

fn x_req_collection(v: &Json, key: &str) -> (r: Option<Collection>)
    requires
        key.is_ascii(),
    ensures
        match r {
            Some(c) => req_collection_of(v@, ascii_u8(key@)) == Some(c.deep_view()),
            None => req_collection_of(v@, ascii_u8(key@)) is None,
        },
{
    match json_field(v, key) {
        Some(f) => Collection::decode(f),
        None => None,
    }
}

/// The collection-wide criteria of a collection or trait offer.
#[derive(Debug, Clone)]
pub struct CollectionCriteria {
    pub slug: Vec<u8>,
}

impl DeepView for CollectionCriteria {
    type V = Seq<u8>;

    open spec fn deep_view(&self) -> Seq<u8> {
        self.slug@
    }
}

pub open spec fn req_collection_criteria_of(v: JsonV, k: Seq<u8>) -> Option<Seq<u8>> {
    match get_field(v, k) {
        Some(f) => req_str_of(f, ascii_u8("slug"@)),
        None => None,
    }
}

fn x_req_collection_criteria(v: &Json, key: &str) -> (r: Option<CollectionCriteria>)
    requires
        key.is_ascii(),
    ensures
        match r {
            Some(c) => req_collection_criteria_of(v@, ascii_u8(key@)) == Some(c.deep_view()),
            None => req_collection_criteria_of(v@, ascii_u8(key@)) is None,
        },
{
    proof {
        reveal_strlit("slug");
    }
    match json_field(v, key) {
        Some(f) => match x_req_str(f, "slug") {
            Some(slug) => Some(CollectionCriteria { slug }),
            None => None,
        },
        None => None,
    }
}

/// The trait-wide criteria of a trait offer.
#[derive(Debug, Clone)]
pub struct TraitCriteria {
    pub trait_name: Vec<u8>,
    pub trait_type: Vec<u8>,
}

/// The mathematical shape of [`TraitCriteria`].
pub struct TraitCriteriaV {
    pub trait_name: Seq<u8>,
    pub trait_type: Seq<u8>,
}

impl DeepView for TraitCriteria {
    type V = TraitCriteriaV;

    open spec fn deep_view(&self) -> TraitCriteriaV {
        TraitCriteriaV { trait_name: self.trait_name@, trait_type: self.trait_type@ }
    }
}

pub open spec fn req_trait_criteria_of(v: JsonV, k: Seq<u8>) -> Option<TraitCriteriaV> {
    match get_field(v, k) {
        Some(f) => {
            if req_str_of(f, ascii_u8("trait_name"@)) is Some && req_str_of(
                f,
                ascii_u8("trait_type"@),
            ) is Some {
                Some(
                    TraitCriteriaV {
                        trait_name: req_str_of(f, ascii_u8("trait_name"@))->Some_0,
                        trait_type: req_str_of(f, ascii_u8("trait_type"@))->Some_0,
                    },
                )
            } else {
                None
            }
        },
        None => None,
    }
}

fn x_req_trait_criteria(v: &Json, key: &str) -> (r: Option<TraitCriteria>)
    requires
        key.is_ascii(),
    ensures
        match r {
            Some(c) => req_trait_criteria_of(v@, ascii_u8(key@)) == Some(c.deep_view()),
            None => req_trait_criteria_of(v@, ascii_u8(key@)) is None,
        },
{
    proof {
        reveal_strlit("trait_name");
        reveal_strlit("trait_type");
    }
    match json_field(v, key) {
        Some(f) => {
            let trait_name = match x_req_str(f, "trait_name") {
                Some(s) => s,
                None => {
                    return None;
                },
            };
            let trait_type = match x_req_str(f, "trait_type") {
                Some(s) => s,
                None => {
                    return None;
                },
            };
            Some(TraitCriteria { trait_name, trait_type })
        },
        None => None,
    }
}

/// One metadata trait of an item.
#[derive(Debug, Clone)]
pub struct Trait {
    pub trait_type: Vec<u8>,
    pub value: Option<Vec<u8>>,
    pub display_type: Option<Vec<u8>>,
    pub max_value: Option<u64>,
    pub trait_count: Option<u64>,
    pub order: Option<u64>,
}

/// The mathematical shape of [`Trait`].
pub struct TraitV {
    pub trait_type: Seq<u8>,
    pub value: Option<Seq<u8>>,
    pub display_type: Option<Seq<u8>>,
    pub max_value: Option<u64>,
    pub trait_count: Option<u64>,
    pub order: Option<u64>,
}

impl DeepView for Trait {
    type V = TraitV;

    open spec fn deep_view(&self) -> TraitV {
        TraitV {
            trait_type: self.trait_type@,
            value: self.value.deep_view(),
            display_type: self.display_type.deep_view(),
            max_value: self.max_value,
            trait_count: self.trait_count,
            order: self.order,
        }
    }
}

pub open spec fn trait_of_json(v: JsonV) -> Option<TraitV> {
    if req_str_of(v, ascii_u8("trait_type"@)) is Some && opt_str_of(v, ascii_u8("value"@)) is Some
        && opt_str_of(v, ascii_u8("display_type"@)) is Some && opt_u64_of(
        v,
        ascii_u8("max_value"@),
    ) is Some && opt_u64_of(v, ascii_u8("trait_count"@)) is Some && opt_u64_of(
        v,
        ascii_u8("order"@),
    ) is Some {
        Some(
            TraitV {
                trait_type: req_str_of(v, ascii_u8("trait_type"@))->Some_0,
                value: opt_str_of(v, ascii_u8("value"@))->Some_0,
                display_type: opt_str_of(v, ascii_u8("display_type"@))->Some_0,
                max_value: opt_u64_of(v, ascii_u8("max_value"@))->Some_0,
                trait_count: opt_u64_of(v, ascii_u8("trait_count"@))->Some_0,
                order: opt_u64_of(v, ascii_u8("order"@))->Some_0,
            },
        )
    } else {
        None
    }
}

impl Trait {
    pub fn decode(v: &Json) -> (r: Option<Trait>)
        ensures
            match r {
                Some(t) => trait_of_json(v@) == Some(t.deep_view()),
                None => trait_of_json(v@) is None,
            },
    {
        proof {
            reveal_strlit("trait_type");
            reveal_strlit("value");
            reveal_strlit("display_type");
            reveal_strlit("max_value");
            reveal_strlit("trait_count");
            reveal_strlit("order");
        }
        let trait_type = match x_req_str(v, "trait_type") {
            Some(s) => s,
            None => {
                return None;
            },
        };
        let value = match x_opt_str(v, "value") {
            Some(o) => o,
            None => {
                return None;
            },
        };
        let display_type = match x_opt_str(v, "display_type") {
            Some(o) => o,
            None => {
                return None;
            },
        };
        let max_value = match x_opt_u64(v, "max_value") {
            Some(o) => o,
            None => {
                return None;
            },
        };
        let trait_count = match x_opt_u64(v, "trait_count") {
            Some(o) => o,
            None => {
                return None;
            },
        };
        let order = match x_opt_u64(v, "order") {
            Some(o) => o,
            None => {
                return None;
            },
        };
        let t = Trait { trait_type, value, display_type, max_value, trait_count, order };
        proof {
            let k = v@;
            assert(trait_of_json(k) is Some);
            assert(t.deep_view().trait_type == req_str_of(k, ascii_u8("trait_type"@))->Some_0);
            assert(t.deep_view().value == opt_str_of(k, ascii_u8("value"@))->Some_0);
            assert(t.deep_view().display_type == opt_str_of(k, ascii_u8("display_type"@))->Some_0);
            assert(t.deep_view().max_value == opt_u64_of(k, ascii_u8("max_value"@))->Some_0);
            assert(t.deep_view().trait_count == opt_u64_of(k, ascii_u8("trait_count"@))->Some_0);
            assert(t.deep_view().order == opt_u64_of(k, ascii_u8("order"@))->Some_0);
        }
        Some(t)
    }
}

/// The traits of a sequence of JSON values, all or nothing.
pub open spec fn traits_of_json(items: Seq<JsonV>) -> Option<Seq<TraitV>>
    decreases items.len(),
{
    if items.len() == 0 {
        Some(Seq::empty())
    } else {
        match trait_of_json(items[0]) {
            None => None,
            Some(t) => match traits_of_json(items.subrange(1, items.len() as int)) {
                None => None,
                Some(rest) => Some(seq![t] + rest),
            },
        }
    }
}

fn x_traits(items: &Vec<Json>) -> (r: Option<Vec<Trait>>)
    ensures
        match r {
            Some(ts) => traits_of_json(view_items(items@)) == Some(ts.deep_view()),
            None => traits_of_json(view_items(items@)) is None,
        },
{
    let ghost model = view_items(items@);
    proof {
        lemma_view_items(items@);
        assert(model.subrange(0, model.len() as int) =~= model);
    }
    let mut out: Vec<Trait> = Vec::new();
    let mut i: usize = 0;
    while i < items.len()
        invariant
            i <= items@.len(),
            model == view_items(items@),
            model.len() == items@.len(),
            forall|q: int| 0 <= q < items@.len() ==> model[q] == crate::json::view_json(
                items@[q],
            ),
            out.deep_view().len() == i,
            match traits_of_json(model.subrange(i as int, model.len() as int)) {
                Some(rest) => traits_of_json(model) == Some(out.deep_view() + rest),
                None => traits_of_json(model) is None,
            },
        decreases items@.len() - i,
    {
        let ghost suffix = model.subrange(i as int, model.len() as int);
        proof {
            assert(suffix[0] == model[i as int]);
            assert(suffix.subrange(1, suffix.len() as int) =~= model.subrange(
                i + 1,
                model.len() as int,
            ));
        }
        match Trait::decode(&items[i]) {
            Some(t) => {
                let ghost before = out.deep_view();
                out.push(t);
                proof {
                    assert(out.deep_view() =~~= before.push(t.deep_view()));
                    assert(before.push(t.deep_view()) + traits_of_json(
                        model.subrange(i + 1, model.len() as int),
                    )->Some_0 =~~= before + (seq![t.deep_view()] + traits_of_json(
                        model.subrange(i + 1, model.len() as int),
                    )->Some_0));
                }
                i = i + 1;
            },
            None => {
                return None;
            },
        }
    }
    proof {
        assert(model.subrange(model.len() as int, model.len() as int) =~= Seq::<JsonV>::empty());
        assert(traits_of_json(Seq::<JsonV>::empty()) == Some(Seq::<TraitV>::empty()));
        assert(out.deep_view() + Seq::<TraitV>::empty() =~~= out.deep_view());
    }
    Some(out)
}

/// An optional list of traits: absent or `null` reads as empty; a present
/// list must decode wholly.
pub open spec fn opt_traits_of(v: JsonV, k: Seq<u8>) -> Option<Option<Seq<TraitV>>> {
    match get_field(v, k) {
        None => Some(None),
        Some(JsonV::Null) => Some(None),
        Some(JsonV::Arr(items)) => match traits_of_json(items) {
            Some(ts) => Some(Some(ts)),
            None => None,
        },
        Some(_) => None,
    }
}

fn x_opt_traits(v: &Json, key: &str) -> (r: Option<Option<Vec<Trait>>>)
    requires
        key.is_ascii(),
    ensures
        match r {
            Some(Some(ts)) => opt_traits_of(v@, ascii_u8(key@)) == Some(Some(ts.deep_view())),
            Some(None) => opt_traits_of(v@, ascii_u8(key@)) == Some(None::<Seq<TraitV>>),
            None => opt_traits_of(v@, ascii_u8(key@)) is None,
        },
{
    match json_field(v, key) {
        None => Some(None),
        Some(f) => match f {
            Json::Null => Some(None),
            Json::Arr(items) => match x_traits(items) {
                Some(ts) => Some(Some(ts)),
                None => None,
            },
            _ => None,
        },
    }
}

/// The basic metadata of an item.
#[derive(Debug, Clone)]
pub struct Metadata {
    pub animation_url: Option<Vec<u8>>,
    pub background_color: Option<Vec<u8>>,
    pub description: Option<Vec<u8>>,
    pub image_preview_url: Option<Vec<u8>>,
    pub image_url: Option<Vec<u8>>,
    pub metadata_url: Option<Vec<u8>>,
    pub external_link: Option<Vec<u8>>,
    pub name: Option<Vec<u8>>,
    pub traits: Option<Vec<Trait>>,
}

/// The mathematical shape of [`Metadata`].
pub struct MetadataV {
    pub animation_url: Option<Seq<u8>>,
    pub background_color: Option<Seq<u8>>,
    pub description: Option<Seq<u8>>,
    pub image_preview_url: Option<Seq<u8>>,
    pub image_url: Option<Seq<u8>>,
    pub metadata_url: Option<Seq<u8>>,
    pub external_link: Option<Seq<u8>>,
    pub name: Option<Seq<u8>>,
    pub traits: Option<Seq<TraitV>>,
}

impl DeepView for Metadata {
    type V = MetadataV;

    open spec fn deep_view(&self) -> MetadataV {
        MetadataV {
            animation_url: self.animation_url.deep_view(),
            background_color: self.background_color.deep_view(),
            description: self.description.deep_view(),
            image_preview_url: self.image_preview_url.deep_view(),
            image_url: self.image_url.deep_view(),
            metadata_url: self.metadata_url.deep_view(),
            external_link: self.external_link.deep_view(),
            name: self.name.deep_view(),
            traits: self.traits.deep_view(),
        }
    }
}

pub open spec fn metadata_of_json(v: JsonV) -> Option<MetadataV> {
    if opt_str_of(v, ascii_u8("animation_url"@)) is Some && opt_str_of(
        v,
        ascii_u8("background_color"@),
    ) is Some && opt_str_of(v, ascii_u8("description"@)) is Some && opt_str_of(
        v,
        ascii_u8("image_preview_url"@),
    ) is Some && opt_str_of(v, ascii_u8("image_url"@)) is Some && opt_str_of(
        v,
        ascii_u8("metadata_url"@),
    ) is Some && opt_str_of(v, ascii_u8("external_link"@)) is Some && opt_str_of(
        v,
        ascii_u8("name"@),
    ) is Some && opt_traits_of(v, ascii_u8("traits"@)) is Some {
        Some(
            MetadataV {
                animation_url: opt_str_of(v, ascii_u8("animation_url"@))->Some_0,
                background_color: opt_str_of(v, ascii_u8("background_color"@))->Some_0,
                description: opt_str_of(v, ascii_u8("description"@))->Some_0,
                image_preview_url: opt_str_of(v, ascii_u8("image_preview_url"@))->Some_0,
                image_url: opt_str_of(v, ascii_u8("image_url"@))->Some_0,
                metadata_url: opt_str_of(v, ascii_u8("metadata_url"@))->Some_0,
                external_link: opt_str_of(v, ascii_u8("external_link"@))->Some_0,
                name: opt_str_of(v, ascii_u8("name"@))->Some_0,
                traits: opt_traits_of(v, ascii_u8("traits"@))->Some_0,
            },
        )
    } else {
        None
    }
}

impl Metadata {
    pub fn decode(v: &Json) -> (r: Option<Metadata>)
        ensures
            match r {
                Some(m) => metadata_of_json(v@) == Some(m.deep_view()),
                None => metadata_of_json(v@) is None,
            },
    {
        proof {
            reveal_strlit("animation_url");
            reveal_strlit("background_color");
            reveal_strlit("description");
            reveal_strlit("image_preview_url");
            reveal_strlit("image_url");
            reveal_strlit("metadata_url");
            reveal_strlit("external_link");
            reveal_strlit("name");
            reveal_strlit("traits");
        }
        let animation_url = match x_opt_str(v, "animation_url") {
            Some(o) => o,
            None => {
                return None;
            },
        };
        let background_color = match x_opt_str(v, "background_color") {
            Some(o) => o,
            None => {
                return None;
            },
        };
        let description = match x_opt_str(v, "description") {
            Some(o) => o,
            None => {
                return None;
            },
        };
        let image_preview_url = match x_opt_str(v, "image_preview_url") {
            Some(o) => o,
            None => {
                return None;
            },
        };
        let image_url = match x_opt_str(v, "image_url") {
            Some(o) => o,
            None => {
                return None;
            },
        };
        let metadata_url = match x_opt_str(v, "metadata_url") {
            Some(o) => o,
            None => {
                return None;
            },
        };
        let external_link = match x_opt_str(v, "external_link") {
            Some(o) => o,
            None => {
                return None;
            },
        };
        let name = match x_opt_str(v, "name") {
            Some(o) => o,
            None => {
                return None;
            },
        };
        let traits = match x_opt_traits(v, "traits") {
            Some(o) => o,
            None => {
                return None;
            },
        };
        let m = Metadata {
            animation_url,
            background_color,
            description,
            image_preview_url,
            image_url,
            metadata_url,
            external_link,
            name,
            traits,
        };
        proof {
            let k = v@;
            assert(metadata_of_json(k) is Some);
            assert(m.deep_view().animation_url == opt_str_of(k, ascii_u8("animation_url"@))
                ->Some_0);
            assert(m.deep_view().background_color == opt_str_of(k, ascii_u8("background_color"@))
                ->Some_0);
            assert(m.deep_view().description == opt_str_of(k, ascii_u8("description"@))->Some_0);
            assert(m.deep_view().image_preview_url == opt_str_of(
                k,
                ascii_u8("image_preview_url"@),
            )->Some_0);
            assert(m.deep_view().image_url == opt_str_of(k, ascii_u8("image_url"@))->Some_0);
            assert(m.deep_view().metadata_url == opt_str_of(k, ascii_u8("metadata_url"@))->Some_0);
            assert(m.deep_view().external_link == opt_str_of(k, ascii_u8("external_link"@))
                ->Some_0);
            assert(m.deep_view().name == opt_str_of(k, ascii_u8("name"@))->Some_0);
            assert(m.deep_view().traits == opt_traits_of(k, ascii_u8("traits"@))->Some_0);
        }
        Some(m)
    }
}

/// The identifier of an asset: network, contract address and token id,
/// spelt on the wire as one `/`-separated string.
#[derive(Debug, Clone)]
pub struct NftId {
    pub network: Chain,
    pub address: Address,
    pub id: Vec<u8>,
}

/// The mathematical shape of [`NftId`].
pub struct NftIdV {
    pub network: Chain,
    pub address: Seq<u8>,
    pub id: Seq<u8>,
}

impl DeepView for NftId {
    type V = NftIdV;

    open spec fn deep_view(&self) -> NftIdV {
        NftIdV { network: self.network, address: self.address.deep_view(), id: self.id@ }
    }
}

/// How many bytes at `i` are not `/`.
pub open spec fn non_slash_len(s: Seq<u8>, i: int) -> nat
    decreases s.len() - i,
{
    if 0 <= i < s.len() && s[i] != '/' as u8 {
        1 + non_slash_len(s, i + 1)
    } else {
        0
    }
}

/// The position of the first `/` at or after `i`, or the end.
pub open spec fn find_slash(s: Seq<u8>, i: int) -> int {
    if i + non_slash_len(s, i) <= s.len() {
        i + non_slash_len(s, i)
    } else {
        s.len() as int
    }
}

/// The identifier text shape: a bare wire network name, the address hex
/// text, and the token id (which may itself hold `/`), separated by `/`.
pub open spec fn nftid_of_text(s: Seq<u8>) -> Option<NftIdV> {
    let i1 = find_slash(s, 0);
    if i1 < s.len() {
        let i2 = find_slash(s, i1 + 1);
        if i2 < s.len() {
            match crate::chain::chain_of_wire(s.subrange(0, i1)) {
                Some(network) => match crate::codec::fixed_hex_of(s.subrange(i1 + 1, i2), 20) {
                    Some(address) => Some(
                        NftIdV { network, address, id: s.subrange(i2 + 1, s.len() as int) },
                    ),
                    None => None,
                },
                None => None,
            }
        } else {
            None
        }
    } else {
        None
    }
}

/// The canonical identifier text for an asset.
pub open spec fn nftid_text_of(n: NftIdV) -> Seq<u8> {
    crate::chain::wire_name_of(n.network) + seq!['/' as u8] + seq!['0' as u8, 'x' as u8]
        + crate::codec::hex_text_of(n.address) + seq!['/' as u8] + n.id
}

/// The position of the first `/` at or after `i`.
fn x_find_slash(s: &[u8], i: usize) -> (r: usize)
    requires
        i <= s@.len(),
    ensures
        i <= r <= s@.len(),
        r as int == find_slash(s@, i as int),
        (r as int) < s@.len() ==> s@[r as int] == '/' as u8,
{
    let mut j = i;
    while j < s.len() && s[j] != '/' as u8
        invariant
            i <= j <= s@.len(),
            find_slash(s@, i as int) == find_slash(s@, j as int),
        decreases s@.len() - j,
    {
        j = j + 1;
    }
    j
}

impl NftId {
    /// Reads the `/`-separated identifier text.
    pub fn decode_text(s: &Vec<u8>) -> (r: Option<NftId>)
        ensures
            match r {
                Some(n) => nftid_of_text(s@) == Some(n.deep_view()) && n.address.wf(),
                None => nftid_of_text(s@) is None,
            },
    {
        let sl = s.as_slice();
        let i1 = x_find_slash(sl, 0);
        if i1 >= s.len() {
            return None;
        }
        let i2 = x_find_slash(sl, i1 + 1);
        if i2 >= s.len() {
            return None;
        }
        let network_text = crate::json::slice_range_to_vec(sl, 0, i1);
        let network = match Chain::from_wire(&network_text) {
            Some(c) => c,
            None => {
                return None;
            },
        };
        let addr_text = crate::json::slice_range_to_vec(sl, i1 + 1, i2);
        let address = match Address::decode_bare(&Json::Str(addr_text)) {
            Some(a) => a,
            None => {
                return None;
            },
        };
        let id = crate::json::slice_range_to_vec(sl, i2 + 1, s.len());
        Some(NftId { network, address, id })
    }

    /// Renders the identifier back as its `/`-separated text.
    pub fn encode(&self) -> (r: Json)
        requires
            self.address.wf(),
        ensures
            r@ == JsonV::Str(nftid_text_of(self.deep_view())),
    {
        let mut out = self.network.wire_name();
        out.push('/' as u8);
        let mut addr = crate::codec::hex_text_0x(self.address.bytes());
        out.append(&mut addr);
        out.push('/' as u8);
        let mut id = copy_bytes(&self.id);
        out.append(&mut id);
        proof {
            assert(out@ =~= nftid_text_of(self.deep_view()));
        }
        Json::Str(out)
    }
}

/// The context of an item: identifier, page link, network and metadata,
/// every part optional.
#[derive(Debug, Clone)]
pub struct Item {
    pub nft_id: Option<NftId>,
    pub permalink: Option<Vec<u8>>,
    pub chain: Option<Chain>,
    pub metadata: Option<Metadata>,
}

/// The mathematical shape of [`Item`].
pub struct ItemV {
    pub nft_id: Option<NftIdV>,
    pub permalink: Option<Seq<u8>>,
    pub chain: Option<Chain>,
    pub metadata: Option<MetadataV>,
}

impl DeepView for Item {
    type V = ItemV;

    open spec fn deep_view(&self) -> ItemV {
        ItemV {
            nft_id: self.nft_id.deep_view(),
            permalink: self.permalink.deep_view(),
            chain: self.chain.deep_view(),
            metadata: self.metadata.deep_view(),
        }
    }
}

pub open spec fn opt_nftid_of(v: JsonV, k: Seq<u8>) -> Option<Option<NftIdV>> {
    match get_field(v, k) {
        None => Some(None),
        Some(JsonV::Null) => Some(None),
        Some(JsonV::Str(s)) => match nftid_of_text(s) {
            Some(n) => Some(Some(n)),
            None => None,
        },
        Some(_) => None,
    }
}

pub open spec fn opt_chain_of(v: JsonV, k: Seq<u8>) -> Option<Option<Chain>> {
    match get_field(v, k) {
        None => Some(None),
        Some(JsonV::Null) => Some(None),
        Some(f) => match chain_of_json(f) {
            Some(c) => Some(Some(c)),
            None => None,
        },
    }
}

pub open spec fn opt_metadata_of(v: JsonV, k: Seq<u8>) -> Option<Option<MetadataV>> {
    match get_field(v, k) {
        None => Some(None),
        Some(JsonV::Null) => Some(None),
        Some(f) => match metadata_of_json(f) {
            Some(m) => Some(Some(m)),
            None => None,
        },
    }
}

pub open spec fn item_of_json(v: JsonV) -> Option<ItemV> {
    if opt_nftid_of(v, ascii_u8("nft_id"@)) is Some && opt_str_of(v, ascii_u8("permalink"@))
        is Some && opt_chain_of(v, ascii_u8("chain"@)) is Some && opt_metadata_of(
        v,
        ascii_u8("metadata"@),
    ) is Some {
        Some(
            ItemV {
                nft_id: opt_nftid_of(v, ascii_u8("nft_id"@))->Some_0,
                permalink: opt_str_of(v, ascii_u8("permalink"@))->Some_0,
                chain: opt_chain_of(v, ascii_u8("chain"@))->Some_0,
                metadata: opt_metadata_of(v, ascii_u8("metadata"@))->Some_0,
            },
        )
    } else {
        None
    }
}

impl Item {
    pub fn decode(v: &Json) -> (r: Option<Item>)
        ensures
            match r {
                Some(it) => item_of_json(v@) == Some(it.deep_view()),
                None => item_of_json(v@) is None,
            },
    {
        proof {
            reveal_strlit("nft_id");
            reveal_strlit("permalink");
            reveal_strlit("chain");
            reveal_strlit("metadata");
        }
        let nft_id = match json_field(v, "nft_id") {
            None => None,
            Some(f) => match f {
                Json::Null => None,
                Json::Str(s) => match NftId::decode_text(s) {
                    Some(n) => Some(n),
                    None => {
                        return None;
                    },
                },
                _ => {
                    return None;
                },
            },
        };
        let permalink = match x_opt_str(v, "permalink") {
            Some(o) => o,
            None => {
                return None;
            },
        };
        let chain = match json_field(v, "chain") {
            None => None,
            Some(f) => match f {
                Json::Null => None,
                _ => match Chain::decode(f) {
                    Some(c) => Some(c),
                    None => {
                        return None;
                    },
                },
            },
        };
        let metadata = match json_field(v, "metadata") {
            None => None,
            Some(f) => match f {
                Json::Null => None,
                _ => match Metadata::decode(f) {
                    Some(m) => Some(m),
                    None => {
                        return None;
                    },
                },
            },
        };
        let it = Item { nft_id, permalink, chain, metadata };
        proof {
            let k = v@;
            assert(item_of_json(k) is Some);
            assert(it.deep_view().nft_id == opt_nftid_of(k, ascii_u8("nft_id"@))->Some_0);
            assert(it.deep_view().permalink == opt_str_of(k, ascii_u8("permalink"@))->Some_0);
            assert(it.deep_view().chain == opt_chain_of(k, ascii_u8("chain"@))->Some_0);
            assert(it.deep_view().metadata == opt_metadata_of(k, ascii_u8("metadata"@))->Some_0);
        }
        Some(it)
    }
}

pub open spec fn req_item_of(v: JsonV, k: Seq<u8>) -> Option<ItemV> {
    match get_field(v, k) {
        Some(f) => item_of_json(f),
        None => None,
    }
}

fn x_req_item(v: &Json, key: &str) -> (r: Option<Item>)
    requires
        key.is_ascii(),
    ensures
        match r {
            Some(it) => req_item_of(v@, ascii_u8(key@)) == Some(it.deep_view()),
            None => req_item_of(v@, ascii_u8(key@)) is None,
        },
{
    match json_field(v, key) {
        Some(f) => Item::decode(f),
        None => None,
    }
}

/// The record of an on-chain transaction.
#[derive(Debug, Clone)]
pub struct Transaction {
    pub hash: Hash256,
    pub timestamp: Timestamp,
}

/// The mathematical shape of [`Transaction`].
pub struct TransactionV {
    pub hash: Seq<u8>,
    pub timestamp: Timestamp,
}

impl DeepView for Transaction {
    type V = TransactionV;

    open spec fn deep_view(&self) -> TransactionV {
        TransactionV { hash: self.hash.deep_view(), timestamp: self.timestamp }
    }
}

pub open spec fn transaction_of_json(v: JsonV) -> Option<TransactionV> {
    if req_hash_of(v, ascii_u8("hash"@)) is Some && req_ts_of(v, ascii_u8("timestamp"@)) is Some {
        Some(
            TransactionV {
                hash: req_hash_of(v, ascii_u8("hash"@))->Some_0,
                timestamp: req_ts_of(v, ascii_u8("timestamp"@))->Some_0,
            },
        )
    } else {
        None
    }
}

impl Transaction {
    pub fn decode(v: &Json) -> (r: Option<Transaction>)
        ensures
            match r {
                Some(t) => transaction_of_json(v@) == Some(t.deep_view()),
                None => transaction_of_json(v@) is None,
            },
    {
        proof {
            reveal_strlit("hash");
            reveal_strlit("timestamp");
        }
        let hash = match x_req_hash(v, "hash") {
            Some(h) => h,
            None => {
                return None;
            },
        };
        let timestamp = match x_req_ts(v, "timestamp") {
            Some(t) => t,
            None => {
                return None;
            },
        };
        Some(Transaction { hash, timestamp })
    }
}

pub open spec fn req_transaction_of(v: JsonV, k: Seq<u8>) -> Option<TransactionV> {
    match get_field(v, k) {
        Some(f) => transaction_of_json(f),
        None => None,
    }
}

pub open spec fn opt_transaction_of(v: JsonV, k: Seq<u8>) -> Option<Option<TransactionV>> {
    match get_field(v, k) {
        None => Some(None),
        Some(JsonV::Null) => Some(None),
        Some(f) => match transaction_of_json(f) {
            Some(t) => Some(Some(t)),
            None => None,
        },
    }
}

fn x_req_transaction(v: &Json, key: &str) -> (r: Option<Transaction>)
    requires
        key.is_ascii(),
    ensures
        match r {
            Some(t) => req_transaction_of(v@, ascii_u8(key@)) == Some(t.deep_view()),
            None => req_transaction_of(v@, ascii_u8(key@)) is None,
        },
{
    match json_field(v, key) {
        Some(f) => Transaction::decode(f),
        None => None,
    }
}

fn x_opt_transaction(v: &Json, key: &str) -> (r: Option<Option<Transaction>>)
    requires
        key.is_ascii(),
    ensures
        match r {
            Some(Some(t)) => opt_transaction_of(v@, ascii_u8(key@)) == Some(Some(t.deep_view())),
            Some(None) => opt_transaction_of(v@, ascii_u8(key@)) == Some(None::<TransactionV>),
            None => opt_transaction_of(v@, ascii_u8(key@)) is None,
        },
{
    match json_field(v, key) {
        None => Some(None),
        Some(f) => match f {
            Json::Null => Some(None),
            _ => match Transaction::decode(f) {
                Some(t) => Some(Some(t)),
                None => None,
            },
        },
    }
}

// -------------------------------------------------------------------------
// Prices, kept as decimal text.
// -------------------------------------------------------------------------

/// An exponent part filling the rest of the text: `e`/`E`, an optional
/// sign, and at least one digit.
pub open spec fn exp_tail_ok(s: Seq<u8>, i: int) -> bool {
    if i < s.len() && (s[i] == 'e' as u8 || s[i] == 'E' as u8) {
        let j = if i + 1 < s.len() && (s[i + 1] == '+' as u8 || s[i + 1] == '-' as u8) {
            i + 2
        } else {
            i + 1
        };
        digits_len(s, j) > 0 && j + digits_len(s, j) == s.len()
    } else {
        false
    }
}

/// Unsigned decimal floating-point text: digits, an optional point with
/// digits on at least one side, and an optional exponent.
pub open spec fn float_body_ok(s: Seq<u8>) -> bool {
    let dl = digits_len(s, 0) as int;
    if dl == s.len() && dl > 0 {
        true
    } else if dl < s.len() && s[dl] == '.' as u8 {
        let fl = digits_len(s, dl + 1) as int;
        let end = dl + 1 + fl;
        dl + fl > 0 && (end == s.len() || exp_tail_ok(s, end))
    } else {
        dl > 0 && exp_tail_ok(s, dl)
    }
}

/// Decimal floating-point text with an optional sign.
pub open spec fn is_float_text(s: Seq<u8>) -> bool {
    if s.len() > 0 && (s[0] == '+' as u8 || s[0] == '-' as u8) {
        float_body_ok(s.subrange(1, s.len() as int))
    } else {
        float_body_ok(s)
    }
}

/// The price wire shape: floating-point text, or a plain number, kept as
/// its decimal text either way.
pub open spec fn price_of_json(v: JsonV) -> Option<Seq<u8>> {
    match v {
        JsonV::Str(s) => {
            if is_float_text(s) {
                Some(s)
            } else {
                None
            }
        },
        JsonV::Int(n) => Some(crate::codec::int_text_of(n)),
        JsonV::Num(s) => Some(s),
        _ => None,
    }
}

pub open spec fn req_price_of(v: JsonV, k: Seq<u8>) -> Option<Seq<u8>> {
    match get_field(v, k) {
        Some(f) => price_of_json(f),
        None => None,
    }
}

fn x_float_body_ok(s: &[u8]) -> (r: bool)
    ensures
        r == float_body_ok(s@),
{
    let dl = crate::json::x_digits_end(s, 0);
    if dl == s.len() && dl > 0 {
        true
    } else if dl < s.len() && s[dl] == '.' as u8 {
        let fe = crate::json::x_digits_end(s, dl + 1);
        let fl = fe - (dl + 1);
        if !(dl + fl > 0) {
            false
        } else if fe == s.len() {
            true
        } else {
            x_exp_tail_ok(s, fe)
        }
    } else {
        dl > 0 && x_exp_tail_ok(s, dl)
    }
}

fn x_exp_tail_ok(s: &[u8], i: usize) -> (r: bool)
    requires
        i <= s@.len(),
    ensures
        r == exp_tail_ok(s@, i as int),
{
    if i < s.len() && (s[i] == 'e' as u8 || s[i] == 'E' as u8) {
        let j = if i + 1 < s.len() && (s[i + 1] == '+' as u8 || s[i + 1] == '-' as u8) {
            i + 2
        } else {
            i + 1
        };
        let de = crate::json::x_digits_end(s, j);
        de > j && de == s.len()
    } else {
        false
    }
}

fn x_req_price(v: &Json, key: &str) -> (r: Option<Vec<u8>>)
    requires
        key.is_ascii(),
    ensures
        match r {
            Some(p) => req_price_of(v@, ascii_u8(key@)) == Some(p@),
            None => req_price_of(v@, ascii_u8(key@)) is None,
        },
{
    match json_field(v, key) {
        Some(f) => match f {
            Json::Str(s) => {
                let body: &[u8] = s.as_slice();
                let ok = if s.len() > 0 && (body[0] == '+' as u8 || body[0] == '-' as u8) {
                    let (_, tail) = crate::codec::slice_split_at(body, 1);
                    proof {
                        assert(tail@ =~= s@.subrange(1, s@.len() as int));
                    }
                    x_float_body_ok(tail)
                } else {
                    x_float_body_ok(body)
                };
                if ok {
                    Some(copy_bytes(s))
                } else {
                    None
                }
            },
            Json::Int(n) => Some(crate::codec::int_text_i64(*n)),
            Json::Num(s) => Some(copy_bytes(s)),
            _ => None,
        },
        None => None,
    }
}

/// The token a price is denominated in.  The two reference prices are kept
/// as the decimal text the feed sent.
#[derive(Debug, Clone)]
pub struct PaymentToken {
    pub address: Address,
    pub decimals: u64,
    pub eth_price: Vec<u8>,
    pub name: Vec<u8>,
    pub symbol: Vec<u8>,
    pub usd_price: Vec<u8>,
}

/// The mathematical shape of [`PaymentToken`].
pub struct PaymentTokenV {
    pub address: Seq<u8>,
    pub decimals: u64,
    pub eth_price: Seq<u8>,
    pub name: Seq<u8>,
    pub symbol: Seq<u8>,
    pub usd_price: Seq<u8>,
}

impl DeepView for PaymentToken {
    type V = PaymentTokenV;

    open spec fn deep_view(&self) -> PaymentTokenV {
        PaymentTokenV {
            address: self.address.deep_view(),
            decimals: self.decimals,
            eth_price: self.eth_price@,
            name: self.name@,
            symbol: self.symbol@,
            usd_price: self.usd_price@,
        }
    }
}

pub open spec fn payment_token_of_json(v: JsonV) -> Option<PaymentTokenV> {
    if req_addr_bare_of(v, ascii_u8("address"@)) is Some && req_u64_of(v, ascii_u8("decimals"@))
        is Some && req_price_of(v, ascii_u8("eth_price"@)) is Some && req_str_of(
        v,
        ascii_u8("name"@),
    ) is Some && req_str_of(v, ascii_u8("symbol"@)) is Some && req_price_of(
        v,
        ascii_u8("usd_price"@),
    ) is Some {
        Some(
            PaymentTokenV {
                address: req_addr_bare_of(v, ascii_u8("address"@))->Some_0,
                decimals: req_u64_of(v, ascii_u8("decimals"@))->Some_0,
                eth_price: req_price_of(v, ascii_u8("eth_price"@))->Some_0,
                name: req_str_of(v, ascii_u8("name"@))->Some_0,
                symbol: req_str_of(v, ascii_u8("symbol"@))->Some_0,
                usd_price: req_price_of(v, ascii_u8("usd_price"@))->Some_0,
            },
        )
    } else {
        None
    }
}

impl PaymentToken {
    pub fn decode(v: &Json) -> (r: Option<PaymentToken>)
        ensures
            match r {
                Some(p) => payment_token_of_json(v@) == Some(p.deep_view()),
                None => payment_token_of_json(v@) is None,
            },
    {
        proof {
            reveal_strlit("address");
            reveal_strlit("decimals");
            reveal_strlit("eth_price");
            reveal_strlit("name");
            reveal_strlit("symbol");
            reveal_strlit("usd_price");
        }
        let address = match x_req_addr_bare(v, "address") {
            Some(a) => a,
            None => {
                return None;
            },
        };
        let decimals = match x_req_u64(v, "decimals") {
            Some(n) => n,
            None => {
                return None;
            },
        };
        let eth_price = match x_req_price(v, "eth_price") {
            Some(p) => p,
            None => {
                return None;
            },
        };
        let name = match x_req_str(v, "name") {
            Some(s) => s,
            None => {
                return None;
            },
        };
        let symbol = match x_req_str(v, "symbol") {
            Some(s) => s,
            None => {
                return None;
            },
        };
        let usd_price = match x_req_price(v, "usd_price") {
            Some(p) => p,
            None => {
                return None;
            },
        };
        let p = PaymentToken { address, decimals, eth_price, name, symbol, usd_price };
        proof {
            let k = v@;
            assert(payment_token_of_json(k) is Some);
            assert(p.deep_view().address == req_addr_bare_of(k, ascii_u8("address"@))->Some_0);
            assert(p.deep_view().decimals == req_u64_of(k, ascii_u8("decimals"@))->Some_0);
            assert(p.deep_view().eth_price == req_price_of(k, ascii_u8("eth_price"@))->Some_0);
            assert(p.deep_view().name == req_str_of(k, ascii_u8("name"@))->Some_0);
            assert(p.deep_view().symbol == req_str_of(k, ascii_u8("symbol"@))->Some_0);
            assert(p.deep_view().usd_price == req_price_of(k, ascii_u8("usd_price"@))->Some_0);
        }
        Some(p)
    }
}

pub open spec fn req_payment_token_of(v: JsonV, k: Seq<u8>) -> Option<PaymentTokenV> {
    match get_field(v, k) {
        Some(f) => payment_token_of_json(f),
        None => None,
    }
}

fn x_req_payment_token(v: &Json, key: &str) -> (r: Option<PaymentToken>)
    requires
        key.is_ascii(),
    ensures
        match r {
            Some(p) => req_payment_token_of(v@, ascii_u8(key@)) == Some(p.deep_view()),
            None => req_payment_token_of(v@, ascii_u8(key@)) is None,
        },
{
    match json_field(v, key) {
        Some(f) => PaymentToken::decode(f),
        None => None,
    }
}

// -------------------------------------------------------------------------
// Execution parameters: consideration and offer line items, timing window,
// salt, zone and counter, written with camel-cased field names.
// -------------------------------------------------------------------------

/// One consideration line item: what is paid, to whom.
#[derive(Debug, Clone)]
pub struct Consideration {
    pub item_type: u64,
    pub token: Address,
    pub identifier_or_criteria: Vec<u8>,
    pub start_amount: Vec<u8>,
    pub end_amount: Option<Vec<u8>>,
    pub recipient: Address,
}

/// The mathematical shape of [`Consideration`].
pub struct ConsiderationV {
    pub item_type: u64,
    pub token: Seq<u8>,
    pub identifier_or_criteria: Seq<u8>,
    pub start_amount: Seq<u8>,
    pub end_amount: Option<Seq<u8>>,
    pub recipient: Seq<u8>,
}

impl DeepView for Consideration {
    type V = ConsiderationV;

    open spec fn deep_view(&self) -> ConsiderationV {
        ConsiderationV {
            item_type: self.item_type,
            token: self.token.deep_view(),
            identifier_or_criteria: self.identifier_or_criteria@,
            start_amount: self.start_amount@,
            end_amount: self.end_amount.deep_view(),
            recipient: self.recipient.deep_view(),
        }
    }
}

pub open spec fn consideration_of_json(v: JsonV) -> Option<ConsiderationV> {
    if req_u64_of(v, ascii_u8("itemType"@)) is Some && req_addr_bare_of(v, ascii_u8("token"@))
        is Some && req_str_of(v, ascii_u8("identifierOrCriteria"@)) is Some && req_str_of(
        v,
        ascii_u8("startAmount"@),
    ) is Some && opt_str_of(v, ascii_u8("endAmount"@)) is Some && req_addr_bare_of(
        v,
        ascii_u8("recipient"@),
    ) is Some {
        Some(
            ConsiderationV {
                item_type: req_u64_of(v, ascii_u8("itemType"@))->Some_0,
                token: req_addr_bare_of(v, ascii_u8("token"@))->Some_0,
                identifier_or_criteria: req_str_of(v, ascii_u8("identifierOrCriteria"@))->Some_0,
                start_amount: req_str_of(v, ascii_u8("startAmount"@))->Some_0,
                end_amount: opt_str_of(v, ascii_u8("endAmount"@))->Some_0,
                recipient: req_addr_bare_of(v, ascii_u8("recipient"@))->Some_0,
            },
        )
    } else {
        None
    }
}

impl Consideration {
    pub fn decode(v: &Json) -> (r: Option<Consideration>)
        ensures
            match r {
                Some(c) => consideration_of_json(v@) == Some(c.deep_view()),
                None => consideration_of_json(v@) is None,
            },
    {
        proof {
            reveal_strlit("itemType");
            reveal_strlit("token");
            reveal_strlit("identifierOrCriteria");
            reveal_strlit("startAmount");
            reveal_strlit("endAmount");
            reveal_strlit("recipient");
        }
        let item_type = match x_req_u64(v, "itemType") {
            Some(n) => n,
            None => {
                return None;
            },
        };
        let token = match x_req_addr_bare(v, "token") {
            Some(a) => a,
            None => {
                return None;
            },
        };
        let identifier_or_criteria = match x_req_str(v, "identifierOrCriteria") {
            Some(s) => s,
            None => {
                return None;
            },
        };
        let start_amount = match x_req_str(v, "startAmount") {
            Some(s) => s,
            None => {
                return None;
            },
        };
        let end_amount = match x_opt_str(v, "endAmount") {
            Some(o) => o,
            None => {
                return None;
            },
        };
        let recipient = match x_req_addr_bare(v, "recipient") {
            Some(a) => a,
            None => {
                return None;
            },
        };
        let c = Consideration {
            item_type,
            token,
            identifier_or_criteria,
            start_amount,
            end_amount,
            recipient,
        };
        proof {
            let k = v@;
            assert(consideration_of_json(k) is Some);
            assert(c.deep_view().item_type == req_u64_of(k, ascii_u8("itemType"@))->Some_0);
            assert(c.deep_view().token == req_addr_bare_of(k, ascii_u8("token"@))->Some_0);
            assert(c.deep_view().identifier_or_criteria == req_str_of(
                k,
                ascii_u8("identifierOrCriteria"@),
            )->Some_0);
            assert(c.deep_view().start_amount == req_str_of(k, ascii_u8("startAmount"@))->Some_0);
            assert(c.deep_view().end_amount == opt_str_of(k, ascii_u8("endAmount"@))->Some_0);
            assert(c.deep_view().recipient == req_addr_bare_of(k, ascii_u8("recipient"@))
                ->Some_0);
        }
        Some(c)
    }
}

/// One offer line item: what is asked.
#[derive(Debug, Clone)]
pub struct Offer {
    pub end_amount: Vec<u8>,
    pub identifier_or_criteria: Vec<u8>,
    pub item_type: u64,
    pub start_amount: Vec<u8>,
    pub token: Address,
}

/// The mathematical shape of [`Offer`].
pub struct OfferV {
    pub end_amount: Seq<u8>,
    pub identifier_or_criteria: Seq<u8>,
    pub item_type: u64,
    pub start_amount: Seq<u8>,
    pub token: Seq<u8>,
}

impl DeepView for Offer {
    type V = OfferV;

    open spec fn deep_view(&self) -> OfferV {
        OfferV {
            end_amount: self.end_amount@,
            identifier_or_criteria: self.identifier_or_criteria@,
            item_type: self.item_type,
            start_amount: self.start_amount@,
            token: self.token.deep_view(),
        }
    }
}

pub open spec fn offer_of_json(v: JsonV) -> Option<OfferV> {
    if req_str_of(v, ascii_u8("endAmount"@)) is Some && req_str_of(
        v,
        ascii_u8("identifierOrCriteria"@),
    ) is Some && req_u64_of(v, ascii_u8("itemType"@)) is Some && req_str_of(
        v,
        ascii_u8("startAmount"@),
    ) is Some && req_addr_bare_of(v, ascii_u8("token"@)) is Some {
        Some(
            OfferV {
                end_amount: req_str_of(v, ascii_u8("endAmount"@))->Some_0,
                identifier_or_criteria: req_str_of(v, ascii_u8("identifierOrCriteria"@))->Some_0,
                item_type: req_u64_of(v, ascii_u8("itemType"@))->Some_0,
                start_amount: req_str_of(v, ascii_u8("startAmount"@))->Some_0,
                token: req_addr_bare_of(v, ascii_u8("token"@))->Some_0,
            },
        )
    } else {
        None
    }
}

impl Offer {
    pub fn decode(v: &Json) -> (r: Option<Offer>)
        ensures
            match r {
                Some(o) => offer_of_json(v@) == Some(o.deep_view()),
                None => offer_of_json(v@) is None,
            },
    {
        proof {
            reveal_strlit("endAmount");
            reveal_strlit("identifierOrCriteria");
            reveal_strlit("itemType");
            reveal_strlit("startAmount");
            reveal_strlit("token");
        }
        let end_amount = match x_req_str(v, "endAmount") {
            Some(s) => s,
            None => {
                return None;
            },
        };
        let identifier_or_criteria = match x_req_str(v, "identifierOrCriteria") {
            Some(s) => s,
            None => {
                return None;
            },
        };
        let item_type = match x_req_u64(v, "itemType") {
            Some(n) => n,
            None => {
                return None;
            },
        };
        let start_amount = match x_req_str(v, "startAmount") {
            Some(s) => s,
            None => {
                return None;
            },
        };
        let token = match x_req_addr_bare(v, "token") {
            Some(a) => a,
            None => {
                return None;
            },
        };
        let o = Offer { end_amount, identifier_or_criteria, item_type, start_amount, token };
        proof {
            let k = v@;
            assert(offer_of_json(k) is Some);
            assert(o.deep_view().end_amount == req_str_of(k, ascii_u8("endAmount"@))->Some_0);
            assert(o.deep_view().identifier_or_criteria == req_str_of(
                k,
                ascii_u8("identifierOrCriteria"@),
            )->Some_0);
            assert(o.deep_view().item_type == req_u64_of(k, ascii_u8("itemType"@))->Some_0);
            assert(o.deep_view().start_amount == req_str_of(k, ascii_u8("startAmount"@))->Some_0);
            assert(o.deep_view().token == req_addr_bare_of(k, ascii_u8("token"@))->Some_0);
        }
        Some(o)
    }
}

/// The considerations of a sequence of JSON values, all or nothing.
pub open spec fn considerations_of_json(items: Seq<JsonV>) -> Option<Seq<ConsiderationV>>
    decreases items.len(),
{
    if items.len() == 0 {
        Some(Seq::empty())
    } else {
        match consideration_of_json(items[0]) {
            None => None,
            Some(c) => match considerations_of_json(items.subrange(1, items.len() as int)) {
                None => None,
                Some(rest) => Some(seq![c] + rest),
            },
        }
    }
}

/// The offers of a sequence of JSON values, all or nothing.
pub open spec fn offers_of_json(items: Seq<JsonV>) -> Option<Seq<OfferV>>
    decreases items.len(),
{
    if items.len() == 0 {
        Some(Seq::empty())
    } else {
        match offer_of_json(items[0]) {
            None => None,
            Some(o) => match offers_of_json(items.subrange(1, items.len() as int)) {
                None => None,
                Some(rest) => Some(seq![o] + rest),
            },
        }
    }
}

fn x_considerations(items: &Vec<Json>) -> (r: Option<Vec<Consideration>>)
    ensures
        match r {
            Some(cs) => considerations_of_json(view_items(items@)) == Some(cs.deep_view()),
            None => considerations_of_json(view_items(items@)) is None,
        },
{
    let ghost model = view_items(items@);
    proof {
        lemma_view_items(items@);
        assert(model.subrange(0, model.len() as int) =~= model);
    }
    let mut out: Vec<Consideration> = Vec::new();
    let mut i: usize = 0;
    while i < items.len()
        invariant
            i <= items@.len(),
            model == view_items(items@),
            model.len() == items@.len(),
            forall|q: int| 0 <= q < items@.len() ==> model[q] == crate::json::view_json(
                items@[q],
            ),
            out.deep_view().len() == i,
            match considerations_of_json(model.subrange(i as int, model.len() as int)) {
                Some(rest) => considerations_of_json(model) == Some(out.deep_view() + rest),
                None => considerations_of_json(model) is None,
            },
        decreases items@.len() - i,
    {
        let ghost suffix = model.subrange(i as int, model.len() as int);
        proof {
            assert(suffix[0] == model[i as int]);
            assert(suffix.subrange(1, suffix.len() as int) =~= model.subrange(
                i + 1,
                model.len() as int,
            ));
        }
        match Consideration::decode(&items[i]) {
            Some(c) => {
                let ghost before = out.deep_view();
                out.push(c);
                proof {
                    assert(out.deep_view() =~~= before.push(c.deep_view()));
                    assert(before.push(c.deep_view()) + considerations_of_json(
                        model.subrange(i + 1, model.len() as int),
                    )->Some_0 =~~= before + (seq![c.deep_view()] + considerations_of_json(
                        model.subrange(i + 1, model.len() as int),
                    )->Some_0));
                }
                i = i + 1;
            },
            None => {
                return None;
            },
        }
    }
    proof {
        assert(model.subrange(model.len() as int, model.len() as int) =~= Seq::<JsonV>::empty());
        assert(considerations_of_json(Seq::<JsonV>::empty()) == Some(Seq::<ConsiderationV>::empty()));
        assert(out.deep_view() + Seq::<ConsiderationV>::empty() =~~= out.deep_view());
    }
    Some(out)
}

fn x_offers(items: &Vec<Json>) -> (r: Option<Vec<Offer>>)
    ensures
        match r {
            Some(os) => offers_of_json(view_items(items@)) == Some(os.deep_view()),
            None => offers_of_json(view_items(items@)) is None,
        },
{
    let ghost model = view_items(items@);
    proof {
        lemma_view_items(items@);
        assert(model.subrange(0, model.len() as int) =~= model);
    }
    let mut out: Vec<Offer> = Vec::new();
    let mut i: usize = 0;
    while i < items.len()
        invariant
            i <= items@.len(),
            model == view_items(items@),
            model.len() == items@.len(),
            forall|q: int| 0 <= q < items@.len() ==> model[q] == crate::json::view_json(
                items@[q],
            ),
            out.deep_view().len() == i,
            match offers_of_json(model.subrange(i as int, model.len() as int)) {
                Some(rest) => offers_of_json(model) == Some(out.deep_view() + rest),
                None => offers_of_json(model) is None,
            },
        decreases items@.len() - i,
    {
        let ghost suffix = model.subrange(i as int, model.len() as int);
        proof {
            assert(suffix[0] == model[i as int]);
            assert(suffix.subrange(1, suffix.len() as int) =~= model.subrange(
                i + 1,
                model.len() as int,
            ));
        }
        match Offer::decode(&items[i]) {
            Some(o) => {
                let ghost before = out.deep_view();
                out.push(o);
                proof {
                    assert(out.deep_view() =~~= before.push(o.deep_view()));
                    assert(before.push(o.deep_view()) + offers_of_json(
                        model.subrange(i + 1, model.len() as int),
                    )->Some_0 =~~= before + (seq![o.deep_view()] + offers_of_json(
                        model.subrange(i + 1, model.len() as int),
                    )->Some_0));
                }
                i = i + 1;
            },
            None => {
                return None;
            },
        }
    }
    proof {
        assert(model.subrange(model.len() as int, model.len() as int) =~= Seq::<JsonV>::empty());
        assert(offers_of_json(Seq::<JsonV>::empty()) == Some(Seq::<OfferV>::empty()));
        assert(out.deep_view() + Seq::<OfferV>::empty() =~~= out.deep_view());
    }
    Some(out)
}

/// The execution parameters of a listing or offer.  The counter is kept
/// verbatim: only a subset of these fields is consumed downstream.
#[derive(Debug)]
pub struct Parameters {
    pub conduit_key: Vec<u8>,
    pub consideration: Vec<Consideration>,
    pub counter: Json,
    pub end_time: Timestamp,
    pub offer: Vec<Offer>,
    pub offerer: Address,
    pub order_type: u64,
    pub salt: Vec<u8>,
    pub start_time: Timestamp,
    pub total_original_consideration_items: u64,
    pub zone: Address,
    pub zone_hash: Vec<u8>,
}

/// The mathematical shape of [`Parameters`].
pub struct ParametersV {
    pub conduit_key: Seq<u8>,
    pub consideration: Seq<ConsiderationV>,
    pub counter: JsonV,
    pub end_time: Timestamp,
    pub offer: Seq<OfferV>,
    pub offerer: Seq<u8>,
    pub order_type: u64,
    pub salt: Seq<u8>,
    pub start_time: Timestamp,
    pub total_original_consideration_items: u64,
    pub zone: Seq<u8>,
    pub zone_hash: Seq<u8>,
}

impl DeepView for Parameters {
    type V = ParametersV;

    open spec fn deep_view(&self) -> ParametersV {
        ParametersV {
            conduit_key: self.conduit_key@,
            consideration: self.consideration.deep_view(),
            counter: self.counter.deep_view(),
            end_time: self.end_time,
            offer: self.offer.deep_view(),
            offerer: self.offerer.deep_view(),
            order_type: self.order_type,
            salt: self.salt@,
            start_time: self.start_time,
            total_original_consideration_items: self.total_original_consideration_items,
            zone: self.zone.deep_view(),
            zone_hash: self.zone_hash@,
        }
    }
}

pub open spec fn req_considerations_of(v: JsonV, k: Seq<u8>) -> Option<Seq<ConsiderationV>> {
    match get_field(v, k) {
        Some(JsonV::Arr(items)) => considerations_of_json(items),
        _ => None,
    }
}

pub open spec fn req_offers_of(v: JsonV, k: Seq<u8>) -> Option<Seq<OfferV>> {
    match get_field(v, k) {
        Some(JsonV::Arr(items)) => offers_of_json(items),
        _ => None,
    }
}

pub open spec fn parameters_of_json(v: JsonV) -> Option<ParametersV> {
    if req_str_of(v, ascii_u8("conduitKey"@)) is Some && req_considerations_of(
        v,
        ascii_u8("consideration"@),
    ) is Some && get_field(v, ascii_u8("counter"@)) is Some && req_ts_of(v, ascii_u8("endTime"@))
        is Some && req_offers_of(v, ascii_u8("offer"@)) is Some && req_addr_bare_of(
        v,
        ascii_u8("offerer"@),
    ) is Some && req_u64_of(v, ascii_u8("orderType"@)) is Some && req_str_of(
        v,
        ascii_u8("salt"@),
    ) is Some && req_ts_of(v, ascii_u8("startTime"@)) is Some && req_u64_of(
        v,
        ascii_u8("totalOriginalConsiderationItems"@),
    ) is Some && req_addr_bare_of(v, ascii_u8("zone"@)) is Some && req_str_of(
        v,
        ascii_u8("zoneHash"@),
    ) is Some {
        Some(
            ParametersV {
                conduit_key: req_str_of(v, ascii_u8("conduitKey"@))->Some_0,
                consideration: req_considerations_of(v, ascii_u8("consideration"@))->Some_0,
                counter: get_field(v, ascii_u8("counter"@))->Some_0,
                end_time: req_ts_of(v, ascii_u8("endTime"@))->Some_0,
                offer: req_offers_of(v, ascii_u8("offer"@))->Some_0,
                offerer: req_addr_bare_of(v, ascii_u8("offerer"@))->Some_0,
                order_type: req_u64_of(v, ascii_u8("orderType"@))->Some_0,
                salt: req_str_of(v, ascii_u8("salt"@))->Some_0,
                start_time: req_ts_of(v, ascii_u8("startTime"@))->Some_0,
                total_original_consideration_items: req_u64_of(
                    v,
                    ascii_u8("totalOriginalConsiderationItems"@),
                )->Some_0,
                zone: req_addr_bare_of(v, ascii_u8("zone"@))->Some_0,
                zone_hash: req_str_of(v, ascii_u8("zoneHash"@))->Some_0,
            },
        )
    } else {
        None
    }
}

impl Parameters {
    #[verifier::rlimit(100)]
    pub fn decode(v: &Json) -> (r: Option<Parameters>)
        ensures
            match r {
                Some(p) => parameters_of_json(v@) == Some(p.deep_view()),
                None => parameters_of_json(v@) is None,
            },
    {
        proof {
            reveal_strlit("conduitKey");
            reveal_strlit("consideration");
            reveal_strlit("counter");
            reveal_strlit("endTime");
            reveal_strlit("offer");
            reveal_strlit("offerer");
            reveal_strlit("orderType");
            reveal_strlit("salt");
            reveal_strlit("startTime");
            reveal_strlit("totalOriginalConsiderationItems");
            reveal_strlit("zone");
            reveal_strlit("zoneHash");
        }
        let conduit_key = match x_req_str(v, "conduitKey") {
            Some(s) => s,
            None => {
                return None;
            },
        };
        let consideration = match json_field(v, "consideration") {
            Some(f) => match f {
                Json::Arr(items) => match x_considerations(items) {
                    Some(cs) => cs,
                    None => {
                        return None;
                    },
                },
                _ => {
                    return None;
                },
            },
            None => {
                return None;
            },
        };
        let counter = match json_field(v, "counter") {
            Some(f) => crate::json::json_copy(f),
            None => {
                return None;
            },
        };
        let end_time = match x_req_ts(v, "endTime") {
            Some(t) => t,
            None => {
                return None;
            },
        };
        let offer = match json_field(v, "offer") {
            Some(f) => match f {
                Json::Arr(items) => match x_offers(items) {
                    Some(os) => os,
                    None => {
                        return None;
                    },
                },
                _ => {
                    return None;
                },
            },
            None => {
                return None;
            },
        };
        let offerer = match x_req_addr_bare(v, "offerer") {
            Some(a) => a,
            None => {
                return None;
            },
        };
        let order_type = match x_req_u64(v, "orderType") {
            Some(n) => n,
            None => {
                return None;
            },
        };
        let salt = match x_req_str(v, "salt") {
            Some(s) => s,
            None => {
                return None;
            },
        };
        let start_time = match x_req_ts(v, "startTime") {
            Some(t) => t,
            None => {
                return None;
            },
        };
        let total_original_consideration_items = match x_req_u64(
            v,
            "totalOriginalConsiderationItems",
        ) {
            Some(n) => n,
            None => {
                return None;
            },
        };
        let zone = match x_req_addr_bare(v, "zone") {
            Some(a) => a,
            None => {
                return None;
            },
        };
        let zone_hash = match x_req_str(v, "zoneHash") {
            Some(s) => s,
            None => {
                return None;
            },
        };
        let p = Parameters {
            conduit_key,
            consideration,
            counter,
            end_time,
            offer,
            offerer,
            order_type,
            salt,
            start_time,
            total_original_consideration_items,
            zone,
            zone_hash,
        };
        proof {
            let k = v@;
            assert(parameters_of_json(k) is Some);
            assert(p.deep_view().conduit_key == req_str_of(k, ascii_u8("conduitKey"@))->Some_0);
            assert(p.deep_view().consideration == req_considerations_of(
                k,
                ascii_u8("consideration"@),
            )->Some_0);
            assert(p.deep_view().counter == get_field(k, ascii_u8("counter"@))->Some_0);
            assert(p.deep_view().end_time == req_ts_of(k, ascii_u8("endTime"@))->Some_0);
            assert(p.deep_view().offer == req_offers_of(k, ascii_u8("offer"@))->Some_0);
            assert(p.deep_view().offerer == req_addr_bare_of(k, ascii_u8("offerer"@))->Some_0);
            assert(p.deep_view().order_type == req_u64_of(k, ascii_u8("orderType"@))->Some_0);
            assert(p.deep_view().salt == req_str_of(k, ascii_u8("salt"@))->Some_0);
            assert(p.deep_view().start_time == req_ts_of(k, ascii_u8("startTime"@))->Some_0);
            assert(p.deep_view().total_original_consideration_items == req_u64_of(
                k,
                ascii_u8("totalOriginalConsiderationItems"@),
            )->Some_0);
            assert(p.deep_view().zone == req_addr_bare_of(k, ascii_u8("zone"@))->Some_0);
            assert(p.deep_view().zone_hash == req_str_of(k, ascii_u8("zoneHash"@))->Some_0);
        }
        Some(p)
    }
}

/// Execution parameters with the counterparty's signature.
#[derive(Debug)]
pub struct ProtocolData {
    pub parameters: Parameters,
    pub signature: Option<Vec<u8>>,
}

/// The mathematical shape of [`ProtocolData`].
pub struct ProtocolDataV {
    pub parameters: ParametersV,
    pub signature: Option<Seq<u8>>,
}

impl DeepView for ProtocolData {
    type V = ProtocolDataV;

    open spec fn deep_view(&self) -> ProtocolDataV {
        ProtocolDataV {
            parameters: self.parameters.deep_view(),
            signature: self.signature.deep_view(),
        }
    }
}

pub open spec fn protocol_data_of_json(v: JsonV) -> Option<ProtocolDataV> {
    match get_field(v, ascii_u8("parameters"@)) {
        Some(f) => match parameters_of_json(f) {
            Some(parameters) => match opt_str_of(v, ascii_u8("signature"@)) {
                Some(signature) => Some(ProtocolDataV { parameters, signature }),
                None => None,
            },
            None => None,
        },
        None => None,
    }
}

impl ProtocolData {
    pub fn decode(v: &Json) -> (r: Option<ProtocolData>)
        ensures
            match r {
                Some(p) => protocol_data_of_json(v@) == Some(p.deep_view()),
                None => protocol_data_of_json(v@) is None,
            },
    {
        proof {
            reveal_strlit("parameters");
            reveal_strlit("signature");
        }
        let parameters = match json_field(v, "parameters") {
            Some(f) => match Parameters::decode(f) {
                Some(p) => p,
                None => {
                    return None;
                },
            },
            None => {
                return None;
            },
        };
        let signature = match x_opt_str(v, "signature") {
            Some(o) => o,
            None => {
                return None;
            },
        };
        let p = ProtocolData { parameters, signature };
        proof {
            let k = v@;
            assert(protocol_data_of_json(k) is Some);
            assert(p.deep_view().parameters == parameters_of_json(
                get_field(k, ascii_u8("parameters"@))->Some_0,
            )->Some_0);
            assert(p.deep_view().signature == opt_str_of(k, ascii_u8("signature"@))->Some_0);
        }
        Some(p)
    }
}

pub open spec fn req_protocol_data_of(v: JsonV, k: Seq<u8>) -> Option<ProtocolDataV> {
    match get_field(v, k) {
        Some(f) => protocol_data_of_json(f),
        None => None,
    }
}

fn x_req_protocol_data(v: &Json, key: &str) -> (r: Option<ProtocolData>)
    requires
        key.is_ascii(),
    ensures
        match r {
            Some(p) => req_protocol_data_of(v@, ascii_u8(key@)) == Some(p.deep_view()),
            None => req_protocol_data_of(v@, ascii_u8(key@)) is None,
        },
{
    match json_field(v, key) {
        Some(f) => ProtocolData::decode(f),
        None => None,
    }
}

// -------------------------------------------------------------------------
// The eleven payload records.
// -------------------------------------------------------------------------

pub open spec fn req_chain_of(v: JsonV, k: Seq<u8>) -> Option<Chain> {
    match get_field(v, k) {
        Some(f) => chain_of_json(f),
        None => None,
    }
}

fn x_req_chain(v: &Json, key: &str) -> (r: Option<Chain>)
    requires
        key.is_ascii(),
    ensures
        match r {
            Some(c) => req_chain_of(v@, ascii_u8(key@)) == Some(c),
            None => req_chain_of(v@, ascii_u8(key@)) is None,
        },
{
    match json_field(v, key) {
        Some(f) => Chain::decode(f),
        None => None,
    }
}

/// A new listing.
#[derive(Debug)]
pub struct ItemListedData {
    pub collection: Collection,
    pub item: Item,
    pub event_timestamp: Timestamp,
    pub base_price: BigUint,
    pub expiration_date: Timestamp,
    pub is_private: bool,
    pub listing_date: Timestamp,
    pub listing_type: Option<ListingType>,
    pub maker: Address,
    pub order_hash: Hash256,
    pub payment_token: PaymentToken,
    pub protocol_data: ProtocolData,
}

/// The mathematical shape of [`ItemListedData`].
pub struct ItemListedDataV {
    pub collection: Seq<u8>,
    pub item: ItemV,
    pub event_timestamp: Timestamp,
    pub base_price: Seq<u8>,
    pub expiration_date: Timestamp,
    pub is_private: bool,
    pub listing_date: Timestamp,
    pub listing_type: Option<ListingType>,
    pub maker: Seq<u8>,
    pub order_hash: Seq<u8>,
    pub payment_token: PaymentTokenV,
    pub protocol_data: ProtocolDataV,
}

impl DeepView for ItemListedData {
    type V = ItemListedDataV;

    open spec fn deep_view(&self) -> ItemListedDataV {
        ItemListedDataV {
            collection: self.collection.deep_view(),
            item: self.item.deep_view(),
            event_timestamp: self.event_timestamp,
            base_price: self.base_price.deep_view(),
            expiration_date: self.expiration_date,
            is_private: self.is_private,
            listing_date: self.listing_date,
            listing_type: self.listing_type,
            maker: self.maker.deep_view(),
            order_hash: self.order_hash.deep_view(),
            payment_token: self.payment_token.deep_view(),
            protocol_data: self.protocol_data.deep_view(),
        }
    }
}

pub open spec fn listed_of_json(v: JsonV) -> Option<ItemListedDataV> {
    if req_collection_of(v, ascii_u8("collection"@)) is Some && req_item_of(v, ascii_u8("item"@)) is Some && req_ts_of(v, ascii_u8("event_timestamp"@)) is Some && req_bigint_of(v, ascii_u8("base_price"@)) is Some && req_ts_of(v, ascii_u8("expiration_date"@)) is Some && req_bool_of(v, ascii_u8("is_private"@)) is Some && req_ts_of(v, ascii_u8("listing_date"@)) is Some && opt_listing_type_of(v, ascii_u8("listing_type"@)) is Some && req_addr_obj_of(v, ascii_u8("maker"@)) is Some && req_hash_of(v, ascii_u8("order_hash"@)) is Some && req_payment_token_of(v, ascii_u8("payment_token"@)) is Some && req_protocol_data_of(v, ascii_u8("protocol_data"@)) is Some {
        Some(
            ItemListedDataV {
                collection: req_collection_of(v, ascii_u8("collection"@))->Some_0,
                item: req_item_of(v, ascii_u8("item"@))->Some_0,
                event_timestamp: req_ts_of(v, ascii_u8("event_timestamp"@))->Some_0,
                base_price: req_bigint_of(v, ascii_u8("base_price"@))->Some_0,
                expiration_date: req_ts_of(v, ascii_u8("expiration_date"@))->Some_0,
                is_private: req_bool_of(v, ascii_u8("is_private"@))->Some_0,
                listing_date: req_ts_of(v, ascii_u8("listing_date"@))->Some_0,
                listing_type: opt_listing_type_of(v, ascii_u8("listing_type"@))->Some_0,
                maker: req_addr_obj_of(v, ascii_u8("maker"@))->Some_0,
                order_hash: req_hash_of(v, ascii_u8("order_hash"@))->Some_0,
                payment_token: req_payment_token_of(v, ascii_u8("payment_token"@))->Some_0,
                protocol_data: req_protocol_data_of(v, ascii_u8("protocol_data"@))->Some_0,
            },
        )
    } else {
        None
    }
}

impl ItemListedData {
    #[verifier::rlimit(100)]
    pub fn decode(v: &Json) -> (r: Option<ItemListedData>)
        ensures
            match r {
                Some(d) => listed_of_json(v@) == Some(d.deep_view()),
                None => listed_of_json(v@) is None,
            },
    {
        proof {
            reveal_strlit("collection");
            reveal_strlit("item");
            reveal_strlit("event_timestamp");
            reveal_strlit("base_price");
            reveal_strlit("expiration_date");
            reveal_strlit("is_private");
            reveal_strlit("listing_date");
            reveal_strlit("listing_type");
            reveal_strlit("maker");
            reveal_strlit("order_hash");
            reveal_strlit("payment_token");
            reveal_strlit("protocol_data");
        }
        let collection = match x_req_collection(v, "collection") {
            Some(x) => x,
            None => {
                return None;
            },
        };
        let item = match x_req_item(v, "item") {
            Some(x) => x,
            None => {
                return None;
            },
        };
        let event_timestamp = match x_req_ts(v, "event_timestamp") {
            Some(x) => x,
            None => {
                return None;
            },
        };
        let base_price = match x_req_bigint(v, "base_price") {
            Some(x) => x,
            None => {
                return None;
            },
        };
        let expiration_date = match x_req_ts(v, "expiration_date") {
            Some(x) => x,
            None => {
                return None;
            },
        };
        let is_private = match x_req_bool(v, "is_private") {
            Some(x) => x,
            None => {
                return None;
            },
        };
        let listing_date = match x_req_ts(v, "listing_date") {
            Some(x) => x,
            None => {
                return None;
            },
        };
        let listing_type = match x_opt_listing_type(v, "listing_type") {
            Some(x) => x,
            None => {
                return None;
            },
        };
        let maker = match x_req_addr_obj(v, "maker") {
            Some(x) => x,
            None => {
                return None;
            },
        };
        let order_hash = match x_req_hash(v, "order_hash") {
            Some(x) => x,
            None => {
                return None;
            },
        };
        let payment_token = match x_req_payment_token(v, "payment_token") {
            Some(x) => x,
            None => {
                return None;
            },
        };
        let protocol_data = match x_req_protocol_data(v, "protocol_data") {
            Some(x) => x,
            None => {
                return None;
            },
        };
        let d = ItemListedData { collection, item, event_timestamp, base_price, expiration_date, is_private, listing_date, listing_type, maker, order_hash, payment_token, protocol_data };
        proof {
            let k = v@;
            assert(listed_of_json(k) is Some);
            assert(d.deep_view().collection == req_collection_of(k, ascii_u8("collection"@))->Some_0);
            assert(d.deep_view().item == req_item_of(k, ascii_u8("item"@))->Some_0);
            assert(d.deep_view().event_timestamp == req_ts_of(k, ascii_u8("event_timestamp"@))->Some_0);
            assert(d.deep_view().base_price == req_bigint_of(k, ascii_u8("base_price"@))->Some_0);
            assert(d.deep_view().expiration_date == req_ts_of(k, ascii_u8("expiration_date"@))->Some_0);
            assert(d.deep_view().is_private == req_bool_of(k, ascii_u8("is_private"@))->Some_0);
            assert(d.deep_view().listing_date == req_ts_of(k, ascii_u8("listing_date"@))->Some_0);
            assert(d.deep_view().listing_type == opt_listing_type_of(k, ascii_u8("listing_type"@))->Some_0);
            assert(d.deep_view().maker == req_addr_obj_of(k, ascii_u8("maker"@))->Some_0);
            assert(d.deep_view().order_hash == req_hash_of(k, ascii_u8("order_hash"@))->Some_0);
            assert(d.deep_view().payment_token == req_payment_token_of(k, ascii_u8("payment_token"@))->Some_0);
            assert(d.deep_view().protocol_data == req_protocol_data_of(k, ascii_u8("protocol_data"@))->Some_0);
        }
        Some(d)
    }
}

/// A completed sale.
#[derive(Debug, Clone)]
pub struct ItemSoldData {
    pub collection: Collection,
    pub item: Item,
    pub closing_date: Timestamp,
    pub event_timestamp: Timestamp,
    pub is_private: bool,
    pub listing_type: Option<ListingType>,
    pub maker: Address,
    pub order_hash: Hash256,
    pub payment_token: PaymentToken,
    pub quantity: u64,
    pub sale_price: BigUint,
    pub taker: Address,
    pub transaction: Transaction,
}

/// The mathematical shape of [`ItemSoldData`].
pub struct ItemSoldDataV {
    pub collection: Seq<u8>,
    pub item: ItemV,
    pub closing_date: Timestamp,
    pub event_timestamp: Timestamp,
    pub is_private: bool,
    pub listing_type: Option<ListingType>,
    pub maker: Seq<u8>,
    pub order_hash: Seq<u8>,
    pub payment_token: PaymentTokenV,
    pub quantity: u64,
    pub sale_price: Seq<u8>,
    pub taker: Seq<u8>,
    pub transaction: TransactionV,
}

impl DeepView for ItemSoldData {
    type V = ItemSoldDataV;

    open spec fn deep_view(&self) -> ItemSoldDataV {
        ItemSoldDataV {
            collection: self.collection.deep_view(),
            item: self.item.deep_view(),
            closing_date: self.closing_date,
            event_timestamp: self.event_timestamp,
            is_private: self.is_private,
            listing_type: self.listing_type,
            maker: self.maker.deep_view(),
            order_hash: self.order_hash.deep_view(),
            payment_token: self.payment_token.deep_view(),
            quantity: self.quantity,
            sale_price: self.sale_price.deep_view(),
            taker: self.taker.deep_view(),
            transaction: self.transaction.deep_view(),
        }
    }
}

pub open spec fn sold_of_json(v: JsonV) -> Option<ItemSoldDataV> {
    if req_collection_of(v, ascii_u8("collection"@)) is Some && req_item_of(v, ascii_u8("item"@)) is Some && req_ts_of(v, ascii_u8("closing_date"@)) is Some && req_ts_of(v, ascii_u8("event_timestamp"@)) is Some && req_bool_of(v, ascii_u8("is_private"@)) is Some && opt_listing_type_of(v, ascii_u8("listing_type"@)) is Some && req_addr_obj_of(v, ascii_u8("maker"@)) is Some && req_hash_of(v, ascii_u8("order_hash"@)) is Some && req_payment_token_of(v, ascii_u8("payment_token"@)) is Some && req_u64_of(v, ascii_u8("quantity"@)) is Some && req_bigint_of(v, ascii_u8("sale_price"@)) is Some && req_addr_obj_of(v, ascii_u8("taker"@)) is Some && req_transaction_of(v, ascii_u8("transaction"@)) is Some {
        Some(
            ItemSoldDataV {
                collection: req_collection_of(v, ascii_u8("collection"@))->Some_0,
                item: req_item_of(v, ascii_u8("item"@))->Some_0,
                closing_date: req_ts_of(v, ascii_u8("closing_date"@))->Some_0,
                event_timestamp: req_ts_of(v, ascii_u8("event_timestamp"@))->Some_0,
                is_private: req_bool_of(v, ascii_u8("is_private"@))->Some_0,
                listing_type: opt_listing_type_of(v, ascii_u8("listing_type"@))->Some_0,
                maker: req_addr_obj_of(v, ascii_u8("maker"@))->Some_0,
                order_hash: req_hash_of(v, ascii_u8("order_hash"@))->Some_0,
                payment_token: req_payment_token_of(v, ascii_u8("payment_token"@))->Some_0,
                quantity: req_u64_of(v, ascii_u8("quantity"@))->Some_0,
                sale_price: req_bigint_of(v, ascii_u8("sale_price"@))->Some_0,
                taker: req_addr_obj_of(v, ascii_u8("taker"@))->Some_0,
                transaction: req_transaction_of(v, ascii_u8("transaction"@))->Some_0,
            },
        )
    } else {
        None
    }
}

impl ItemSoldData {
    #[verifier::rlimit(100)]
    pub fn decode(v: &Json) -> (r: Option<ItemSoldData>)
        ensures
            match r {
                Some(d) => sold_of_json(v@) == Some(d.deep_view()),
                None => sold_of_json(v@) is None,
            },
    {
        proof {
            reveal_strlit("collection");
            reveal_strlit("item");
            reveal_strlit("closing_date");
            reveal_strlit("event_timestamp");
            reveal_strlit("is_private");
            reveal_strlit("listing_type");
            reveal_strlit("maker");
            reveal_strlit("order_hash");
            reveal_strlit("payment_token");
            reveal_strlit("quantity");
            reveal_strlit("sale_price");
            reveal_strlit("taker");
            reveal_strlit("transaction");
        }
        let collection = match x_req_collection(v, "collection") {
            Some(x) => x,
            None => {
                return None;
            },
        };
        let item = match x_req_item(v, "item") {
            Some(x) => x,
            None => {
                return None;
            },
        };
        let closing_date = match x_req_ts(v, "closing_date") {
            Some(x) => x,
            None => {
                return None;
            },
        };
        let event_timestamp = match x_req_ts(v, "event_timestamp") {
            Some(x) => x,
            None => {
                return None;
            },
        };
        let is_private = match x_req_bool(v, "is_private") {
            Some(x) => x,
            None => {
                return None;
            },
        };
        let listing_type = match x_opt_listing_type(v, "listing_type") {
            Some(x) => x,
            None => {
                return None;
            },
        };
        let maker = match x_req_addr_obj(v, "maker") {
            Some(x) => x,
            None => {
                return None;
            },
        };
        let order_hash = match x_req_hash(v, "order_hash") {
            Some(x) => x,
            None => {
                return None;
            },
        };
        let payment_token = match x_req_payment_token(v, "payment_token") {
            Some(x) => x,
            None => {
                return None;
            },
        };
        let quantity = match x_req_u64(v, "quantity") {
            Some(x) => x,
            None => {
                return None;
            },
        };
        let sale_price = match x_req_bigint(v, "sale_price") {
            Some(x) => x,
            None => {
                return None;
            },
        };
        let taker = match x_req_addr_obj(v, "taker") {
            Some(x) => x,
            None => {
                return None;
            },
        };
        let transaction = match x_req_transaction(v, "transaction") {
            Some(x) => x,
            None => {
                return None;
            },
        };
        let d = ItemSoldData { collection, item, closing_date, event_timestamp, is_private, listing_type, maker, order_hash, payment_token, quantity, sale_price, taker, transaction };
        proof {
            let k = v@;
            assert(sold_of_json(k) is Some);
            assert(d.deep_view().collection == req_collection_of(k, ascii_u8("collection"@))->Some_0);
            assert(d.deep_view().item == req_item_of(k, ascii_u8("item"@))->Some_0);
            assert(d.deep_view().closing_date == req_ts_of(k, ascii_u8("closing_date"@))->Some_0);
            assert(d.deep_view().event_timestamp == req_ts_of(k, ascii_u8("event_timestamp"@))->Some_0);
            assert(d.deep_view().is_private == req_bool_of(k, ascii_u8("is_private"@))->Some_0);
            assert(d.deep_view().listing_type == opt_listing_type_of(k, ascii_u8("listing_type"@))->Some_0);
            assert(d.deep_view().maker == req_addr_obj_of(k, ascii_u8("maker"@))->Some_0);
            assert(d.deep_view().order_hash == req_hash_of(k, ascii_u8("order_hash"@))->Some_0);
            assert(d.deep_view().payment_token == req_payment_token_of(k, ascii_u8("payment_token"@))->Some_0);
            assert(d.deep_view().quantity == req_u64_of(k, ascii_u8("quantity"@))->Some_0);
            assert(d.deep_view().sale_price == req_bigint_of(k, ascii_u8("sale_price"@))->Some_0);
            assert(d.deep_view().taker == req_addr_obj_of(k, ascii_u8("taker"@))->Some_0);
            assert(d.deep_view().transaction == req_transaction_of(k, ascii_u8("transaction"@))->Some_0);
        }
        Some(d)
    }
}

/// A transfer between wallets.
#[derive(Debug, Clone)]
pub struct ItemTransferredData {
    pub collection: Collection,
    pub event_timestamp: Timestamp,
    pub from_account: Address,
    pub item: Item,
    pub to_account: Address,
    pub transaction: Option<Transaction>,
}

/// The mathematical shape of [`ItemTransferredData`].
pub struct ItemTransferredDataV {
    pub collection: Seq<u8>,
    pub event_timestamp: Timestamp,
    pub from_account: Seq<u8>,
    pub item: ItemV,
    pub to_account: Seq<u8>,
    pub transaction: Option<TransactionV>,
}

impl DeepView for ItemTransferredData {
    type V = ItemTransferredDataV;

    open spec fn deep_view(&self) -> ItemTransferredDataV {
        ItemTransferredDataV {
            collection: self.collection.deep_view(),
            event_timestamp: self.event_timestamp,
            from_account: self.from_account.deep_view(),
            item: self.item.deep_view(),
            to_account: self.to_account.deep_view(),
            transaction: self.transaction.deep_view(),
        }
    }
}

pub open spec fn transferred_of_json(v: JsonV) -> Option<ItemTransferredDataV> {
    if req_collection_of(v, ascii_u8("collection"@)) is Some && req_ts_of(v, ascii_u8("event_timestamp"@)) is Some && req_addr_obj_of(v, ascii_u8("from_account"@)) is Some && req_item_of(v, ascii_u8("item"@)) is Some && req_addr_obj_of(v, ascii_u8("to_account"@)) is Some && opt_transaction_of(v, ascii_u8("transaction"@)) is Some {
        Some(
            ItemTransferredDataV {
                collection: req_collection_of(v, ascii_u8("collection"@))->Some_0,
                event_timestamp: req_ts_of(v, ascii_u8("event_timestamp"@))->Some_0,
                from_account: req_addr_obj_of(v, ascii_u8("from_account"@))->Some_0,
                item: req_item_of(v, ascii_u8("item"@))->Some_0,
                to_account: req_addr_obj_of(v, ascii_u8("to_account"@))->Some_0,
                transaction: opt_transaction_of(v, ascii_u8("transaction"@))->Some_0,
            },
        )
    } else {
        None
    }
}

impl ItemTransferredData {
    #[verifier::rlimit(100)]
    pub fn decode(v: &Json) -> (r: Option<ItemTransferredData>)
        ensures
            match r {
                Some(d) => transferred_of_json(v@) == Some(d.deep_view()),
                None => transferred_of_json(v@) is None,
            },
    {
        proof {
            reveal_strlit("collection");
            reveal_strlit("event_timestamp");
            reveal_strlit("from_account");
            reveal_strlit("item");
            reveal_strlit("to_account");
            reveal_strlit("transaction");
        }
        let collection = match x_req_collection(v, "collection") {
            Some(x) => x,
            None => {
                return None;
            },
        };
        let event_timestamp = match x_req_ts(v, "event_timestamp") {
            Some(x) => x,
            None => {
                return None;
            },
        };
        let from_account = match x_req_addr_obj(v, "from_account") {
            Some(x) => x,
            None => {
                return None;
            },
        };
        let item = match x_req_item(v, "item") {
            Some(x) => x,
            None => {
                return None;
            },
        };
        let to_account = match x_req_addr_obj(v, "to_account") {
            Some(x) => x,
            None => {
                return None;
            },
        };
        let transaction = match x_opt_transaction(v, "transaction") {
            Some(x) => x,
            None => {
                return None;
            },
        };
        let d = ItemTransferredData { collection, event_timestamp, from_account, item, to_account, transaction };
        proof {
            let k = v@;
            assert(transferred_of_json(k) is Some);
            assert(d.deep_view().collection == req_collection_of(k, ascii_u8("collection"@))->Some_0);
            assert(d.deep_view().event_timestamp == req_ts_of(k, ascii_u8("event_timestamp"@))->Some_0);
            assert(d.deep_view().from_account == req_addr_obj_of(k, ascii_u8("from_account"@))->Some_0);
            assert(d.deep_view().item == req_item_of(k, ascii_u8("item"@))->Some_0);
            assert(d.deep_view().to_account == req_addr_obj_of(k, ascii_u8("to_account"@))->Some_0);
            assert(d.deep_view().transaction == opt_transaction_of(k, ascii_u8("transaction"@))->Some_0);
        }
        Some(d)
    }
}

/// An item metadata update.
#[derive(Debug, Clone)]
pub struct ItemMetadataUpdatedData {
    pub collection: Collection,
    pub item: Item,
}

/// The mathematical shape of [`ItemMetadataUpdatedData`].
pub struct ItemMetadataUpdatedDataV {
    pub collection: Seq<u8>,
    pub item: ItemV,
}

impl DeepView for ItemMetadataUpdatedData {
    type V = ItemMetadataUpdatedDataV;

    open spec fn deep_view(&self) -> ItemMetadataUpdatedDataV {
        ItemMetadataUpdatedDataV {
            collection: self.collection.deep_view(),
            item: self.item.deep_view(),
        }
    }
}

pub open spec fn metadata_updated_of_json(v: JsonV) -> Option<ItemMetadataUpdatedDataV> {
    if req_collection_of(v, ascii_u8("collection"@)) is Some && req_item_of(v, ascii_u8("item"@)) is Some {
        Some(
            ItemMetadataUpdatedDataV {
                collection: req_collection_of(v, ascii_u8("collection"@))->Some_0,
                item: req_item_of(v, ascii_u8("item"@))->Some_0,
            },
        )
    } else {
        None
    }
}

impl ItemMetadataUpdatedData {
    #[verifier::rlimit(100)]
    pub fn decode(v: &Json) -> (r: Option<ItemMetadataUpdatedData>)
        ensures
            match r {
                Some(d) => metadata_updated_of_json(v@) == Some(d.deep_view()),
                None => metadata_updated_of_json(v@) is None,
            },
    {
        proof {
            reveal_strlit("collection");
            reveal_strlit("item");
        }
        let collection = match x_req_collection(v, "collection") {
            Some(x) => x,
            None => {
                return None;
            },
        };
        let item = match x_req_item(v, "item") {
            Some(x) => x,
            None => {
                return None;
            },
        };
        let d = ItemMetadataUpdatedData { collection, item };
        proof {
            let k = v@;
            assert(metadata_updated_of_json(k) is Some);
            assert(d.deep_view().collection == req_collection_of(k, ascii_u8("collection"@))->Some_0);
            assert(d.deep_view().item == req_item_of(k, ascii_u8("item"@))->Some_0);
        }
        Some(d)
    }
}

/// A cancelled listing.
#[derive(Debug, Clone)]
pub struct ItemCancelledData {
    pub base_price: BigUint,
    pub collection: Collection,
    pub event_timestamp: Timestamp,
    pub is_private: bool,
    pub item: Item,
    pub listing_date: Option<Timestamp>,
    pub listing_type: Option<ListingType>,
    pub order_hash: Hash256,
    pub payment_token: PaymentToken,
    pub quantity: u64,
    pub transaction: Option<Transaction>,
}

/// The mathematical shape of [`ItemCancelledData`].
pub struct ItemCancelledDataV {
    pub base_price: Seq<u8>,
    pub collection: Seq<u8>,
    pub event_timestamp: Timestamp,
    pub is_private: bool,
    pub item: ItemV,
    pub listing_date: Option<Timestamp>,
    pub listing_type: Option<ListingType>,
    pub order_hash: Seq<u8>,
    pub payment_token: PaymentTokenV,
    pub quantity: u64,
    pub transaction: Option<TransactionV>,
}

impl DeepView for ItemCancelledData {
    type V = ItemCancelledDataV;

    open spec fn deep_view(&self) -> ItemCancelledDataV {
        ItemCancelledDataV {
            base_price: self.base_price.deep_view(),
            collection: self.collection.deep_view(),
            event_timestamp: self.event_timestamp,
            is_private: self.is_private,
            item: self.item.deep_view(),
            listing_date: self.listing_date,
            listing_type: self.listing_type,
            order_hash: self.order_hash.deep_view(),
            payment_token: self.payment_token.deep_view(),
            quantity: self.quantity,
            transaction: self.transaction.deep_view(),
        }
    }
}

pub open spec fn cancelled_of_json(v: JsonV) -> Option<ItemCancelledDataV> {
    if req_bigint_of(v, ascii_u8("base_price"@)) is Some && req_collection_of(v, ascii_u8("collection"@)) is Some && req_ts_of(v, ascii_u8("event_timestamp"@)) is Some && req_bool_of(v, ascii_u8("is_private"@)) is Some && req_item_of(v, ascii_u8("item"@)) is Some && opt_ts_of(v, ascii_u8("listing_date"@)) is Some && opt_listing_type_of(v, ascii_u8("listing_type"@)) is Some && req_hash_of(v, ascii_u8("order_hash"@)) is Some && req_payment_token_of(v, ascii_u8("payment_token"@)) is Some && req_u64_of(v, ascii_u8("quantity"@)) is Some && opt_transaction_of(v, ascii_u8("transaction"@)) is Some {
        Some(
            ItemCancelledDataV {
                base_price: req_bigint_of(v, ascii_u8("base_price"@))->Some_0,
                collection: req_collection_of(v, ascii_u8("collection"@))->Some_0,
                event_timestamp: req_ts_of(v, ascii_u8("event_timestamp"@))->Some_0,
                is_private: req_bool_of(v, ascii_u8("is_private"@))->Some_0,
                item: req_item_of(v, ascii_u8("item"@))->Some_0,
                listing_date: opt_ts_of(v, ascii_u8("listing_date"@))->Some_0,
                listing_type: opt_listing_type_of(v, ascii_u8("listing_type"@))->Some_0,
                order_hash: req_hash_of(v, ascii_u8("order_hash"@))->Some_0,
                payment_token: req_payment_token_of(v, ascii_u8("payment_token"@))->Some_0,
                quantity: req_u64_of(v, ascii_u8("quantity"@))->Some_0,
                transaction: opt_transaction_of(v, ascii_u8("transaction"@))->Some_0,
            },
        )
    } else {
        None
    }
}

impl ItemCancelledData {
    #[verifier::rlimit(100)]
    pub fn decode(v: &Json) -> (r: Option<ItemCancelledData>)
        ensures
            match r {
                Some(d) => cancelled_of_json(v@) == Some(d.deep_view()),
                None => cancelled_of_json(v@) is None,
            },
    {
        proof {
            reveal_strlit("base_price");
            reveal_strlit("collection");
            reveal_strlit("event_timestamp");
            reveal_strlit("is_private");
            reveal_strlit("item");
            reveal_strlit("listing_date");
            reveal_strlit("listing_type");
            reveal_strlit("order_hash");
            reveal_strlit("payment_token");
            reveal_strlit("quantity");
            reveal_strlit("transaction");
        }
        let base_price = match x_req_bigint(v, "base_price") {
            Some(x) => x,
            None => {
                return None;
            },
        };
        let collection = match x_req_collection(v, "collection") {
            Some(x) => x,
            None => {
                return None;
            },
        };
        let event_timestamp = match x_req_ts(v, "event_timestamp") {
            Some(x) => x,
            None => {
                return None;
            },
        };
        let is_private = match x_req_bool(v, "is_private") {
            Some(x) => x,
            None => {
                return None;
            },
        };
        let item = match x_req_item(v, "item") {
            Some(x) => x,
            None => {
                return None;
            },
        };
        let listing_date = match x_opt_ts(v, "listing_date") {
            Some(x) => x,
            None => {
                return None;
            },
        };
        let listing_type = match x_opt_listing_type(v, "listing_type") {
            Some(x) => x,
            None => {
                return None;
            },
        };
        let order_hash = match x_req_hash(v, "order_hash") {
            Some(x) => x,
            None => {
                return None;
            },
        };
        let payment_token = match x_req_payment_token(v, "payment_token") {
            Some(x) => x,
            None => {
                return None;
            },
        };
        let quantity = match x_req_u64(v, "quantity") {
            Some(x) => x,
            None => {
                return None;
            },
        };
        let transaction = match x_opt_transaction(v, "transaction") {
            Some(x) => x,
            None => {
                return None;
            },
        };
        let d = ItemCancelledData { base_price, collection, event_timestamp, is_private, item, listing_date, listing_type, order_hash, payment_token, quantity, transaction };
        proof {
            let k = v@;
            assert(cancelled_of_json(k) is Some);
            assert(d.deep_view().base_price == req_bigint_of(k, ascii_u8("base_price"@))->Some_0);
            assert(d.deep_view().collection == req_collection_of(k, ascii_u8("collection"@))->Some_0);
            assert(d.deep_view().event_timestamp == req_ts_of(k, ascii_u8("event_timestamp"@))->Some_0);
            assert(d.deep_view().is_private == req_bool_of(k, ascii_u8("is_private"@))->Some_0);
            assert(d.deep_view().item == req_item_of(k, ascii_u8("item"@))->Some_0);
            assert(d.deep_view().listing_date == opt_ts_of(k, ascii_u8("listing_date"@))->Some_0);
            assert(d.deep_view().listing_type == opt_listing_type_of(k, ascii_u8("listing_type"@))->Some_0);
            assert(d.deep_view().order_hash == req_hash_of(k, ascii_u8("order_hash"@))->Some_0);
            assert(d.deep_view().payment_token == req_payment_token_of(k, ascii_u8("payment_token"@))->Some_0);
            assert(d.deep_view().quantity == req_u64_of(k, ascii_u8("quantity"@))->Some_0);
            assert(d.deep_view().transaction == opt_transaction_of(k, ascii_u8("transaction"@))->Some_0);
        }
        Some(d)
    }
}

/// An offer on an item.
#[derive(Debug, Clone)]
pub struct ItemReceivedOfferData {
    pub collection: Collection,
    pub item: Item,
    pub event_timestamp: Timestamp,
    pub base_price: BigUint,
    pub created_date: Timestamp,
    pub expiration_date: Timestamp,
    pub maker: Address,
    pub order_hash: Hash256,
    pub payment_token: PaymentToken,
    pub quantity: u64,
    pub taker: Option<Address>,
}

/// The mathematical shape of [`ItemReceivedOfferData`].
pub struct ItemReceivedOfferDataV {
    pub collection: Seq<u8>,
    pub item: ItemV,
    pub event_timestamp: Timestamp,
    pub base_price: Seq<u8>,
    pub created_date: Timestamp,
    pub expiration_date: Timestamp,
    pub maker: Seq<u8>,
    pub order_hash: Seq<u8>,
    pub payment_token: PaymentTokenV,
    pub quantity: u64,
    pub taker: Option<Seq<u8>>,
}

impl DeepView for ItemReceivedOfferData {
    type V = ItemReceivedOfferDataV;

    open spec fn deep_view(&self) -> ItemReceivedOfferDataV {
        ItemReceivedOfferDataV {
            collection: self.collection.deep_view(),
            item: self.item.deep_view(),
            event_timestamp: self.event_timestamp,
            base_price: self.base_price.deep_view(),
            created_date: self.created_date,
            expiration_date: self.expiration_date,
            maker: self.maker.deep_view(),
            order_hash: self.order_hash.deep_view(),
            payment_token: self.payment_token.deep_view(),
            quantity: self.quantity,
            taker: self.taker.deep_view(),
        }
    }
}

pub open spec fn received_offer_of_json(v: JsonV) -> Option<ItemReceivedOfferDataV> {
    if req_collection_of(v, ascii_u8("collection"@)) is Some && req_item_of(v, ascii_u8("item"@)) is Some && req_ts_of(v, ascii_u8("event_timestamp"@)) is Some && req_bigint_of(v, ascii_u8("base_price"@)) is Some && req_ts_of(v, ascii_u8("created_date"@)) is Some && req_ts_of(v, ascii_u8("expiration_date"@)) is Some && req_addr_obj_of(v, ascii_u8("maker"@)) is Some && req_hash_of(v, ascii_u8("order_hash"@)) is Some && req_payment_token_of(v, ascii_u8("payment_token"@)) is Some && req_u64_of(v, ascii_u8("quantity"@)) is Some && opt_addr_obj_of(v, ascii_u8("taker"@)) is Some {
        Some(
            ItemReceivedOfferDataV {
                collection: req_collection_of(v, ascii_u8("collection"@))->Some_0,
                item: req_item_of(v, ascii_u8("item"@))->Some_0,
                event_timestamp: req_ts_of(v, ascii_u8("event_timestamp"@))->Some_0,
                base_price: req_bigint_of(v, ascii_u8("base_price"@))->Some_0,
                created_date: req_ts_of(v, ascii_u8("created_date"@))->Some_0,
                expiration_date: req_ts_of(v, ascii_u8("expiration_date"@))->Some_0,
                maker: req_addr_obj_of(v, ascii_u8("maker"@))->Some_0,
                order_hash: req_hash_of(v, ascii_u8("order_hash"@))->Some_0,
                payment_token: req_payment_token_of(v, ascii_u8("payment_token"@))->Some_0,
                quantity: req_u64_of(v, ascii_u8("quantity"@))->Some_0,
                taker: opt_addr_obj_of(v, ascii_u8("taker"@))->Some_0,
            },
        )
    } else {
        None
    }
}

impl ItemReceivedOfferData {
    #[verifier::rlimit(100)]
    pub fn decode(v: &Json) -> (r: Option<ItemReceivedOfferData>)
        ensures
            match r {
                Some(d) => received_offer_of_json(v@) == Some(d.deep_view()),
                None => received_offer_of_json(v@) is None,
            },
    {
        proof {
            reveal_strlit("collection");
            reveal_strlit("item");
            reveal_strlit("event_timestamp");
            reveal_strlit("base_price");
            reveal_strlit("created_date");
            reveal_strlit("expiration_date");
            reveal_strlit("maker");
            reveal_strlit("order_hash");
            reveal_strlit("payment_token");
            reveal_strlit("quantity");
            reveal_strlit("taker");
        }
        let collection = match x_req_collection(v, "collection") {
            Some(x) => x,
            None => {
                return None;
            },
        };
        let item = match x_req_item(v, "item") {
            Some(x) => x,
            None => {
                return None;
            },
        };
        let event_timestamp = match x_req_ts(v, "event_timestamp") {
            Some(x) => x,
            None => {
                return None;
            },
        };
        let base_price = match x_req_bigint(v, "base_price") {
            Some(x) => x,
            None => {
                return None;
            },
        };
        let created_date = match x_req_ts(v, "created_date") {
            Some(x) => x,
            None => {
                return None;
            },
        };
        let expiration_date = match x_req_ts(v, "expiration_date") {
            Some(x) => x,
            None => {
                return None;
            },
        };
        let maker = match x_req_addr_obj(v, "maker") {
            Some(x) => x,
            None => {
                return None;
            },
        };
        let order_hash = match x_req_hash(v, "order_hash") {
            Some(x) => x,
            None => {
                return None;
            },
        };
        let payment_token = match x_req_payment_token(v, "payment_token") {
            Some(x) => x,
            None => {
                return None;
            },
        };
        let quantity = match x_req_u64(v, "quantity") {
            Some(x) => x,
            None => {
                return None;
            },
        };
        let taker = match x_opt_addr_obj(v, "taker") {
            Some(x) => x,
            None => {
                return None;
            },
        };
        let d = ItemReceivedOfferData { collection, item, event_timestamp, base_price, created_date, expiration_date, maker, order_hash, payment_token, quantity, taker };
        proof {
            let k = v@;
            assert(received_offer_of_json(k) is Some);
            assert(d.deep_view().collection == req_collection_of(k, ascii_u8("collection"@))->Some_0);
            assert(d.deep_view().item == req_item_of(k, ascii_u8("item"@))->Some_0);
            assert(d.deep_view().event_timestamp == req_ts_of(k, ascii_u8("event_timestamp"@))->Some_0);
            assert(d.deep_view().base_price == req_bigint_of(k, ascii_u8("base_price"@))->Some_0);
            assert(d.deep_view().created_date == req_ts_of(k, ascii_u8("created_date"@))->Some_0);
            assert(d.deep_view().expiration_date == req_ts_of(k, ascii_u8("expiration_date"@))->Some_0);
            assert(d.deep_view().maker == req_addr_obj_of(k, ascii_u8("maker"@))->Some_0);
            assert(d.deep_view().order_hash == req_hash_of(k, ascii_u8("order_hash"@))->Some_0);
            assert(d.deep_view().payment_token == req_payment_token_of(k, ascii_u8("payment_token"@))->Some_0);
            assert(d.deep_view().quantity == req_u64_of(k, ascii_u8("quantity"@))->Some_0);
            assert(d.deep_view().taker == opt_addr_obj_of(k, ascii_u8("taker"@))->Some_0);
        }
        Some(d)
    }
}

/// A bid on an item.
#[derive(Debug, Clone)]
pub struct ItemReceivedBidData {
    pub collection: Collection,
    pub item: Item,
    pub event_timestamp: Timestamp,
    pub base_price: BigUint,
    pub created_date: Timestamp,
    pub expiration_date: Timestamp,
    pub maker: Address,
    pub order_hash: Hash256,
    pub payment_token: PaymentToken,
    pub quantity: u64,
    pub taker: Option<Address>,
}

/// The mathematical shape of [`ItemReceivedBidData`].
pub struct ItemReceivedBidDataV {
    pub collection: Seq<u8>,
    pub item: ItemV,
    pub event_timestamp: Timestamp,
    pub base_price: Seq<u8>,
    pub created_date: Timestamp,
    pub expiration_date: Timestamp,
    pub maker: Seq<u8>,
    pub order_hash: Seq<u8>,
    pub payment_token: PaymentTokenV,
    pub quantity: u64,
    pub taker: Option<Seq<u8>>,
}

impl DeepView for ItemReceivedBidData {
    type V = ItemReceivedBidDataV;

    open spec fn deep_view(&self) -> ItemReceivedBidDataV {
        ItemReceivedBidDataV {
            collection: self.collection.deep_view(),
            item: self.item.deep_view(),
            event_timestamp: self.event_timestamp,
            base_price: self.base_price.deep_view(),
            created_date: self.created_date,
            expiration_date: self.expiration_date,
            maker: self.maker.deep_view(),
            order_hash: self.order_hash.deep_view(),
            payment_token: self.payment_token.deep_view(),
            quantity: self.quantity,
            taker: self.taker.deep_view(),
        }
    }
}

pub open spec fn received_bid_of_json(v: JsonV) -> Option<ItemReceivedBidDataV> {
    if req_collection_of(v, ascii_u8("collection"@)) is Some && req_item_of(v, ascii_u8("item"@)) is Some && req_ts_of(v, ascii_u8("event_timestamp"@)) is Some && req_bigint_of(v, ascii_u8("base_price"@)) is Some && req_ts_of(v, ascii_u8("created_date"@)) is Some && req_ts_of(v, ascii_u8("expiration_date"@)) is Some && req_addr_obj_of(v, ascii_u8("maker"@)) is Some && req_hash_of(v, ascii_u8("order_hash"@)) is Some && req_payment_token_of(v, ascii_u8("payment_token"@)) is Some && req_u64_of(v, ascii_u8("quantity"@)) is Some && opt_addr_obj_of(v, ascii_u8("taker"@)) is Some {
        Some(
            ItemReceivedBidDataV {
                collection: req_collection_of(v, ascii_u8("collection"@))->Some_0,
                item: req_item_of(v, ascii_u8("item"@))->Some_0,
                event_timestamp: req_ts_of(v, ascii_u8("event_timestamp"@))->Some_0,
                base_price: req_bigint_of(v, ascii_u8("base_price"@))->Some_0,
                created_date: req_ts_of(v, ascii_u8("created_date"@))->Some_0,
                expiration_date: req_ts_of(v, ascii_u8("expiration_date"@))->Some_0,
                maker: req_addr_obj_of(v, ascii_u8("maker"@))->Some_0,
                order_hash: req_hash_of(v, ascii_u8("order_hash"@))->Some_0,
                payment_token: req_payment_token_of(v, ascii_u8("payment_token"@))->Some_0,
                quantity: req_u64_of(v, ascii_u8("quantity"@))->Some_0,
                taker: opt_addr_obj_of(v, ascii_u8("taker"@))->Some_0,
            },
        )
    } else {
        None
    }
}

impl ItemReceivedBidData {
    #[verifier::rlimit(100)]
    pub fn decode(v: &Json) -> (r: Option<ItemReceivedBidData>)
        ensures
            match r {
                Some(d) => received_bid_of_json(v@) == Some(d.deep_view()),
                None => received_bid_of_json(v@) is None,
            },
    {
        proof {
            reveal_strlit("collection");
            reveal_strlit("item");
            reveal_strlit("event_timestamp");
            reveal_strlit("base_price");
            reveal_strlit("created_date");
            reveal_strlit("expiration_date");
            reveal_strlit("maker");
            reveal_strlit("order_hash");
            reveal_strlit("payment_token");
            reveal_strlit("quantity");
            reveal_strlit("taker");
        }
        let collection = match x_req_collection(v, "collection") {
            Some(x) => x,
            None => {
                return None;
            },
        };
        let item = match x_req_item(v, "item") {
            Some(x) => x,
            None => {
                return None;
            },
        };
        let event_timestamp = match x_req_ts(v, "event_timestamp") {
            Some(x) => x,
            None => {
                return None;
            },
        };
        let base_price = match x_req_bigint(v, "base_price") {
            Some(x) => x,
            None => {
                return None;
            },
        };
        let created_date = match x_req_ts(v, "created_date") {
            Some(x) => x,
            None => {
                return None;
            },
        };
        let expiration_date = match x_req_ts(v, "expiration_date") {
            Some(x) => x,
            None => {
                return None;
            },
        };
        let maker = match x_req_addr_obj(v, "maker") {
            Some(x) => x,
            None => {
                return None;
            },
        };
        let order_hash = match x_req_hash(v, "order_hash") {
            Some(x) => x,
            None => {
                return None;
            },
        };
        let payment_token = match x_req_payment_token(v, "payment_token") {
            Some(x) => x,
            None => {
                return None;
            },
        };
        let quantity = match x_req_u64(v, "quantity") {
            Some(x) => x,
            None => {
                return None;
            },
        };
        let taker = match x_opt_addr_obj(v, "taker") {
            Some(x) => x,
            None => {
                return None;
            },
        };
        let d = ItemReceivedBidData { collection, item, event_timestamp, base_price, created_date, expiration_date, maker, order_hash, payment_token, quantity, taker };
        proof {
            let k = v@;
            assert(received_bid_of_json(k) is Some);
            assert(d.deep_view().collection == req_collection_of(k, ascii_u8("collection"@))->Some_0);
            assert(d.deep_view().item == req_item_of(k, ascii_u8("item"@))->Some_0);
            assert(d.deep_view().event_timestamp == req_ts_of(k, ascii_u8("event_timestamp"@))->Some_0);
            assert(d.deep_view().base_price == req_bigint_of(k, ascii_u8("base_price"@))->Some_0);
            assert(d.deep_view().created_date == req_ts_of(k, ascii_u8("created_date"@))->Some_0);
            assert(d.deep_view().expiration_date == req_ts_of(k, ascii_u8("expiration_date"@))->Some_0);
            assert(d.deep_view().maker == req_addr_obj_of(k, ascii_u8("maker"@))->Some_0);
            assert(d.deep_view().order_hash == req_hash_of(k, ascii_u8("order_hash"@))->Some_0);
            assert(d.deep_view().payment_token == req_payment_token_of(k, ascii_u8("payment_token"@))->Some_0);
            assert(d.deep_view().quantity == req_u64_of(k, ascii_u8("quantity"@))->Some_0);
            assert(d.deep_view().taker == opt_addr_obj_of(k, ascii_u8("taker"@))->Some_0);
        }
        Some(d)
    }
}

/// An offer on a whole collection.
#[derive(Debug)]
pub struct CollectionOfferData {
    pub asset_contract_criteria: Address,
    pub base_price: BigUint,
    pub collection: Collection,
    pub collection_criteria: CollectionCriteria,
    pub created_date: Timestamp,
    pub event_timestamp: Timestamp,
    pub expiration_date: Timestamp,
    pub maker: Address,
    pub order_hash: Hash256,
    pub payment_token: PaymentToken,
    pub protocol_address: Address,
    pub protocol_data: ProtocolData,
    pub quantity: u64,
    pub taker: Option<Address>,
}

/// The mathematical shape of [`CollectionOfferData`].
pub struct CollectionOfferDataV {
    pub asset_contract_criteria: Seq<u8>,
    pub base_price: Seq<u8>,
    pub collection: Seq<u8>,
    pub collection_criteria: Seq<u8>,
    pub created_date: Timestamp,
    pub event_timestamp: Timestamp,
    pub expiration_date: Timestamp,
    pub maker: Seq<u8>,
    pub order_hash: Seq<u8>,
    pub payment_token: PaymentTokenV,
    pub protocol_address: Seq<u8>,
    pub protocol_data: ProtocolDataV,
    pub quantity: u64,
    pub taker: Option<Seq<u8>>,
}

impl DeepView for CollectionOfferData {
    type V = CollectionOfferDataV;

    open spec fn deep_view(&self) -> CollectionOfferDataV {
        CollectionOfferDataV {
            asset_contract_criteria: self.asset_contract_criteria.deep_view(),
            base_price: self.base_price.deep_view(),
            collection: self.collection.deep_view(),
            collection_criteria: self.collection_criteria.deep_view(),
            created_date: self.created_date,
            event_timestamp: self.event_timestamp,
            expiration_date: self.expiration_date,
            maker: self.maker.deep_view(),
            order_hash: self.order_hash.deep_view(),
            payment_token: self.payment_token.deep_view(),
            protocol_address: self.protocol_address.deep_view(),
            protocol_data: self.protocol_data.deep_view(),
            quantity: self.quantity,
            taker: self.taker.deep_view(),
        }
    }
}

pub open spec fn collection_offer_of_json(v: JsonV) -> Option<CollectionOfferDataV> {
    if req_addr_obj_of(v, ascii_u8("asset_contract_criteria"@)) is Some && req_bigint_of(v, ascii_u8("base_price"@)) is Some && req_collection_of(v, ascii_u8("collection"@)) is Some && req_collection_criteria_of(v, ascii_u8("collection_criteria"@)) is Some && req_ts_of(v, ascii_u8("created_date"@)) is Some && req_ts_of(v, ascii_u8("event_timestamp"@)) is Some && req_ts_of(v, ascii_u8("expiration_date"@)) is Some && req_addr_obj_of(v, ascii_u8("maker"@)) is Some && req_hash_of(v, ascii_u8("order_hash"@)) is Some && req_payment_token_of(v, ascii_u8("payment_token"@)) is Some && req_addr_bare_of(v, ascii_u8("protocol_address"@)) is Some && req_protocol_data_of(v, ascii_u8("protocol_data"@)) is Some && req_u64_of(v, ascii_u8("quantity"@)) is Some && opt_addr_obj_of(v, ascii_u8("taker"@)) is Some {
        Some(
            CollectionOfferDataV {
                asset_contract_criteria: req_addr_obj_of(v, ascii_u8("asset_contract_criteria"@))->Some_0,
                base_price: req_bigint_of(v, ascii_u8("base_price"@))->Some_0,
                collection: req_collection_of(v, ascii_u8("collection"@))->Some_0,
                collection_criteria: req_collection_criteria_of(v, ascii_u8("collection_criteria"@))->Some_0,
                created_date: req_ts_of(v, ascii_u8("created_date"@))->Some_0,
                event_timestamp: req_ts_of(v, ascii_u8("event_timestamp"@))->Some_0,
                expiration_date: req_ts_of(v, ascii_u8("expiration_date"@))->Some_0,
                maker: req_addr_obj_of(v, ascii_u8("maker"@))->Some_0,
                order_hash: req_hash_of(v, ascii_u8("order_hash"@))->Some_0,
                payment_token: req_payment_token_of(v, ascii_u8("payment_token"@))->Some_0,
                protocol_address: req_addr_bare_of(v, ascii_u8("protocol_address"@))->Some_0,
                protocol_data: req_protocol_data_of(v, ascii_u8("protocol_data"@))->Some_0,
                quantity: req_u64_of(v, ascii_u8("quantity"@))->Some_0,
                taker: opt_addr_obj_of(v, ascii_u8("taker"@))->Some_0,
            },
        )
    } else {
        None
    }
}

impl CollectionOfferData {
    #[verifier::rlimit(100)]
    pub fn decode(v: &Json) -> (r: Option<CollectionOfferData>)
        ensures
            match r {
                Some(d) => collection_offer_of_json(v@) == Some(d.deep_view()),
                None => collection_offer_of_json(v@) is None,
            },
    {
        proof {
            reveal_strlit("asset_contract_criteria");
            reveal_strlit("base_price");
            reveal_strlit("collection");
            reveal_strlit("collection_criteria");
            reveal_strlit("created_date");
            reveal_strlit("event_timestamp");
            reveal_strlit("expiration_date");
            reveal_strlit("maker");
            reveal_strlit("order_hash");
            reveal_strlit("payment_token");
            reveal_strlit("protocol_address");
            reveal_strlit("protocol_data");
            reveal_strlit("quantity");
            reveal_strlit("taker");
        }
        let asset_contract_criteria = match x_req_addr_obj(v, "asset_contract_criteria") {
            Some(x) => x,
            None => {
                return None;
            },
        };
        let base_price = match x_req_bigint(v, "base_price") {
            Some(x) => x,
            None => {
                return None;
            },
        };
        let collection = match x_req_collection(v, "collection") {
            Some(x) => x,
            None => {
                return None;
            },
        };
        let collection_criteria = match x_req_collection_criteria(v, "collection_criteria") {
            Some(x) => x,
            None => {
                return None;
            },
        };
        let created_date = match x_req_ts(v, "created_date") {
            Some(x) => x,
            None => {
                return None;
            },
        };
        let event_timestamp = match x_req_ts(v, "event_timestamp") {
            Some(x) => x,
            None => {
                return None;
            },
        };
        let expiration_date = match x_req_ts(v, "expiration_date") {
            Some(x) => x,
            None => {
                return None;
            },
        };
        let maker = match x_req_addr_obj(v, "maker") {
            Some(x) => x,
            None => {
                return None;
            },
        };
        let order_hash = match x_req_hash(v, "order_hash") {
            Some(x) => x,
            None => {
                return None;
            },
        };
        let payment_token = match x_req_payment_token(v, "payment_token") {
            Some(x) => x,
            None => {
                return None;
            },
        };
        let protocol_address = match x_req_addr_bare(v, "protocol_address") {
            Some(x) => x,
            None => {
                return None;
            },
        };
        let protocol_data = match x_req_protocol_data(v, "protocol_data") {
            Some(x) => x,
            None => {
                return None;
            },
        };
        let quantity = match x_req_u64(v, "quantity") {
            Some(x) => x,
            None => {
                return None;
            },
        };
        let taker = match x_opt_addr_obj(v, "taker") {
            Some(x) => x,
            None => {
                return None;
            },
        };
        let d = CollectionOfferData { asset_contract_criteria, base_price, collection, collection_criteria, created_date, event_timestamp, expiration_date, maker, order_hash, payment_token, protocol_address, protocol_data, quantity, taker };
        proof {
            let k = v@;
            assert(collection_offer_of_json(k) is Some);
            assert(d.deep_view().asset_contract_criteria == req_addr_obj_of(k, ascii_u8("asset_contract_criteria"@))->Some_0);
            assert(d.deep_view().base_price == req_bigint_of(k, ascii_u8("base_price"@))->Some_0);
            assert(d.deep_view().collection == req_collection_of(k, ascii_u8("collection"@))->Some_0);
            assert(d.deep_view().collection_criteria == req_collection_criteria_of(k, ascii_u8("collection_criteria"@))->Some_0);
            assert(d.deep_view().created_date == req_ts_of(k, ascii_u8("created_date"@))->Some_0);
            assert(d.deep_view().event_timestamp == req_ts_of(k, ascii_u8("event_timestamp"@))->Some_0);
            assert(d.deep_view().expiration_date == req_ts_of(k, ascii_u8("expiration_date"@))->Some_0);
            assert(d.deep_view().maker == req_addr_obj_of(k, ascii_u8("maker"@))->Some_0);
            assert(d.deep_view().order_hash == req_hash_of(k, ascii_u8("order_hash"@))->Some_0);
            assert(d.deep_view().payment_token == req_payment_token_of(k, ascii_u8("payment_token"@))->Some_0);
            assert(d.deep_view().protocol_address == req_addr_bare_of(k, ascii_u8("protocol_address"@))->Some_0);
            assert(d.deep_view().protocol_data == req_protocol_data_of(k, ascii_u8("protocol_data"@))->Some_0);
            assert(d.deep_view().quantity == req_u64_of(k, ascii_u8("quantity"@))->Some_0);
            assert(d.deep_view().taker == opt_addr_obj_of(k, ascii_u8("taker"@))->Some_0);
        }
        Some(d)
    }
}

/// An offer on every item with a trait.
#[derive(Debug)]
pub struct TraitOfferData {
    pub asset_contract_criteria: Address,
    pub base_price: BigUint,
    pub collection: Collection,
    pub collection_criteria: CollectionCriteria,
    pub created_date: Timestamp,
    pub event_timestamp: Timestamp,
    pub expiration_date: Timestamp,
    pub maker: Address,
    pub order_hash: Hash256,
    pub payment_token: PaymentToken,
    pub protocol_address: Address,
    pub protocol_data: ProtocolData,
    pub quantity: u64,
    pub taker: Option<Address>,
    pub trait_criteria: TraitCriteria,
}

/// The mathematical shape of [`TraitOfferData`].
pub struct TraitOfferDataV {
    pub asset_contract_criteria: Seq<u8>,
    pub base_price: Seq<u8>,
    pub collection: Seq<u8>,
    pub collection_criteria: Seq<u8>,
    pub created_date: Timestamp,
    pub event_timestamp: Timestamp,
    pub expiration_date: Timestamp,
    pub maker: Seq<u8>,
    pub order_hash: Seq<u8>,
    pub payment_token: PaymentTokenV,
    pub protocol_address: Seq<u8>,
    pub protocol_data: ProtocolDataV,
    pub quantity: u64,
    pub taker: Option<Seq<u8>>,
    pub trait_criteria: TraitCriteriaV,
}

impl DeepView for TraitOfferData {
    type V = TraitOfferDataV;

    open spec fn deep_view(&self) -> TraitOfferDataV {
        TraitOfferDataV {
            asset_contract_criteria: self.asset_contract_criteria.deep_view(),
            base_price: self.base_price.deep_view(),
            collection: self.collection.deep_view(),
            collection_criteria: self.collection_criteria.deep_view(),
            created_date: self.created_date,
            event_timestamp: self.event_timestamp,
            expiration_date: self.expiration_date,
            maker: self.maker.deep_view(),
            order_hash: self.order_hash.deep_view(),
            payment_token: self.payment_token.deep_view(),
            protocol_address: self.protocol_address.deep_view(),
            protocol_data: self.protocol_data.deep_view(),
            quantity: self.quantity,
            taker: self.taker.deep_view(),
            trait_criteria: self.trait_criteria.deep_view(),
        }
    }
}

pub open spec fn trait_offer_of_json(v: JsonV) -> Option<TraitOfferDataV> {
    if req_addr_obj_of(v, ascii_u8("asset_contract_criteria"@)) is Some && req_bigint_of(v, ascii_u8("base_price"@)) is Some && req_collection_of(v, ascii_u8("collection"@)) is Some && req_collection_criteria_of(v, ascii_u8("collection_criteria"@)) is Some && req_ts_of(v, ascii_u8("created_date"@)) is Some && req_ts_of(v, ascii_u8("event_timestamp"@)) is Some && req_ts_of(v, ascii_u8("expiration_date"@)) is Some && req_addr_obj_of(v, ascii_u8("maker"@)) is Some && req_hash_of(v, ascii_u8("order_hash"@)) is Some && req_payment_token_of(v, ascii_u8("payment_token"@)) is Some && req_addr_bare_of(v, ascii_u8("protocol_address"@)) is Some && req_protocol_data_of(v, ascii_u8("protocol_data"@)) is Some && req_u64_of(v, ascii_u8("quantity"@)) is Some && opt_addr_obj_of(v, ascii_u8("taker"@)) is Some && req_trait_criteria_of(v, ascii_u8("trait_criteria"@)) is Some {
        Some(
            TraitOfferDataV {
                asset_contract_criteria: req_addr_obj_of(v, ascii_u8("asset_contract_criteria"@))->Some_0,
                base_price: req_bigint_of(v, ascii_u8("base_price"@))->Some_0,
                collection: req_collection_of(v, ascii_u8("collection"@))->Some_0,
                collection_criteria: req_collection_criteria_of(v, ascii_u8("collection_criteria"@))->Some_0,
                created_date: req_ts_of(v, ascii_u8("created_date"@))->Some_0,
                event_timestamp: req_ts_of(v, ascii_u8("event_timestamp"@))->Some_0,
                expiration_date: req_ts_of(v, ascii_u8("expiration_date"@))->Some_0,
                maker: req_addr_obj_of(v, ascii_u8("maker"@))->Some_0,
                order_hash: req_hash_of(v, ascii_u8("order_hash"@))->Some_0,
                payment_token: req_payment_token_of(v, ascii_u8("payment_token"@))->Some_0,
                protocol_address: req_addr_bare_of(v, ascii_u8("protocol_address"@))->Some_0,
                protocol_data: req_protocol_data_of(v, ascii_u8("protocol_data"@))->Some_0,
                quantity: req_u64_of(v, ascii_u8("quantity"@))->Some_0,
                taker: opt_addr_obj_of(v, ascii_u8("taker"@))->Some_0,
                trait_criteria: req_trait_criteria_of(v, ascii_u8("trait_criteria"@))->Some_0,
            },
        )
    } else {
        None
    }
}

impl TraitOfferData {
    #[verifier::rlimit(100)]
    pub fn decode(v: &Json) -> (r: Option<TraitOfferData>)
        ensures
            match r {
                Some(d) => trait_offer_of_json(v@) == Some(d.deep_view()),
                None => trait_offer_of_json(v@) is None,
            },
    {
        proof {
            reveal_strlit("asset_contract_criteria");
            reveal_strlit("base_price");
            reveal_strlit("collection");
            reveal_strlit("collection_criteria");
            reveal_strlit("created_date");
            reveal_strlit("event_timestamp");
            reveal_strlit("expiration_date");
            reveal_strlit("maker");
            reveal_strlit("order_hash");
            reveal_strlit("payment_token");
            reveal_strlit("protocol_address");
            reveal_strlit("protocol_data");
            reveal_strlit("quantity");
            reveal_strlit("taker");
            reveal_strlit("trait_criteria");
        }
        let asset_contract_criteria = match x_req_addr_obj(v, "asset_contract_criteria") {
            Some(x) => x,
            None => {
                return None;
            },
        };
        let base_price = match x_req_bigint(v, "base_price") {
            Some(x) => x,
            None => {
                return None;
            },
        };
        let collection = match x_req_collection(v, "collection") {
            Some(x) => x,
            None => {
                return None;
            },
        };
        let collection_criteria = match x_req_collection_criteria(v, "collection_criteria") {
            Some(x) => x,
            None => {
                return None;
            },
        };
        let created_date = match x_req_ts(v, "created_date") {
            Some(x) => x,
            None => {
                return None;
            },
        };
        let event_timestamp = match x_req_ts(v, "event_timestamp") {
            Some(x) => x,
            None => {
                return None;
            },
        };
        let expiration_date = match x_req_ts(v, "expiration_date") {
            Some(x) => x,
            None => {
                return None;
            },
        };
        let maker = match x_req_addr_obj(v, "maker") {
            Some(x) => x,
            None => {
                return None;
            },
        };
        let order_hash = match x_req_hash(v, "order_hash") {
            Some(x) => x,
            None => {
                return None;
            },
        };
        let payment_token = match x_req_payment_token(v, "payment_token") {
            Some(x) => x,
            None => {
                return None;
            },
        };
        let protocol_address = match x_req_addr_bare(v, "protocol_address") {
            Some(x) => x,
            None => {
                return None;
            },
        };
        let protocol_data = match x_req_protocol_data(v, "protocol_data") {
            Some(x) => x,
            None => {
                return None;
            },
        };
        let quantity = match x_req_u64(v, "quantity") {
            Some(x) => x,
            None => {
                return None;
            },
        };
        let taker = match x_opt_addr_obj(v, "taker") {
            Some(x) => x,
            None => {
                return None;
            },
        };
        let trait_criteria = match x_req_trait_criteria(v, "trait_criteria") {
            Some(x) => x,
            None => {
                return None;
            },
        };
        let d = TraitOfferData { asset_contract_criteria, base_price, collection, collection_criteria, created_date, event_timestamp, expiration_date, maker, order_hash, payment_token, protocol_address, protocol_data, quantity, taker, trait_criteria };
        proof {
            let k = v@;
            assert(trait_offer_of_json(k) is Some);
            assert(d.deep_view().asset_contract_criteria == req_addr_obj_of(k, ascii_u8("asset_contract_criteria"@))->Some_0);
            assert(d.deep_view().base_price == req_bigint_of(k, ascii_u8("base_price"@))->Some_0);
            assert(d.deep_view().collection == req_collection_of(k, ascii_u8("collection"@))->Some_0);
            assert(d.deep_view().collection_criteria == req_collection_criteria_of(k, ascii_u8("collection_criteria"@))->Some_0);
            assert(d.deep_view().created_date == req_ts_of(k, ascii_u8("created_date"@))->Some_0);
            assert(d.deep_view().event_timestamp == req_ts_of(k, ascii_u8("event_timestamp"@))->Some_0);
            assert(d.deep_view().expiration_date == req_ts_of(k, ascii_u8("expiration_date"@))->Some_0);
            assert(d.deep_view().maker == req_addr_obj_of(k, ascii_u8("maker"@))->Some_0);
            assert(d.deep_view().order_hash == req_hash_of(k, ascii_u8("order_hash"@))->Some_0);
            assert(d.deep_view().payment_token == req_payment_token_of(k, ascii_u8("payment_token"@))->Some_0);
            assert(d.deep_view().protocol_address == req_addr_bare_of(k, ascii_u8("protocol_address"@))->Some_0);
            assert(d.deep_view().protocol_data == req_protocol_data_of(k, ascii_u8("protocol_data"@))->Some_0);
            assert(d.deep_view().quantity == req_u64_of(k, ascii_u8("quantity"@))->Some_0);
            assert(d.deep_view().taker == opt_addr_obj_of(k, ascii_u8("taker"@))->Some_0);
            assert(d.deep_view().trait_criteria == req_trait_criteria_of(k, ascii_u8("trait_criteria"@))->Some_0);
        }
        Some(d)
    }
}

/// An order that became unfulfillable; it may never have been given a hash.
#[derive(Debug, Clone)]
pub struct OrderInvalidateData {
    pub chain: Chain,
    pub collection: Collection,
    pub event_timestamp: Timestamp,
    pub item: Item,
    pub order_hash: Option<Hash256>,
    pub protocol_address: Address,
}

/// The mathematical shape of [`OrderInvalidateData`].
pub struct OrderInvalidateDataV {
    pub chain: Chain,
    pub collection: Seq<u8>,
    pub event_timestamp: Timestamp,
    pub item: ItemV,
    pub order_hash: Option<Seq<u8>>,
    pub protocol_address: Seq<u8>,
}

impl DeepView for OrderInvalidateData {
    type V = OrderInvalidateDataV;

    open spec fn deep_view(&self) -> OrderInvalidateDataV {
        OrderInvalidateDataV {
            chain: self.chain,
            collection: self.collection.deep_view(),
            event_timestamp: self.event_timestamp,
            item: self.item.deep_view(),
            order_hash: self.order_hash.deep_view(),
            protocol_address: self.protocol_address.deep_view(),
        }
    }
}

pub open spec fn order_invalidate_of_json(v: JsonV) -> Option<OrderInvalidateDataV> {
    if req_chain_of(v, ascii_u8("chain"@)) is Some && req_collection_of(v, ascii_u8("collection"@)) is Some && req_ts_of(v, ascii_u8("event_timestamp"@)) is Some && req_item_of(v, ascii_u8("item"@)) is Some && opt_hash_of(v, ascii_u8("order_hash"@)) is Some && req_addr_bare_of(v, ascii_u8("protocol_address"@)) is Some {
        Some(
            OrderInvalidateDataV {
                chain: req_chain_of(v, ascii_u8("chain"@))->Some_0,
                collection: req_collection_of(v, ascii_u8("collection"@))->Some_0,
                event_timestamp: req_ts_of(v, ascii_u8("event_timestamp"@))->Some_0,
                item: req_item_of(v, ascii_u8("item"@))->Some_0,
                order_hash: opt_hash_of(v, ascii_u8("order_hash"@))->Some_0,
                protocol_address: req_addr_bare_of(v, ascii_u8("protocol_address"@))->Some_0,
            },
        )
    } else {
        None
    }
}

impl OrderInvalidateData {
    #[verifier::rlimit(100)]
    pub fn decode(v: &Json) -> (r: Option<OrderInvalidateData>)
        ensures
            match r {
                Some(d) => order_invalidate_of_json(v@) == Some(d.deep_view()),
                None => order_invalidate_of_json(v@) is None,
            },
    {
        proof {
            reveal_strlit("chain");
            reveal_strlit("collection");
            reveal_strlit("event_timestamp");
            reveal_strlit("item");
            reveal_strlit("order_hash");
            reveal_strlit("protocol_address");
        }
        let chain = match x_req_chain(v, "chain") {
            Some(x) => x,
            None => {
                return None;
            },
        };
        let collection = match x_req_collection(v, "collection") {
            Some(x) => x,
            None => {
                return None;
            },
        };
        let event_timestamp = match x_req_ts(v, "event_timestamp") {
            Some(x) => x,
            None => {
                return None;
            },
        };
        let item = match x_req_item(v, "item") {
            Some(x) => x,
            None => {
                return None;
            },
        };
        let order_hash = match x_opt_hash(v, "order_hash") {
            Some(x) => x,
            None => {
                return None;
            },
        };
        let protocol_address = match x_req_addr_bare(v, "protocol_address") {
            Some(x) => x,
            None => {
                return None;
            },
        };
        let d = OrderInvalidateData { chain, collection, event_timestamp, item, order_hash, protocol_address };
        proof {
            let k = v@;
            assert(order_invalidate_of_json(k) is Some);
            assert(d.deep_view().chain == req_chain_of(k, ascii_u8("chain"@))->Some_0);
            assert(d.deep_view().collection == req_collection_of(k, ascii_u8("collection"@))->Some_0);
            assert(d.deep_view().event_timestamp == req_ts_of(k, ascii_u8("event_timestamp"@))->Some_0);
            assert(d.deep_view().item == req_item_of(k, ascii_u8("item"@))->Some_0);
            assert(d.deep_view().order_hash == opt_hash_of(k, ascii_u8("order_hash"@))->Some_0);
            assert(d.deep_view().protocol_address == req_addr_bare_of(k, ascii_u8("protocol_address"@))->Some_0);
        }
        Some(d)
    }
}

/// An order that became fulfillable again.
#[derive(Debug, Clone)]
pub struct OrderRevalidateData {
    pub chain: Chain,
    pub collection: Collection,
    pub event_timestamp: Timestamp,
    pub item: Item,
    pub order_hash: Hash256,
    pub protocol_address: Address,
}

/// The mathematical shape of [`OrderRevalidateData`].
pub struct OrderRevalidateDataV {
    pub chain: Chain,
    pub collection: Seq<u8>,
    pub event_timestamp: Timestamp,
    pub item: ItemV,
    pub order_hash: Seq<u8>,
    pub protocol_address: Seq<u8>,
}

impl DeepView for OrderRevalidateData {
    type V = OrderRevalidateDataV;

    open spec fn deep_view(&self) -> OrderRevalidateDataV {
        OrderRevalidateDataV {
            chain: self.chain,
            collection: self.collection.deep_view(),
            event_timestamp: self.event_timestamp,
            item: self.item.deep_view(),
            order_hash: self.order_hash.deep_view(),
            protocol_address: self.protocol_address.deep_view(),
        }
    }
}

pub open spec fn order_revalidate_of_json(v: JsonV) -> Option<OrderRevalidateDataV> {
    if req_chain_of(v, ascii_u8("chain"@)) is Some && req_collection_of(v, ascii_u8("collection"@)) is Some && req_ts_of(v, ascii_u8("event_timestamp"@)) is Some && req_item_of(v, ascii_u8("item"@)) is Some && req_hash_of(v, ascii_u8("order_hash"@)) is Some && req_addr_bare_of(v, ascii_u8("protocol_address"@)) is Some {
        Some(
            OrderRevalidateDataV {
                chain: req_chain_of(v, ascii_u8("chain"@))->Some_0,
                collection: req_collection_of(v, ascii_u8("collection"@))->Some_0,
                event_timestamp: req_ts_of(v, ascii_u8("event_timestamp"@))->Some_0,
                item: req_item_of(v, ascii_u8("item"@))->Some_0,
                order_hash: req_hash_of(v, ascii_u8("order_hash"@))->Some_0,
                protocol_address: req_addr_bare_of(v, ascii_u8("protocol_address"@))->Some_0,
            },
        )
    } else {
        None
    }
}

impl OrderRevalidateData {
    #[verifier::rlimit(100)]
    pub fn decode(v: &Json) -> (r: Option<OrderRevalidateData>)
        ensures
            match r {
                Some(d) => order_revalidate_of_json(v@) == Some(d.deep_view()),
                None => order_revalidate_of_json(v@) is None,
            },
    {
        proof {
            reveal_strlit("chain");
            reveal_strlit("collection");
            reveal_strlit("event_timestamp");
            reveal_strlit("item");
            reveal_strlit("order_hash");
            reveal_strlit("protocol_address");
        }
        let chain = match x_req_chain(v, "chain") {
            Some(x) => x,
            None => {
                return None;
            },
        };
        let collection = match x_req_collection(v, "collection") {
            Some(x) => x,
            None => {
                return None;
            },
        };
        let event_timestamp = match x_req_ts(v, "event_timestamp") {
            Some(x) => x,
            None => {
                return None;
            },
        };
        let item = match x_req_item(v, "item") {
            Some(x) => x,
            None => {
                return None;
            },
        };
        let order_hash = match x_req_hash(v, "order_hash") {
            Some(x) => x,
            None => {
                return None;
            },
        };
        let protocol_address = match x_req_addr_bare(v, "protocol_address") {
            Some(x) => x,
            None => {
                return None;
            },
        };
        let d = OrderRevalidateData { chain, collection, event_timestamp, item, order_hash, protocol_address };
        proof {
            let k = v@;
            assert(order_revalidate_of_json(k) is Some);
            assert(d.deep_view().chain == req_chain_of(k, ascii_u8("chain"@))->Some_0);
            assert(d.deep_view().collection == req_collection_of(k, ascii_u8("collection"@))->Some_0);
            assert(d.deep_view().event_timestamp == req_ts_of(k, ascii_u8("event_timestamp"@))->Some_0);
            assert(d.deep_view().item == req_item_of(k, ascii_u8("item"@))->Some_0);
            assert(d.deep_view().order_hash == req_hash_of(k, ascii_u8("order_hash"@))->Some_0);
            assert(d.deep_view().protocol_address == req_addr_bare_of(k, ascii_u8("protocol_address"@))->Some_0);
        }
        Some(d)
    }
}

// -------------------------------------------------------------------------
// The tagged union and the enclosing domain event.
// -------------------------------------------------------------------------

/// The content of a domain event: one of the eleven payload shapes, keyed
/// on the wire by the `event_type` string.
#[derive(Debug)]
pub enum Payload {
    ItemListed(ItemListedData),
    ItemSold(ItemSoldData),
    ItemTransferred(ItemTransferredData),
    ItemMetadataUpdated(ItemMetadataUpdatedData),
    ItemCancelled(ItemCancelledData),
    ItemReceivedOffer(ItemReceivedOfferData),
    ItemReceivedBid(ItemReceivedBidData),
    CollectionOffer(CollectionOfferData),
    TraitOffer(TraitOfferData),
    OrderInvalidate(OrderInvalidateData),
    OrderRevalidate(OrderRevalidateData),
}

/// The mathematical shape of [`Payload`].
pub enum PayloadV {
    ItemListed(ItemListedDataV),
    ItemSold(ItemSoldDataV),
    ItemTransferred(ItemTransferredDataV),
    ItemMetadataUpdated(ItemMetadataUpdatedDataV),
    ItemCancelled(ItemCancelledDataV),
    ItemReceivedOffer(ItemReceivedOfferDataV),
    ItemReceivedBid(ItemReceivedBidDataV),
    CollectionOffer(CollectionOfferDataV),
    TraitOffer(TraitOfferDataV),
    OrderInvalidate(OrderInvalidateDataV),
    OrderRevalidate(OrderRevalidateDataV),
}

impl DeepView for Payload {
    type V = PayloadV;

    open spec fn deep_view(&self) -> PayloadV {
        match self {
            Payload::ItemListed(d) => PayloadV::ItemListed(d.deep_view()),
            Payload::ItemSold(d) => PayloadV::ItemSold(d.deep_view()),
            Payload::ItemTransferred(d) => PayloadV::ItemTransferred(d.deep_view()),
            Payload::ItemMetadataUpdated(d) => PayloadV::ItemMetadataUpdated(d.deep_view()),
            Payload::ItemCancelled(d) => PayloadV::ItemCancelled(d.deep_view()),
            Payload::ItemReceivedOffer(d) => PayloadV::ItemReceivedOffer(d.deep_view()),
            Payload::ItemReceivedBid(d) => PayloadV::ItemReceivedBid(d.deep_view()),
            Payload::CollectionOffer(d) => PayloadV::CollectionOffer(d.deep_view()),
            Payload::TraitOffer(d) => PayloadV::TraitOffer(d.deep_view()),
            Payload::OrderInvalidate(d) => PayloadV::OrderInvalidate(d.deep_view()),
            Payload::OrderRevalidate(d) => PayloadV::OrderRevalidate(d.deep_view()),
        }
    }
}

/// The payload denoted by a discriminator tag and a payload value.  An
/// unrecognised tag is refused here, and the caller drops the message.
pub open spec fn payload_of_json(tag: Seq<u8>, p: JsonV) -> Option<PayloadV> {
    if tag == ascii_u8("item_listed"@) {
        match listed_of_json(p) {
            Some(d) => Some(PayloadV::ItemListed(d)),
            None => None,
        }
    } else if tag == ascii_u8("item_sold"@) {
        match sold_of_json(p) {
            Some(d) => Some(PayloadV::ItemSold(d)),
            None => None,
        }
    } else if tag == ascii_u8("item_transferred"@) {
        match transferred_of_json(p) {
            Some(d) => Some(PayloadV::ItemTransferred(d)),
            None => None,
        }
    } else if tag == ascii_u8("item_metadata_updated"@) {
        match metadata_updated_of_json(p) {
            Some(d) => Some(PayloadV::ItemMetadataUpdated(d)),
            None => None,
        }
    } else if tag == ascii_u8("item_cancelled"@) {
        match cancelled_of_json(p) {
            Some(d) => Some(PayloadV::ItemCancelled(d)),
            None => None,
        }
    } else if tag == ascii_u8("item_received_offer"@) {
        match received_offer_of_json(p) {
            Some(d) => Some(PayloadV::ItemReceivedOffer(d)),
            None => None,
        }
    } else if tag == ascii_u8("item_received_bid"@) {
        match received_bid_of_json(p) {
            Some(d) => Some(PayloadV::ItemReceivedBid(d)),
            None => None,
        }
    } else if tag == ascii_u8("collection_offer"@) {
        match collection_offer_of_json(p) {
            Some(d) => Some(PayloadV::CollectionOffer(d)),
            None => None,
        }
    } else if tag == ascii_u8("trait_offer"@) {
        match trait_offer_of_json(p) {
            Some(d) => Some(PayloadV::TraitOffer(d)),
            None => None,
        }
    } else if tag == ascii_u8("order_invalidate"@) {
        match order_invalidate_of_json(p) {
            Some(d) => Some(PayloadV::OrderInvalidate(d)),
            None => None,
        }
    } else if tag == ascii_u8("order_revalidate"@) {
        match order_revalidate_of_json(p) {
            Some(d) => Some(PayloadV::OrderRevalidate(d)),
            None => None,
        }
    } else {
        None
    }
}

/// The protocol-level event kind of a payload.
pub open spec fn event_of_payload(p: PayloadV) -> Event {
    match p {
        PayloadV::ItemListed(_) => Event::ItemListed,
        PayloadV::ItemSold(_) => Event::ItemSold,
        PayloadV::ItemTransferred(_) => Event::ItemTransferred,
        PayloadV::ItemMetadataUpdated(_) => Event::ItemMetadataUpdated,
        PayloadV::ItemCancelled(_) => Event::ItemCancelled,
        PayloadV::ItemReceivedOffer(_) => Event::ItemReceivedOffer,
        PayloadV::ItemReceivedBid(_) => Event::ItemReceivedBid,
        PayloadV::CollectionOffer(_) => Event::CollectionOffer,
        PayloadV::TraitOffer(_) => Event::TraitOffer,
        PayloadV::OrderInvalidate(_) => Event::OrderInvalidate,
        PayloadV::OrderRevalidate(_) => Event::OrderRevalidate,
    }
}

impl Payload {
    /// The protocol-level kind of this payload.
    pub fn event(&self) -> (r: Event)
        ensures
            r == event_of_payload(self.deep_view()),
    {
        match self {
            Payload::ItemListed(_) => Event::ItemListed,
            Payload::ItemSold(_) => Event::ItemSold,
            Payload::ItemTransferred(_) => Event::ItemTransferred,
            Payload::ItemMetadataUpdated(_) => Event::ItemMetadataUpdated,
            Payload::ItemCancelled(_) => Event::ItemCancelled,
            Payload::ItemReceivedOffer(_) => Event::ItemReceivedOffer,
            Payload::ItemReceivedBid(_) => Event::ItemReceivedBid,
            Payload::CollectionOffer(_) => Event::CollectionOffer,
            Payload::TraitOffer(_) => Event::TraitOffer,
            Payload::OrderInvalidate(_) => Event::OrderInvalidate,
            Payload::OrderRevalidate(_) => Event::OrderRevalidate,
        }
    }
}

impl From<Payload> for Event {
    fn from(val: Payload) -> (r: Event) {
        val.event()
    }
}

impl vstd::std_specs::convert::FromSpecImpl<Payload> for Event {
    open spec fn obeys_from_spec() -> bool {
        true
    }

    open spec fn from_spec(t: Payload) -> Event {
        event_of_payload(t.deep_view())
    }
}

/// A domain event: when it was sent, and its payload.
#[derive(Debug)]
pub struct StreamEvent {
    pub sent_at: Timestamp,
    pub payload: Payload,
}

/// The mathematical shape of [`StreamEvent`].
pub struct StreamEventV {
    pub sent_at: Timestamp,
    pub payload: PayloadV,
}

impl DeepView for StreamEvent {
    type V = StreamEventV;

    open spec fn deep_view(&self) -> StreamEventV {
        StreamEventV { sent_at: self.sent_at, payload: self.payload.deep_view() }
    }
}

/// The domain event wire shape: `sent_at`, the `event_type` discriminator,
/// and the `payload` it selects.
pub open spec fn stream_event_of_json(v: JsonV) -> Option<StreamEventV> {
    match req_ts_of(v, ascii_u8("sent_at"@)) {
        Some(sent_at) => match req_str_of(v, ascii_u8("event_type"@)) {
            Some(tag) => match get_field(v, ascii_u8("payload"@)) {
                Some(p) => match payload_of_json(tag, p) {
                    Some(payload) => Some(StreamEventV { sent_at, payload }),
                    None => None,
                },
                None => None,
            },
            None => None,
        },
        None => None,
    }
}

impl StreamEvent {
    /// Reads a domain event; exactly the values [`stream_event_of_json`]
    /// accepts are taken, and an unrecognised `event_type` is refused.
    #[verifier::rlimit(100)]
    pub fn decode(v: &Json) -> (r: Option<StreamEvent>)
        ensures
            match r {
                Some(e) => stream_event_of_json(v@) == Some(e.deep_view()),
                None => stream_event_of_json(v@) is None,
            },
    {
        proof {
            reveal_strlit("sent_at");
            reveal_strlit("event_type");
            reveal_strlit("payload");
            reveal_strlit("item_listed");
            reveal_strlit("item_sold");
            reveal_strlit("item_transferred");
            reveal_strlit("item_metadata_updated");
            reveal_strlit("item_cancelled");
            reveal_strlit("item_received_offer");
            reveal_strlit("item_received_bid");
            reveal_strlit("collection_offer");
            reveal_strlit("trait_offer");
            reveal_strlit("order_invalidate");
            reveal_strlit("order_revalidate");
        }
        let sent_at = match x_req_ts(v, "sent_at") {
            Some(t) => t,
            None => {
                return None;
            },
        };
        let tag = match x_req_str(v, "event_type") {
            Some(s) => s,
            None => {
                return None;
            },
        };
        let p = match json_field(v, "payload") {
            Some(f) => f,
            None => {
                return None;
            },
        };
        let payload = if bytes_are(&tag, "item_listed") {
            match ItemListedData::decode(p) {
                Some(d) => Payload::ItemListed(d),
                None => {
                    return None;
                },
            }
        } else if bytes_are(&tag, "item_sold") {
            match ItemSoldData::decode(p) {
                Some(d) => Payload::ItemSold(d),
                None => {
                    return None;
                },
            }
        } else if bytes_are(&tag, "item_transferred") {
            match ItemTransferredData::decode(p) {
                Some(d) => Payload::ItemTransferred(d),
                None => {
                    return None;
                },
            }
        } else if bytes_are(&tag, "item_metadata_updated") {
            match ItemMetadataUpdatedData::decode(p) {
                Some(d) => Payload::ItemMetadataUpdated(d),
                None => {
                    return None;
                },
            }
        } else if bytes_are(&tag, "item_cancelled") {
            match ItemCancelledData::decode(p) {
                Some(d) => Payload::ItemCancelled(d),
                None => {
                    return None;
                },
            }
        } else if bytes_are(&tag, "item_received_offer") {
            match ItemReceivedOfferData::decode(p) {
                Some(d) => Payload::ItemReceivedOffer(d),
                None => {
                    return None;
                },
            }
        } else if bytes_are(&tag, "item_received_bid") {
            match ItemReceivedBidData::decode(p) {
                Some(d) => Payload::ItemReceivedBid(d),
                None => {
                    return None;
                },
            }
        } else if bytes_are(&tag, "collection_offer") {
            match CollectionOfferData::decode(p) {
                Some(d) => Payload::CollectionOffer(d),
                None => {
                    return None;
                },
            }
        } else if bytes_are(&tag, "trait_offer") {
            match TraitOfferData::decode(p) {
                Some(d) => Payload::TraitOffer(d),
                None => {
                    return None;
                },
            }
        } else if bytes_are(&tag, "order_invalidate") {
            match OrderInvalidateData::decode(p) {
                Some(d) => Payload::OrderInvalidate(d),
                None => {
                    return None;
                },
            }
        } else if bytes_are(&tag, "order_revalidate") {
            match OrderRevalidateData::decode(p) {
                Some(d) => Payload::OrderRevalidate(d),
                None => {
                    return None;
                },
            }
        } else {
            return None;
        };
        Some(StreamEvent { sent_at, payload })
    }
}

} // verus!
