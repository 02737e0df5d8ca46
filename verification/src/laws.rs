//! What holds of the registry across its operations.
//!
//! The laws speak of the records of a registry in order and of the mapping
//! that they stand for, its view: the values in which the operations' own
//! contracts are stated.

use crate::index::{
    absorb, distinct_ids, has_id, lemma_absorb_distinct, lemma_record_map_domain,
    lemma_record_map_keys, lemma_record_map_push, lemma_record_map_upsert, lookup, record_map,
    upsert,
};
use crate::model::CameraModel;
use vstd::prelude::*;

verus! {

/// Two creates never assign one id.
///
/// A create takes the registry for itself, so of two creates one comes
/// first. It stores `first` under an id that was not in use; the other then
/// finds that id in use, and the id of what it stores, `second`, is another.
pub proof fn law_creates_assign_distinct_ids(
    before: Seq<CameraModel>,
    first: CameraModel,
    second: CameraModel,
)
    requires
        !record_map(before).contains_key(first.id),
        !record_map(before.push(first)).contains_key(second.id),
    ensures
        first.id != second.id,
{
    lemma_record_map_push(before, first);
}

/// A read of the id that a create returned finds the record that the create
/// returned.
pub proof fn law_get_after_create(before: Seq<CameraModel>, stored: CameraModel)
    ensures
        lookup(record_map(before.push(stored)), stored.id) == Some(stored),
{
    lemma_record_map_push(before, stored);
}

/// A record stays as it is while other ids are written: what a later create
/// or replace stores under another id leaves every read of `id` unchanged.
/// So a read of a created record finds it until a replace names its id.
pub proof fn law_write_leaves_other_ids(
    records: Seq<CameraModel>,
    id: Seq<char>,
    later: CameraModel,
)
    requires
        later.id != id,
    ensures
        lookup(record_map(records.push(later)), id) == lookup(record_map(records), id),
        lookup(record_map(upsert(records, later)), id) == lookup(record_map(records), id),
{
    lemma_record_map_push(records, later);
    lemma_record_map_upsert(records, later);
}

/// An id that is in use stays in use: no write takes an id out of the
/// registry, so no id is ever given to a second camera.
pub proof fn law_ids_stay(records: Seq<CameraModel>, id: Seq<char>, later: CameraModel)
    requires
        record_map(records).contains_key(id),
    ensures
        record_map(records.push(later)).contains_key(id),
        record_map(upsert(records, later)).contains_key(id),
{
    lemma_record_map_push(records, later);
    lemma_record_map_upsert(records, later);
}

/// Every record is stored under its own id: the key of an entry is the id
/// field of its value, in the view of every registry.
pub proof fn law_keys_are_ids(records: Seq<CameraModel>, id: Seq<char>)
    requires
        record_map(records).contains_key(id),
    ensures
        record_map(records)[id].id == id,
        has_id(records, id),
{
    lemma_record_map_keys(records);
    lemma_record_map_domain(records, id);
}

/// A registry made from the listing of a registry has the same records in the
/// same order, and stands for the same mapping.
pub proof fn law_listing_restores(records: Seq<CameraModel>)
    requires
        distinct_ids(records),
    ensures
        absorb(records) == records,
        record_map(absorb(records)) == record_map(records),
{
    lemma_absorb_distinct(records);
}

} // verus!
