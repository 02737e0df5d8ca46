//! The registry as mathematics: an ordered run of records without repeated
//! ids, and the mapping from id to record that it stands for.

use crate::model::CameraModel;
use vstd::prelude::*;

verus! {

/// No two records of `records` share an id.
pub open spec fn distinct_ids(records: Seq<CameraModel>) -> bool {
    forall|i: int, j: int|
        0 <= i < j < records.len() ==> (#[trigger] records[i]).id != (#[trigger] records[j]).id
}

/// Some record of `records` has the id `id`.
pub open spec fn has_id(records: Seq<CameraModel>, id: Seq<char>) -> bool {
    exists|i: int| 0 <= i < records.len() && (#[trigger] records[i]).id == id
}

/// The mapping from id to record that `records` stands for. Where an id
/// occurs more than once, the last record with it counts.
pub open spec fn record_map(records: Seq<CameraModel>) -> Map<Seq<char>, CameraModel>
    decreases records.len(),
{
    if records.len() == 0 {
        Map::empty()
    } else {
        record_map(records.drop_last()).insert(records.last().id, records.last())
    }
}

/// `records` with every record of `record`'s id replaced by `record`.
pub open spec fn overwrite(records: Seq<CameraModel>, record: CameraModel) -> Seq<CameraModel> {
    Seq::new(
        records.len(),
        |i: int|
            if records[i].id == record.id {
                record
            } else {
                records[i]
            },
    )
}

/// `records` after `record` was stored: in the place of the record with its
/// id where there is one, at the end where there is none.
pub open spec fn upsert(records: Seq<CameraModel>, record: CameraModel) -> Seq<CameraModel> {
    if has_id(records, record.id) {
        overwrite(records, record)
    } else {
        records.push(record)
    }
}

/// What is left of `loaded` once each record was stored in turn: one record
/// for each id, at the place where the id first occurred, with the value that
/// it last had.
pub open spec fn absorb(loaded: Seq<CameraModel>) -> Seq<CameraModel>
    decreases loaded.len(),
{
    if loaded.len() == 0 {
        Seq::empty()
    } else {
        upsert(absorb(loaded.drop_last()), loaded.last())
    }
}

/// The record stored under `id`, if there is one.
pub open spec fn lookup(registry: Map<Seq<char>, CameraModel>, id: Seq<char>) -> Option<
    CameraModel,
> {
    if registry.contains_key(id) {
        Some(registry[id])
    } else {
        None
    }
}

/// The ids that `records` stands for are the ids of its records.
pub proof fn lemma_record_map_domain(records: Seq<CameraModel>, id: Seq<char>)
    ensures
        record_map(records).contains_key(id) <==> has_id(records, id),
    decreases records.len(),
{
    if records.len() > 0 {
        let front = records.drop_last();
        lemma_record_map_domain(front, id);
        if has_id(records, id) {
            let i = choose|i: int| 0 <= i < records.len() && (#[trigger] records[i]).id == id;
            if i < records.len() - 1 {
                assert(front[i].id == id);
            }
        }
        if has_id(front, id) {
            let i = choose|i: int| 0 <= i < front.len() && (#[trigger] front[i]).id == id;
            assert(records[i].id == id);
        }
        if records.last().id == id {
            assert(records[records.len() - 1].id == id);
        }
    }
}

/// Every record is stored under its own id, and the mapping is finite.
pub proof fn lemma_record_map_keys(records: Seq<CameraModel>)
    ensures
        record_map(records).dom().finite(),
        forall|id: Seq<char>| #[trigger]
            record_map(records).contains_key(id) ==> record_map(records)[id].id == id,
    decreases records.len(),
{
    if records.len() > 0 {
        lemma_record_map_keys(records.drop_last());
    }
}

/// Where no id repeats, each record is the one stored under its id.
pub proof fn lemma_record_map_entry(records: Seq<CameraModel>, i: int)
    requires
        distinct_ids(records),
        0 <= i < records.len(),
    ensures
        record_map(records).contains_key(records[i].id),
        record_map(records)[records[i].id] == records[i],
    decreases records.len(),
{
    let front = records.drop_last();
    if i < records.len() - 1 {
        assert(distinct_ids(front)) by {
            assert forall|a: int, b: int| 0 <= a < b < front.len() implies (#[trigger] front[a]).id
                != (#[trigger] front[b]).id by {
                assert(records[a].id != records[b].id);
            }
        }
        lemma_record_map_entry(front, i);
        assert(front[i] == records[i]);
        assert(records[i].id != records[records.len() - 1].id);
    }
}

/// Storing a record at the end stores it under its id.
pub proof fn lemma_record_map_push(records: Seq<CameraModel>, record: CameraModel)
    ensures
        record_map(records.push(record)) == record_map(records).insert(record.id, record),
{
    assert(records.push(record).drop_last() =~= records);
}

/// Replacing the records of an id stores the new record under that id.
pub proof fn lemma_record_map_overwrite(records: Seq<CameraModel>, record: CameraModel)
    requires
        has_id(records, record.id),
    ensures
        record_map(overwrite(records, record)) == record_map(records).insert(record.id, record),
    decreases records.len(),
{
    let front = records.drop_last();
    let after = overwrite(records, record);
    assert(after.drop_last() =~= overwrite(front, record));
    if has_id(front, record.id) {
        lemma_record_map_overwrite(front, record);
    } else {
        assert(overwrite(front, record) =~= front) by {
            assert forall|i: int| 0 <= i < front.len() implies overwrite(front, record)[i]
                == front[i] by {
                assert(front[i].id != record.id);
            }
        }
        let i = choose|i: int| 0 <= i < records.len() && (#[trigger] records[i]).id == record.id;
        if i < records.len() - 1 {
            assert(front[i].id == record.id);
        }
        assert(records.last().id == record.id);
    }
    assert(record_map(after) =~= record_map(records).insert(record.id, record));
}

/// Storing a record, wherever it lands, stores it under its id.
pub proof fn lemma_record_map_upsert(records: Seq<CameraModel>, record: CameraModel)
    ensures
        record_map(upsert(records, record)) == record_map(records).insert(record.id, record),
{
    if has_id(records, record.id) {
        lemma_record_map_overwrite(records, record);
    } else {
        lemma_record_map_push(records, record);
    }
}

/// Storing a record keeps ids from repeating.
pub proof fn lemma_upsert_distinct(records: Seq<CameraModel>, record: CameraModel)
    requires
        distinct_ids(records),
    ensures
        distinct_ids(upsert(records, record)),
{
    let after = upsert(records, record);
    if has_id(records, record.id) {
        assert forall|i: int, j: int| 0 <= i < j < after.len() implies (#[trigger] after[i]).id
            != (#[trigger] after[j]).id by {
            assert(after[i].id == records[i].id);
            assert(after[j].id == records[j].id);
        }
    } else {
        assert forall|i: int, j: int| 0 <= i < j < after.len() implies (#[trigger] after[i]).id
            != (#[trigger] after[j]).id by {
            if j < records.len() {
                assert(records[i].id != records[j].id);
            } else {
                assert(records[i].id != record.id);
            }
        }
    }
}

/// What is left of a load has no repeated id and stands for the same mapping
/// as the load itself.
pub proof fn lemma_absorb(loaded: Seq<CameraModel>)
    ensures
        distinct_ids(absorb(loaded)),
        record_map(absorb(loaded)) == record_map(loaded),
    decreases loaded.len(),
{
    if loaded.len() > 0 {
        let front = loaded.drop_last();
        lemma_absorb(front);
        lemma_upsert_distinct(absorb(front), loaded.last());
        lemma_record_map_upsert(absorb(front), loaded.last());
    }
}

/// A run of records without repeated ids is left as it is by a load.
pub proof fn lemma_absorb_distinct(records: Seq<CameraModel>)
    requires
        distinct_ids(records),
    ensures
        absorb(records) == records,
    decreases records.len(),
{
    if records.len() > 0 {
        let front = records.drop_last();
        assert(distinct_ids(front)) by {
            assert forall|a: int, b: int| 0 <= a < b < front.len() implies (#[trigger] front[a]).id
                != (#[trigger] front[b]).id by {
                assert(records[a].id != records[b].id);
            }
        }
        lemma_absorb_distinct(front);
        assert(!has_id(front, records.last().id)) by {
            if has_id(front, records.last().id) {
                let i = choose|i: int|
                    0 <= i < front.len() && (#[trigger] front[i]).id == records.last().id;
                assert(records[i].id != records[records.len() - 1].id);
            }
        }
        assert(front.push(records.last()) =~= records);
    } else {
        assert(records =~= Seq::empty());
    }
}

} // verus!
