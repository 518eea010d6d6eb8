//! The search itself: from a needle to the dictionaries of the processes that
//! carry it as their name.
use vstd::prelude::*;
use starlark::values::dict::Dict;
use starlark::values::Heap;
use crate::emit::{
    describes, dict_entries, emit_record, holds_pid, lemma_described_pid, record_fits, refusal,
};
use crate::error::{Failure, FindError};
use crate::record::{FieldValue, ProcessRecord, RecordModel};
use crate::select::{
    find_records, found, lemma_found_count, lemma_found_names, lemma_found_pids_distinct,
    matching_positions, record_models,
};
use crate::snapshot::{distinct_pids, take_snapshot, Snapshot, SnapshotModel};

verus! {

/// `dicts` are the written-out forms of `records`, one for one and in order.
pub open spec fn emitted(dicts: Seq<Dict<'_>>, records: Seq<RecordModel>) -> bool {
    &&& dicts.len() == records.len()
    &&& forall|k: int| 0 <= k < dicts.len() ==> describes(#[trigger] dicts[k], records[k])
}

/// Every dictionary of `dicts` holds `needle` under the key `"name"`.
pub open spec fn all_named(dicts: Seq<Dict<'_>>, needle: Seq<char>) -> bool {
    forall|k: int|
        0 <= k < dicts.len() ==> dict_entries(#[trigger] dicts[k]).contains(
            ("name"@, FieldValue::Text(needle)),
        )
}

/// Dictionaries that are the written-out forms of what a search for `needle`
/// yields all hold `needle` under the key `"name"`.
pub proof fn lemma_emitted_names(dicts: Seq<Dict<'_>>, snapshot: SnapshotModel, needle: Seq<char>)
    requires
        emitted(dicts, found(snapshot, needle)),
    ensures
        all_named(dicts, needle),
{
    lemma_found_names(snapshot, needle);
    assert forall|k: int| 0 <= k < dicts.len() implies dict_entries(#[trigger] dicts[k]).contains(
        ("name"@, FieldValue::Text(needle)),
    ) by {
        let record = found(snapshot, needle)[k];
        assert(describes(dicts[k], record));
        assert(dict_entries(dicts[k])[2] == ("name"@, FieldValue::Text(needle)));
    }
}

/// No two dictionaries of `dicts` hold the same number under `"pid"`: each
/// describes another process.
pub open spec fn pids_differ(dicts: Seq<Dict<'_>>) -> bool {
    forall|j: int, k: int, pid: int|
        0 <= j < k < dicts.len() ==> !(#[trigger] holds_pid(dicts[j], pid) && #[trigger] holds_pid(
            dicts[k],
            pid,
        ))
}

/// Where the snapshot lists every process once, the written-out forms of what
/// a search yields describe a different process each.
pub proof fn lemma_emitted_pids_differ(
    dicts: Seq<Dict<'_>>,
    snapshot: SnapshotModel,
    needle: Seq<char>,
)
    requires
        emitted(dicts, found(snapshot, needle)),
        distinct_pids(snapshot.processes),
    ensures
        pids_differ(dicts),
{
    lemma_found_pids_distinct(snapshot, needle);
    assert forall|j: int, k: int, pid: int| 0 <= j < k < dicts.len() implies !(
    #[trigger] holds_pid(dicts[j], pid) && #[trigger] holds_pid(dicts[k], pid)) by {
        assert(describes(dicts[j], found(snapshot, needle)[j]));
        assert(describes(dicts[k], found(snapshot, needle)[k]));
        lemma_described_pid(dicts[j], found(snapshot, needle)[j], pid);
        lemma_described_pid(dicts[k], found(snapshot, needle)[k], pid);
    }
}

/// The heap can hold every one of `records`.
pub open spec fn all_fit(records: Seq<RecordModel>) -> bool {
    forall|k: int| 0 <= k < records.len() ==> record_fits(#[trigger] records[k])
}

/// `records[k]` is the first of `records` that the heap cannot hold.
pub open spec fn first_unfit(records: Seq<RecordModel>, k: int) -> bool {
    &&& 0 <= k < records.len()
    &&& !record_fits(records[k])
    &&& forall|j: int| 0 <= j < k ==> record_fits(#[trigger] records[j])
}

/// `failure` is the refusal of the first of `records` that the heap cannot
/// hold.
pub open spec fn first_refusal(records: Seq<RecordModel>, failure: Failure) -> bool {
    exists|k: int| #[trigger] first_unfit(records, k) && failure == refusal(records[k])
}

/// Writes records out as dictionaries on `heap`, in order.
///
/// Where the heap can hold every record, each is written out. Otherwise the
/// first record that does not fit ends the work: its refusal is returned, the
/// dictionaries written so far are dropped, and no later record is looked at.
pub fn emit_records<'v>(heap: Heap<'v>, records: &Vec<ProcessRecord>) -> (outcome: Result<
    Vec<Dict<'v>>,
    FindError,
>)
    ensures
        outcome is Ok <==> all_fit(record_models(records@)),
        outcome matches Ok(dicts) ==> emitted(dicts@, record_models(records@)),
        outcome matches Err(failure) ==> first_refusal(record_models(records@), failure@),
{
    let ghost models = record_models(records@);
    let mut dicts: Vec<Dict<'v>> = Vec::new();
    let mut i: usize = 0;
    while i < records.len()
        invariant
            i <= records.len(),
            models == record_models(records@),
            dicts@.len() == i,
            forall|k: int| 0 <= k < i ==> describes(#[trigger] dicts@[k], models[k]),
            forall|k: int| 0 <= k < i ==> record_fits(#[trigger] models[k]),
        decreases records.len() - i,
    {
        assert(models[i as int] == records@[i as int]@);
        match emit_record(heap, &records[i]) {
            Ok(dict) => {
                dicts.push(dict);
            },
            Err(failure) => {
                assert(first_unfit(models, i as int));
                return Err(failure);
            },
        }
        i += 1;
    }
    Ok(dicts)
}

/// Searches `snapshot` for the processes named exactly `needle` and writes
/// their records out on `heap`, in the order of the snapshot.
///
/// The search succeeds exactly where the heap can hold the record of every
/// process of that name; a needle that names no process gives an empty list,
/// which is no failure. Otherwise the first such record that does not fit ends
/// the search with its refusal, and nothing is returned. A process of another
/// name never makes the search fail.
pub fn find_in_snapshot<'v>(heap: Heap<'v>, snapshot: &Snapshot, needle: &str) -> (outcome: Result<
    Vec<Dict<'v>>,
    FindError,
>)
    ensures
        outcome is Ok <==> all_fit(found(snapshot@, needle@)),
        outcome matches Ok(dicts) ==> {
            &&& emitted(dicts@, found(snapshot@, needle@))
            &&& all_named(dicts@, needle@)
            &&& dicts@.len() == matching_positions(snapshot@.processes, needle@).len()
            &&& distinct_pids(snapshot@.processes) ==> pids_differ(dicts@)
        },
        outcome matches Err(failure) ==> first_refusal(found(snapshot@, needle@), failure@),
        matching_positions(snapshot@.processes, needle@).len() == 0 ==> outcome is Ok,
{
    let records = find_records(snapshot, needle);
    proof {
        lemma_found_count(snapshot@, needle@);
    }
    let outcome = emit_records(heap, &records);
    proof {
        if outcome is Ok {
            lemma_emitted_names(outcome->Ok_0@, snapshot@, needle@);
            if distinct_pids(snapshot@.processes) {
                lemma_emitted_pids_differ(outcome->Ok_0@, snapshot@, needle@);
            }
        }
    }
    outcome
}

/// Carries a search out on what an attempt to take a snapshot gave.
///
/// Where no snapshot could be taken the search fails with
/// [`FindError::Snapshot`]; otherwise it is [`find_in_snapshot`] on the snapshot
/// that was taken.
pub fn find_in_taken<'v>(heap: Heap<'v>, taken: Option<Snapshot>, needle: &str) -> (outcome:
    Result<Vec<Dict<'v>>, FindError>)
    ensures
        taken is None ==> outcome is Err && outcome->Err_0@ == Failure::Snapshot,
        taken matches Some(snapshot) ==> {
            &&& outcome is Ok <==> all_fit(found(snapshot@, needle@))
            &&& outcome matches Ok(dicts) ==> {
                &&& emitted(dicts@, found(snapshot@, needle@))
                &&& all_named(dicts@, needle@)
                &&& dicts@.len() == matching_positions(snapshot@.processes, needle@).len()
                &&& distinct_pids(snapshot@.processes) ==> pids_differ(dicts@)
            }
            &&& outcome matches Err(failure) ==> first_refusal(
                found(snapshot@, needle@),
                failure@,
            )
        },
{
    match taken {
        None => Err(FindError::Snapshot),
        Some(snapshot) => find_in_snapshot(heap, &snapshot, needle),
    }
}

/// Finds the running processes whose name is exactly `needle_name` and
/// describes each as a dictionary on `starlark_heap`.
///
/// The process table and the user table are read afresh. The result is what
/// [`find_in_taken`] gives for the snapshot that was taken, which lists every
/// process once: one dictionary for each process of that name, in the order of
/// the snapshot, each holding the needle under `"name"` and each describing
/// another process. The search fails with [`FindError::Snapshot`] where the
/// platform lets no snapshot be taken, and with the refusal of the first
/// record of that name that the heap cannot hold.
pub fn find_by_name<'v>(starlark_heap: Heap<'v>, needle_name: String) -> (outcome: Result<
    Vec<Dict<'v>>,
    FindError,
>)
    ensures
        outcome matches Ok(dicts) ==> {
            &&& exists|snapshot: SnapshotModel|
                {
                    &&& distinct_pids(snapshot.processes)
                    &&& all_fit(#[trigger] found(snapshot, needle_name@))
                    &&& emitted(dicts@, found(snapshot, needle_name@))
                    &&& dicts@.len() == matching_positions(snapshot.processes, needle_name@).len()
                }
            &&& all_named(dicts@, needle_name@)
            &&& pids_differ(dicts@)
        },
        outcome matches Err(failure) ==> failure@ == Failure::Snapshot || exists|
            snapshot: SnapshotModel,
        |
            {
                &&& distinct_pids(snapshot.processes)
                &&& first_refusal(#[trigger] found(snapshot, needle_name@), failure@)
            },
{
    find_in_taken(starlark_heap, take_snapshot(), needle_name.as_str())
}

} // verus!
