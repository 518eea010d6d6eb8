//! Selection of the processes of a snapshot that carry a given name.
use vstd::prelude::*;
use crate::record::{project, project_model, user_models, ProcessRecord, RecordModel};
use crate::snapshot::{distinct_pids, DescriptorModel, Snapshot, SnapshotModel, UserModel};

verus! {

/// The processes named exactly `needle`, in the order of the snapshot.
///
/// Names are compared character by character: no case folding, no trimming.
pub open spec fn matching(processes: Seq<DescriptorModel>, needle: Seq<char>) -> Seq<
    DescriptorModel,
> {
    processes.filter(|d: DescriptorModel| d.name == needle)
}

/// The records of the given processes, in the same order.
pub open spec fn projected(users: Seq<UserModel>, processes: Seq<DescriptorModel>) -> Seq<
    RecordModel,
> {
    Seq::new(processes.len(), |k: int| project_model(users, processes[k]))
}

/// What a search for `needle` in `snapshot` yields: the records of the matching
/// processes, in snapshot order.
pub open spec fn found(snapshot: SnapshotModel, needle: Seq<char>) -> Seq<RecordModel> {
    projected(snapshot.users, matching(snapshot.processes, needle))
}

/// The positions in the snapshot of the processes named `needle`.
pub open spec fn matching_positions(processes: Seq<DescriptorModel>, needle: Seq<char>) -> Set<
    int,
> {
    Set::new(|i: int| 0 <= i < processes.len() && processes[i].name == needle)
}

/// `positions` lists, from front to back and each once, the positions of the
/// processes named `needle`.
pub open spec fn selects(
    positions: Seq<int>,
    processes: Seq<DescriptorModel>,
    needle: Seq<char>,
) -> bool {
    &&& forall|j: int, k: int|
        0 <= j < k < positions.len() ==> #[trigger] positions[j] < #[trigger] positions[k]
    &&& forall|k: int|
        0 <= k < positions.len() ==> matching_positions(processes, needle).contains(
            #[trigger] positions[k],
        )
    &&& forall|i: int|
        matching_positions(processes, needle).contains(i) ==> #[trigger] positions.contains(i)
}

/// The records of the processes that stand at `positions` in the snapshot.
pub open spec fn records_at(snapshot: SnapshotModel, positions: Seq<int>) -> Seq<RecordModel> {
    Seq::new(
        positions.len(),
        |k: int| project_model(snapshot.users, snapshot.processes[positions[k]]),
    )
}

/// The models of a list of records, in order.
pub open spec fn record_models(records: Seq<ProcessRecord>) -> Seq<RecordModel> {
    Seq::new(records.len(), |k: int| records[k]@)
}

/// How the selection grows when one more process is appended to the snapshot.
pub proof fn lemma_matching_push(
    processes: Seq<DescriptorModel>,
    last: DescriptorModel,
    needle: Seq<char>,
)
    ensures
        matching(processes.push(last), needle) == if last.name == needle {
            matching(processes, needle).push(last)
        } else {
            matching(processes, needle)
        },
{
    reveal(Seq::filter);
    assert(processes.push(last).drop_last() =~= processes);
}

/// An empty snapshot holds no process of any name.
pub proof fn lemma_matching_empty(needle: Seq<char>)
    ensures
        matching(Seq::<DescriptorModel>::empty(), needle) == Seq::<DescriptorModel>::empty(),
{
    reveal(Seq::filter);
}

/// Every process that a search selects carries the needle as its name, and so
/// does every record that the search yields.
pub proof fn lemma_found_names(snapshot: SnapshotModel, needle: Seq<char>)
    ensures
        forall|k: int|
            0 <= k < matching(snapshot.processes, needle).len() ==> (#[trigger] matching(
                snapshot.processes,
                needle,
            )[k]).name == needle,
        forall|k: int|
            0 <= k < found(snapshot, needle).len() ==> (#[trigger] found(snapshot, needle)[k]).name
                == needle,
    decreases snapshot.processes.len(),
{
    let processes = snapshot.processes;
    if processes.len() > 0 {
        let shorter = SnapshotModel { processes: processes.drop_last(), users: snapshot.users };
        lemma_found_names(shorter, needle);
        lemma_matching_push(processes.drop_last(), processes.last(), needle);
        assert(processes.drop_last().push(processes.last()) =~= processes);
    } else {
        lemma_matching_empty(needle);
        assert(processes =~= Seq::<DescriptorModel>::empty());
    }
}

/// A needle that names no process of the snapshot yields nothing.
pub proof fn lemma_absent_name_yields_nothing(snapshot: SnapshotModel, needle: Seq<char>)
    requires
        forall|i: int|
            0 <= i < snapshot.processes.len() ==> (#[trigger] snapshot.processes[i]).name
                != needle,
    ensures
        found(snapshot, needle) == Seq::<RecordModel>::empty(),
    decreases snapshot.processes.len(),
{
    let processes = snapshot.processes;
    if processes.len() > 0 {
        let shorter = SnapshotModel { processes: processes.drop_last(), users: snapshot.users };
        lemma_absent_name_yields_nothing(shorter, needle);
        lemma_matching_push(processes.drop_last(), processes.last(), needle);
        assert(processes.drop_last().push(processes.last()) =~= processes);
        assert(found(shorter, needle).len() == matching(shorter.processes, needle).len());
        assert(processes[processes.len() - 1].name != needle);
    } else {
        lemma_matching_empty(needle);
        assert(processes =~= Seq::<DescriptorModel>::empty());
    }
    assert(found(snapshot, needle) =~= Seq::<RecordModel>::empty());
}

/// A search yields as many records as the snapshot has processes named
/// `needle`.
pub proof fn lemma_found_count(snapshot: SnapshotModel, needle: Seq<char>)
    ensures
        matching_positions(snapshot.processes, needle).finite(),
        found(snapshot, needle).len() == matching_positions(snapshot.processes, needle).len(),
    decreases snapshot.processes.len(),
{
    let processes = snapshot.processes;
    if processes.len() > 0 {
        let shorter = SnapshotModel { processes: processes.drop_last(), users: snapshot.users };
        lemma_found_count(shorter, needle);
        lemma_matching_push(processes.drop_last(), processes.last(), needle);
        assert(processes.drop_last().push(processes.last()) =~= processes);
        let before = matching_positions(processes.drop_last(), needle);
        let at_end = processes.len() - 1;
        assert(!before.contains(at_end));
        if processes.last().name == needle {
            assert(matching_positions(processes, needle) =~= before.insert(at_end));
        } else {
            assert(matching_positions(processes, needle) =~= before);
        }
    } else {
        lemma_matching_empty(needle);
        assert(processes =~= Seq::<DescriptorModel>::empty());
        assert(matching_positions(processes, needle) =~= Set::<int>::empty());
    }
}

/// The records that a search yields follow the order of the snapshot: they
/// are the records of the processes named `needle`, each taken once, at
/// strictly increasing positions.
pub proof fn lemma_found_order(snapshot: SnapshotModel, needle: Seq<char>)
    ensures
        exists|positions: Seq<int>|
            {
                &&& selects(positions, snapshot.processes, needle)
                &&& found(snapshot, needle) == #[trigger] records_at(snapshot, positions)
            },
    decreases snapshot.processes.len(),
{
    let processes = snapshot.processes;
    if processes.len() > 0 {
        let shorter = SnapshotModel { processes: processes.drop_last(), users: snapshot.users };
        lemma_found_order(shorter, needle);
        lemma_matching_push(processes.drop_last(), processes.last(), needle);
        assert(processes.drop_last().push(processes.last()) =~= processes);
        let before = choose|positions: Seq<int>|
            {
                &&& selects(positions, shorter.processes, needle)
                &&& found(shorter, needle) == #[trigger] records_at(shorter, positions)
            };
        let at_end = processes.len() - 1;
        assert(found(shorter, needle).len() == matching(shorter.processes, needle).len());
        assert(records_at(shorter, before).len() == before.len());
        assert(found(snapshot, needle).len() == matching(processes, needle).len());
        assert forall|k: int| 0 <= k < before.len() implies 0 <= #[trigger] before[k] < at_end by {
            assert(matching_positions(shorter.processes, needle).contains(before[k]));
        }
        if processes.last().name == needle {
            let positions = before.push(at_end);
            assert forall|i: int|
                matching_positions(processes, needle).contains(i) implies #[trigger] positions.contains(
                i,
            ) by {
                if i < at_end {
                    assert(matching_positions(shorter.processes, needle).contains(i));
                    assert(before.contains(i));
                    let k = choose|k: int| 0 <= k < before.len() && before[k] == i;
                    assert(positions[k] == i);
                } else {
                    assert(positions[before.len() as int] == i);
                }
            }
            assert(selects(positions, processes, needle));
            assert forall|k: int| 0 <= k < positions.len() implies #[trigger] found(
                snapshot,
                needle,
            )[k] == records_at(snapshot, positions)[k] by {
                if k < before.len() {
                    assert(found(snapshot, needle)[k] == found(shorter, needle)[k]);
                    assert(found(shorter, needle)[k] == records_at(shorter, before)[k]);
                    assert(shorter.processes[before[k]] == processes[positions[k]]);
                }
            }
            assert(found(snapshot, needle) =~= records_at(snapshot, positions));
        } else {
            assert forall|i: int|
                matching_positions(processes, needle).contains(i) implies #[trigger] before.contains(
                i,
            ) by {
                assert(matching_positions(shorter.processes, needle).contains(i));
            }
            assert(selects(before, processes, needle));
            assert forall|k: int| 0 <= k < before.len() implies #[trigger] found(
                snapshot,
                needle,
            )[k] == records_at(snapshot, before)[k] by {
                assert(found(snapshot, needle)[k] == found(shorter, needle)[k]);
                assert(found(shorter, needle)[k] == records_at(shorter, before)[k]);
                assert(shorter.processes[before[k]] == processes[before[k]]);
            }
            assert(found(snapshot, needle) =~= records_at(snapshot, before));
        }
    } else {
        lemma_matching_empty(needle);
        assert(processes =~= Seq::<DescriptorModel>::empty());
        let none = Seq::<int>::empty();
        assert(selects(none, processes, needle));
        assert(found(snapshot, needle) =~= records_at(snapshot, none));
    }
}

/// Where the snapshot lists every process once, no two records that a search
/// yields carry the same process identifier.
pub proof fn lemma_found_pids_distinct(snapshot: SnapshotModel, needle: Seq<char>)
    requires
        distinct_pids(snapshot.processes),
    ensures
        forall|j: int, k: int|
            0 <= j < k < found(snapshot, needle).len() ==> (#[trigger] found(
                snapshot,
                needle,
            )[j]).pid != (#[trigger] found(snapshot, needle)[k]).pid,
{
    lemma_found_order(snapshot, needle);
    let positions = choose|positions: Seq<int>|
        {
            &&& selects(positions, snapshot.processes, needle)
            &&& found(snapshot, needle) == #[trigger] records_at(snapshot, positions)
        };
    assert forall|j: int, k: int| 0 <= j < k < found(snapshot, needle).len() implies (
    #[trigger] found(snapshot, needle)[j]).pid != (#[trigger] found(snapshot, needle)[k]).pid by {
        assert(matching_positions(snapshot.processes, needle).contains(positions[j]));
        assert(matching_positions(snapshot.processes, needle).contains(positions[k]));
        assert(positions[j] < positions[k]);
        assert(found(snapshot, needle)[j] == records_at(snapshot, positions)[j]);
        assert(found(snapshot, needle)[k] == records_at(snapshot, positions)[k]);
        assert(snapshot.processes[positions[j]].pid != snapshot.processes[positions[k]].pid);
    }
}

/// Two different needles, such as two that differ only in the case of a
/// letter, never select the same process.
pub proof fn lemma_distinct_needles_disjoint(
    processes: Seq<DescriptorModel>,
    first: Seq<char>,
    second: Seq<char>,
)
    requires
        first != second,
    ensures
        matching_positions(processes, first).disjoint(matching_positions(processes, second)),
{
}

/// Searches a snapshot for the processes named exactly `needle` and projects
/// each into its record, keeping the order of the snapshot.
pub fn find_records(snapshot: &Snapshot, needle: &str) -> (records: Vec<ProcessRecord>)
    ensures
        record_models(records@) == found(snapshot@, needle@),
        records@.len() == found(snapshot@, needle@).len(),
        forall|k: int| 0 <= k < records@.len() ==> (#[trigger] records@[k]).name@ == needle@,
        records@.len() == matching_positions(snapshot@.processes, needle@).len(),
        exists|positions: Seq<int>|
            {
                &&& selects(positions, snapshot@.processes, needle@)
                &&& record_models(records@) == #[trigger] records_at(snapshot@, positions)
            },
        distinct_pids(snapshot@.processes) ==> forall|j: int, k: int|
            0 <= j < k < records@.len() ==> (#[trigger] records@[j]).pid != (
            #[trigger] records@[k]).pid,
{
    let wanted = needle.to_owned();
    let ghost whole = snapshot@.processes;
    let ghost users = snapshot@.users;
    let mut records: Vec<ProcessRecord> = Vec::new();
    let mut i: usize = 0;
    proof {
        lemma_matching_empty(needle@);
        assert(whole.take(0) =~= Seq::<DescriptorModel>::empty());
        assert(record_models(records@) =~= projected(users, matching(whole.take(0), needle@)));
    }
    while i < snapshot.processes.len()
        invariant
            i <= snapshot.processes.len(),
            wanted@ == needle@,
            whole == snapshot@.processes,
            users == snapshot@.users,
            users == user_models(snapshot.users@),
            record_models(records@) == projected(users, matching(whole.take(i as int), needle@)),
        decreases snapshot.processes.len() - i,
    {
        let descriptor = &snapshot.processes[i];
        proof {
            lemma_matching_push(whole.take(i as int), descriptor@, needle@);
            assert(whole.take(i as int).push(descriptor@) =~= whole.take(i as int + 1));
        }
        let ghost before = records@;
        if descriptor.name == wanted {
            let record = project(&snapshot.users, descriptor);
            records.push(record);
            assert(record_models(records@) =~= record_models(before).push(record@));
            assert(record_models(records@) =~= projected(
                users,
                matching(whole.take(i as int + 1), needle@),
            ));
        }
        i += 1;
    }
    proof {
        assert(whole.take(i as int) =~= whole);
        lemma_found_names(snapshot@, needle@);
        lemma_found_count(snapshot@, needle@);
        lemma_found_order(snapshot@, needle@);
        assert forall|k: int| 0 <= k < records@.len() implies (#[trigger] records@[k]).name@
            == needle@ by {
            assert(record_models(records@)[k] == records@[k]@);
        }
        if distinct_pids(snapshot@.processes) {
            lemma_found_pids_distinct(snapshot@, needle@);
            assert forall|j: int, k: int| 0 <= j < k < records@.len() implies (
            #[trigger] records@[j]).pid != (#[trigger] records@[k]).pid by {
                assert(record_models(records@)[j] == records@[j]@);
                assert(record_models(records@)[k] == records@[k]@);
            }
        }
    }
    records
}

} // verus!
