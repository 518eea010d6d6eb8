//! Writing records out as dictionaries on the caller's heap.
use vstd::prelude::*;
use starlark::collections::SmallMap;
use starlark::values::dict::Dict;
use starlark::values::Heap;
use crate::error::{Failure, FindError};
use crate::record::{record_entries, FieldValue, ProcessRecord, RecordModel};

verus! {

#[verifier::external_type_specification]
#[verifier::external_body]
pub struct ExHeap<'v>(Heap<'v>);

#[verifier::external_type_specification]
#[verifier::external_body]
pub struct ExDict<'v>(Dict<'v>);

/// The longest text, in bytes of UTF-8, that this library hands to the heap.
///
/// The heap keeps the size of an object, its header included, in 32 bits and
/// stops the program on a longer one; a text of this length stays inside.
pub const MAX_TEXT_BYTES: usize = 0x7fff_ffff;

/// The heap can hold `text`.
pub open spec fn text_fits(text: Seq<char>) -> bool {
    vstd::utf8::encode_utf8(text).len() <= MAX_TEXT_BYTES
}

/// The heap can hold every text of `record`.
pub open spec fn record_fits(record: RecordModel) -> bool {
    &&& text_fits(record.name)
    &&& text_fits(record.username)
    &&& text_fits(record.status)
    &&& text_fits(record.command)
    &&& text_fits(record.cwd)
}

/// The key of the first text field of `record`, in the order of the schema,
/// that the heap cannot hold. It has a meaning only where the record does not
/// fit.
pub open spec fn unfit_field(record: RecordModel) -> Seq<char> {
    if !text_fits(record.name) {
        "name"@
    } else if !text_fits(record.username) {
        "username"@
    } else if !text_fits(record.status) {
        "status"@
    } else if !text_fits(record.command) {
        "command"@
    } else {
        "cwd"@
    }
}

/// The failure with which a record that does not fit is refused.
pub open spec fn refusal(record: RecordModel) -> Failure {
    Failure::Projection { pid: record.pid, field: unfit_field(record) }
}

/// What a dictionary holds: its keys with their values, in insertion order.
///
/// This speaks of the dictionaries that this library builds, whose keys are
/// strings and whose values are integers or strings.
pub uninterp spec fn dict_entries(dict: Dict<'_>) -> Seq<(Seq<char>, FieldValue)>;

/// Whether some entry stands under `key`.
pub open spec fn has_key(entries: Seq<(Seq<char>, FieldValue)>, key: Seq<char>) -> bool {
    exists|i: int| 0 <= i < entries.len() && (#[trigger] entries[i]).0 == key
}

/// The entries after `value` has been stored under `key`: a new key goes to the
/// end, a key that is there keeps its place and takes the new value.
pub open spec fn with_entry(
    entries: Seq<(Seq<char>, FieldValue)>,
    key: Seq<char>,
    value: FieldValue,
) -> Seq<(Seq<char>, FieldValue)> {
    if has_key(entries, key) {
        Seq::new(
            entries.len(),
            |i: int|
                if entries[i].0 == key {
                    (key, value)
                } else {
                    entries[i]
                },
        )
    } else {
        entries.push((key, value))
    }
}

/// Calls `starlark::values::dict::Dict::new` on an empty
/// `starlark::collections::SmallMap`: the dictionary holds nothing.
#[verifier::external_body]
fn dict_new<'v>() -> (dict: Dict<'v>)
    ensures
        dict_entries(dict) == Seq::<(Seq<char>, FieldValue)>::empty(),
{
    Dict::new(SmallMap::new())
}

/// Allocates `key` and `value` as strings with `Heap::alloc_str`, pairs the
/// key with its hash through `StringValue::get_hashed_value` and stores the
/// pair with `Dict::insert_hashed`: the value then stands under the key as
/// [`with_entry`] says. Texts that the heap cannot hold are left out, since the
/// allocation stops the program on them.
#[verifier::external_body]
fn dict_insert_text<'v>(heap: Heap<'v>, dict: &mut Dict<'v>, key: &str, value: &str)
    requires
        text_fits(key@),
        text_fits(value@),
    ensures
        dict_entries(*final(dict)) == with_entry(
            dict_entries(*old(dict)),
            key@,
            FieldValue::Text(value@),
        ),
{
    dict.insert_hashed(heap.alloc_str(key).get_hashed_value(), heap.alloc_str(value).to_value());
}

/// Allocates `key` as a string with `Heap::alloc_str` and `value` as an integer
/// with `Heap::alloc`, pairs the key with its hash through
/// `StringValue::get_hashed_value` and stores the pair with
/// `Dict::insert_hashed`: the value then stands under the key as [`with_entry`]
/// says. A key that the heap cannot hold is left out, since the allocation
/// stops the program on it.
#[verifier::external_body]
fn dict_insert_number<'v>(heap: Heap<'v>, dict: &mut Dict<'v>, key: &str, value: u64)
    requires
        text_fits(key@),
    ensures
        dict_entries(*final(dict)) == with_entry(
            dict_entries(*old(dict)),
            key@,
            FieldValue::Number(value as int),
        ),
{
    dict.insert_hashed(heap.alloc_str(key).get_hashed_value(), heap.alloc(value));
}

/// Whether the heap can hold `text`.
pub fn fits(text: &str) -> (ok: bool)
    ensures
        ok == text_fits(text@),
{
    text.as_bytes().len() <= MAX_TEXT_BYTES
}

/// The failure that refuses the record of process `pid` for its field `field`.
fn refuse(pid: u32, field: &str) -> (failure: FindError)
    ensures
        failure@ == (Failure::Projection { pid: pid as int, field: field@ }),
{
    FindError::Projection { pid, field: field.to_owned() }
}

/// `dict` holds exactly the fields of `record`, under the schema's keys and in
/// the schema's order.
pub open spec fn describes(dict: Dict<'_>, record: RecordModel) -> bool {
    dict_entries(dict) == record_entries(record)
}

/// No key of the schema occurs twice.
pub proof fn lemma_schema_keys_distinct(record: RecordModel)
    ensures
        record_entries(record).len() == 8,
        forall|i: int, j: int|
            0 <= i < j < 8 ==> (#[trigger] record_entries(record)[i]).0 != (
            #[trigger] record_entries(record)[j]).0,
{
    reveal_strlit("pid");
    reveal_strlit("ppid");
    reveal_strlit("name");
    reveal_strlit("username");
    reveal_strlit("status");
    reveal_strlit("memory");
    reveal_strlit("command");
    reveal_strlit("cwd");
    let keys = Seq::new(8, |i: int| record_entries(record)[i].0);
    assert(keys[0].len() == 3 && keys[0][0] == 'p');
    assert(keys[1].len() == 4 && keys[1][0] == 'p');
    assert(keys[2].len() == 4 && keys[2][0] == 'n');
    assert(keys[3].len() == 8);
    assert(keys[4].len() == 6 && keys[4][0] == 's');
    assert(keys[5].len() == 6 && keys[5][0] == 'm');
    assert(keys[6].len() == 7);
    assert(keys[7].len() == 3 && keys[7][0] == 'c');
    assert forall|i: int, j: int| 0 <= i < j < 8 implies (#[trigger] record_entries(record)[i]).0
        != (#[trigger] record_entries(record)[j]).0 by {
        assert(keys[i] == record_entries(record)[i].0);
        assert(keys[j] == record_entries(record)[j].0);
    }
}

/// `dict` holds the number `pid` under the key `"pid"`.
pub open spec fn holds_pid(dict: Dict<'_>, pid: int) -> bool {
    dict_entries(dict).contains(("pid"@, FieldValue::Number(pid)))
}

/// The only number that the written-out form of a record holds under `"pid"`
/// is the record's process identifier.
pub proof fn lemma_described_pid(dict: Dict<'_>, record: RecordModel, pid: int)
    requires
        describes(dict, record),
    ensures
        holds_pid(dict, pid) <==> pid == record.pid,
{
    lemma_schema_keys_distinct(record);
    let entries = record_entries(record);
    assert(entries[0] == ("pid"@, FieldValue::Number(record.pid)));
    if holds_pid(dict, pid) {
        let i = choose|i: int|
            0 <= i < entries.len() && entries[i] == ("pid"@, FieldValue::Number(pid));
        if i != 0 {
            assert(entries[0].0 != entries[i].0);
        }
    }
}

/// The heap can hold every key of the schema.
proof fn lemma_schema_keys_fit(record: RecordModel)
    ensures
        forall|k: int| 0 <= k < 8 ==> text_fits((#[trigger] record_entries(record)[k]).0),
{
    reveal_strlit("pid");
    reveal_strlit("ppid");
    reveal_strlit("name");
    reveal_strlit("username");
    reveal_strlit("status");
    reveal_strlit("memory");
    reveal_strlit("command");
    reveal_strlit("cwd");
    assert forall|k: int| 0 <= k < 8 implies text_fits((#[trigger] record_entries(record)[k]).0) by {
        let key = record_entries(record)[k].0;
        assert(key.len() <= 8);
        assert(vstd::utf8::is_ascii_chars(key));
        vstd::utf8::is_ascii_chars_encode_utf8(key);
    }
}

/// Storing the next field of the schema in a dictionary that holds the fields
/// before it appends that field.
proof fn lemma_next_field(record: RecordModel, k: int)
    requires
        0 <= k < 8,
    ensures
        with_entry(
            record_entries(record).take(k),
            record_entries(record)[k].0,
            record_entries(record)[k].1,
        ) == record_entries(record).take(k + 1),
        text_fits(record_entries(record)[k].0),
{
    lemma_schema_keys_distinct(record);
    lemma_schema_keys_fit(record);
    let all = record_entries(record);
    assert forall|i: int| 0 <= i < all.take(k).len() implies (#[trigger] all.take(k)[i]).0
        != all[k].0 by {
        assert(all.take(k)[i] == all[i]);
    }
    assert(all.take(k).push(all[k]) =~= all.take(k + 1));
}

/// Writes a record out as a dictionary on `heap`.
///
/// A record fits where the heap can hold each of its five texts. A record that
/// fits is written out, and the dictionary holds its fields and nothing else.
/// One that does not fit is refused before anything is written, with the key
/// of its first field that does not fit.
pub fn emit_record<'v>(heap: Heap<'v>, record: &ProcessRecord) -> (emitted: Result<
    Dict<'v>,
    FindError,
>)
    ensures
        emitted is Ok <==> record_fits(record@),
        emitted matches Ok(dict) ==> describes(dict, record@),
        emitted matches Err(failure) ==> failure@ == refusal(record@),
{
    if !fits(record.name.as_str()) {
        return Err(refuse(record.pid, "name"));
    }
    if !fits(record.username.as_str()) {
        return Err(refuse(record.pid, "username"));
    }
    if !fits(record.status.as_str()) {
        return Err(refuse(record.pid, "status"));
    }
    if !fits(record.command.as_str()) {
        return Err(refuse(record.pid, "command"));
    }
    if !fits(record.cwd.as_str()) {
        return Err(refuse(record.pid, "cwd"));
    }
    let ghost want = record_entries(record@);
    let mut dict = dict_new();
    proof {
        assert(dict_entries(dict) =~= want.take(0));
        lemma_next_field(record@, 0);
    }
    dict_insert_number(heap, &mut dict, "pid", record.pid as u64);
    proof {
        lemma_next_field(record@, 1);
    }
    dict_insert_number(heap, &mut dict, "ppid", record.ppid as u64);
    proof {
        lemma_next_field(record@, 2);
    }
    dict_insert_text(heap, &mut dict, "name", record.name.as_str());
    proof {
        lemma_next_field(record@, 3);
    }
    dict_insert_text(heap, &mut dict, "username", record.username.as_str());
    proof {
        lemma_next_field(record@, 4);
    }
    dict_insert_text(heap, &mut dict, "status", record.status.as_str());
    proof {
        lemma_next_field(record@, 5);
    }
    dict_insert_number(heap, &mut dict, "memory", record.memory);
    proof {
        lemma_next_field(record@, 6);
    }
    dict_insert_text(heap, &mut dict, "command", record.command.as_str());
    proof {
        lemma_next_field(record@, 7);
    }
    dict_insert_text(heap, &mut dict, "cwd", record.cwd.as_str());
    proof {
        assert(want.take(8) =~= want);
    }
    Ok(dict)
}

} // verus!
