//! Projection of a process descriptor into a record with a fixed schema.
use vstd::prelude::*;
use vstd::string::StringExecFns;
use crate::snapshot::{DescriptorModel, ProcessDescriptor, UserEntry, UserModel};

verus! {

/// The record that describes one process to the caller.
#[derive(Debug, PartialEq, Eq)]
pub struct ProcessRecord {
    pub pid: u32,
    /// The parent's identifier, or 0 where the process has no known parent.
    pub ppid: u32,
    pub name: String,
    /// The owner's account name, or `"???"` where the user table does not
    /// list the owner.
    pub username: String,
    pub status: String,
    pub memory: u64,
    /// The command line, its arguments joined by single spaces.
    pub command: String,
    pub cwd: String,
}

/// Mathematical model of a [`ProcessRecord`].
pub struct RecordModel {
    pub pid: int,
    pub ppid: int,
    pub name: Seq<char>,
    pub username: Seq<char>,
    pub status: Seq<char>,
    pub memory: int,
    pub command: Seq<char>,
    pub cwd: Seq<char>,
}

impl View for ProcessRecord {
    type V = RecordModel;

    open spec fn view(&self) -> RecordModel {
        RecordModel {
            pid: self.pid as int,
            ppid: self.ppid as int,
            name: self.name@,
            username: self.username@,
            status: self.status@,
            memory: self.memory as int,
            command: self.command@,
            cwd: self.cwd@,
        }
    }
}

/// A value of a record's field as the caller's dictionary holds it.
pub enum FieldValue {
    Number(int),
    Text(Seq<char>),
}

/// The fields of a record under their keys, in the order in which they are
/// written out. The keys and their order are the same for every record.
pub open spec fn record_entries(record: RecordModel) -> Seq<(Seq<char>, FieldValue)> {
    seq![
        ("pid"@, FieldValue::Number(record.pid)),
        ("ppid"@, FieldValue::Number(record.ppid)),
        ("name"@, FieldValue::Text(record.name)),
        ("username"@, FieldValue::Text(record.username)),
        ("status"@, FieldValue::Text(record.status)),
        ("memory"@, FieldValue::Number(record.memory)),
        ("command"@, FieldValue::Text(record.command)),
        ("cwd"@, FieldValue::Text(record.cwd)),
    ]
}

/// The name that stands for an owner whom the user table does not list.
pub open spec fn unknown_user() -> Seq<char> {
    seq!['?', '?', '?']
}

/// Index of the first entry at or after `from` whose identifier is `uid`.
pub open spec fn user_position(users: Seq<UserModel>, uid: int, from: int) -> Option<int>
    decreases users.len() - from,
{
    if from < 0 || from >= users.len() {
        None
    } else if users[from].uid == uid {
        Some(from)
    } else {
        user_position(users, uid, from + 1)
    }
}

/// The account name of `uid`: that of the first entry of the table with this
/// identifier, or [`unknown_user`] where there is none.
pub open spec fn owner_name(users: Seq<UserModel>, uid: int) -> Seq<char> {
    match user_position(users, uid, 0) {
        Some(i) => users[i].name,
        None => unknown_user(),
    }
}

/// The parts of a command line joined by single spaces.
pub open spec fn joined(parts: Seq<Seq<char>>) -> Seq<char>
    decreases parts.len(),
{
    if parts.len() == 0 {
        Seq::empty()
    } else if parts.len() == 1 {
        parts[0]
    } else {
        joined(parts.drop_last()) + seq![' '] + parts.last()
    }
}

/// The record of a process, given the user table of its snapshot.
pub open spec fn project_model(users: Seq<UserModel>, d: DescriptorModel) -> RecordModel {
    RecordModel {
        pid: d.pid,
        ppid: match d.parent {
            Some(p) => p,
            None => 0,
        },
        name: d.name,
        username: owner_name(users, d.uid),
        status: d.status,
        memory: d.memory,
        command: joined(d.command),
        cwd: d.cwd,
    }
}

/// The models of a user table's entries, in order.
pub open spec fn user_models(users: Seq<UserEntry>) -> Seq<UserModel> {
    Seq::new(users.len(), |i: int| users[i]@)
}

/// Looks an owner up in the user table.
pub fn resolve_user(users: &Vec<UserEntry>, uid: u32) -> (name: String)
    ensures
        name@ == owner_name(user_models(users@), uid as int),
{
    let ghost table = user_models(users@);
    let mut i: usize = 0;
    while i < users.len()
        invariant
            i <= users.len(),
            table == user_models(users@),
            user_position(table, uid as int, 0) == user_position(table, uid as int, i as int),
        decreases users.len() - i,
    {
        if users[i].uid == uid {
            return users[i].name.clone();
        }
        i += 1;
    }
    proof {
        reveal_strlit("???");
        assert("???"@ =~= unknown_user());
    }
    "???".to_owned()
}

/// Joins the arguments of a command line by single spaces.
pub fn join_command(parts: &Vec<String>) -> (line: String)
    ensures
        line@ == joined(Seq::new(parts@.len(), |i: int| parts@[i]@)),
{
    let ghost all = Seq::new(parts@.len(), |i: int| parts@[i]@);
    let mut line = String::new();
    let mut i: usize = 0;
    while i < parts.len()
        invariant
            i <= parts.len(),
            all == Seq::new(parts@.len(), |i: int| parts@[i]@),
            line@ == joined(all.take(i as int)),
        decreases parts.len() - i,
    {
        proof {
            reveal_strlit(" ");
            assert(all.take(i as int + 1).drop_last() =~= all.take(i as int));
            assert(" "@ =~= seq![' ']);
            if i == 0 {
                assert(joined(all.take(0)) =~= Seq::<char>::empty());
                assert(line@ + parts@[0]@ =~= parts@[0]@);
            }
        }
        if i > 0 {
            line.append(" ");
        }
        line.append(parts[i].as_str());
        i += 1;
    }
    proof {
        assert(all.take(parts@.len() as int) =~= all);
    }
    line
}

/// Projects one process of a snapshot into its record.
pub fn project(users: &Vec<UserEntry>, descriptor: &ProcessDescriptor) -> (record: ProcessRecord)
    ensures
        record@ == project_model(user_models(users@), descriptor@),
{
    let ppid: u32 = match descriptor.parent {
        Some(parent) => parent,
        None => 0,
    };
    ProcessRecord {
        pid: descriptor.pid,
        ppid,
        name: descriptor.name.clone(),
        username: resolve_user(users, descriptor.uid),
        status: descriptor.status.clone(),
        memory: descriptor.memory,
        command: join_command(&descriptor.command),
        cwd: descriptor.cwd.clone(),
    }
}

} // verus!
