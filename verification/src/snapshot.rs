//! The point-in-time view of the process table that a search works on.
use vstd::prelude::*;
use sysinfo::{PidExt, ProcessExt, System, SystemExt, UserExt};

verus! {

/// What a search reads of one running process.
#[derive(Debug, PartialEq, Eq)]
pub struct ProcessDescriptor {
    /// Identifier that the operating system assigned.
    pub pid: u32,
    /// Identifier of the parent process, where one is known.
    pub parent: Option<u32>,
    /// Executable name as the operating system reports it.
    pub name: String,
    /// Identifier of the user who owns the process.
    pub uid: u32,
    /// Scheduling state, in words.
    pub status: String,
    /// Resident memory.
    pub memory: u64,
    /// Command line, one entry per argument.
    pub command: Vec<String>,
    /// Working directory.
    pub cwd: String,
}

/// Mathematical model of a [`ProcessDescriptor`].
pub struct DescriptorModel {
    pub pid: int,
    pub parent: Option<int>,
    pub name: Seq<char>,
    pub uid: int,
    pub status: Seq<char>,
    pub memory: int,
    pub command: Seq<Seq<char>>,
    pub cwd: Seq<char>,
}

impl View for ProcessDescriptor {
    type V = DescriptorModel;

    open spec fn view(&self) -> DescriptorModel {
        DescriptorModel {
            pid: self.pid as int,
            parent: match self.parent {
                Some(p) => Some(p as int),
                None => None,
            },
            name: self.name@,
            uid: self.uid as int,
            status: self.status@,
            memory: self.memory as int,
            command: Seq::new(self.command@.len(), |i: int| self.command@[i]@),
            cwd: self.cwd@,
        }
    }
}

/// One line of the user table: a user identifier and the account's name.
#[derive(Debug, PartialEq, Eq)]
pub struct UserEntry {
    pub uid: u32,
    pub name: String,
}

/// Mathematical model of a [`UserEntry`].
pub struct UserModel {
    pub uid: int,
    pub name: Seq<char>,
}

impl View for UserEntry {
    type V = UserModel;

    open spec fn view(&self) -> UserModel {
        UserModel { uid: self.uid as int, name: self.name@ }
    }
}

/// The processes and users of a host at one moment.
///
/// The processes stand in the order in which the operating system's table was
/// walked; a search keeps that order.
#[derive(Debug, PartialEq, Eq)]
pub struct Snapshot {
    pub processes: Vec<ProcessDescriptor>,
    pub users: Vec<UserEntry>,
}

/// Mathematical model of a [`Snapshot`].
pub struct SnapshotModel {
    pub processes: Seq<DescriptorModel>,
    pub users: Seq<UserModel>,
}

impl View for Snapshot {
    type V = SnapshotModel;

    open spec fn view(&self) -> SnapshotModel {
        SnapshotModel {
            processes: Seq::new(self.processes@.len(), |i: int| self.processes@[i]@),
            users: Seq::new(self.users@.len(), |i: int| self.users@[i]@),
        }
    }
}

/// Every process stands once: no two of them carry the same identifier.
pub open spec fn distinct_pids(processes: Seq<DescriptorModel>) -> bool {
    forall|i: int, j: int|
        0 <= i < j < processes.len() ==> (#[trigger] processes[i]).pid != (
        #[trigger] processes[j]).pid
}

#[verifier::external_type_specification]
#[verifier::external_body]
pub struct ExSystem(System);

/// Reads `sysinfo::System::IS_SUPPORTED`: whether `sysinfo` can inspect this
/// platform at all. Nothing is claimed of the answer.
#[verifier::external_body]
fn platform_supported() -> bool {
    System::IS_SUPPORTED
}

/// Calls `sysinfo::System::new`, which loads nothing yet. Nothing is claimed of
/// the handle.
#[verifier::external_body]
fn system_new() -> System {
    System::new()
}

/// Calls `sysinfo::System::refresh_processes`, which reloads the process table
/// from the operating system. Nothing is claimed of the handle afterwards.
#[verifier::external_body]
fn system_refresh_processes(system: &mut System) {
    system.refresh_processes();
}

/// Calls `sysinfo::System::refresh_users_list`, which reloads the user table.
/// Nothing is claimed of the handle afterwards.
#[verifier::external_body]
fn system_refresh_users(system: &mut System) {
    system.refresh_users_list();
}

/// Walks `sysinfo::System::processes` and copies out of each process what a
/// [`ProcessDescriptor`] holds, in the order of the walk; the owner is the
/// process's `uid` field, which `sysinfo` has on Linux. The table is a map
/// keyed by process identifier, so no identifier comes twice; nothing else is
/// claimed of the list: it is whatever the operating system reported.
#[verifier::external_body]
fn system_processes(system: &System) -> (list: Vec<ProcessDescriptor>)
    ensures
        forall|i: int, j: int|
            0 <= i < j < list@.len() ==> (#[trigger] list@[i]).pid != (#[trigger] list@[j]).pid,
{
    system.processes().iter().map(|(pid, process)| ProcessDescriptor {
        pid: pid.as_u32(),
        parent: process.parent().map(|parent| parent.as_u32()),
        name: process.name().to_string(),
        uid: process.uid,
        status: process.status().to_string(),
        memory: process.memory(),
        command: process.cmd().to_vec(),
        cwd: process.cwd().to_string_lossy().into_owned(),
    }).collect()
}

/// Walks `sysinfo::System::users` and copies out each user's identifier and
/// name. Nothing is claimed of the list.
#[verifier::external_body]
fn system_users(system: &System) -> Vec<UserEntry> {
    system.users().iter().map(|user| UserEntry {
        uid: *user.uid(),
        name: user.name().to_string(),
    }).collect()
}

/// Takes a fresh snapshot of the host: the process table and the user table
/// are both reloaded before either is read.
///
/// Returns `None` exactly when the platform is one that `sysinfo` cannot
/// inspect. A snapshot that was taken lists every process once; beyond that it
/// holds whatever the operating system reported.
pub fn take_snapshot() -> (snapshot: Option<Snapshot>)
    ensures
        snapshot matches Some(taken) ==> distinct_pids(taken@.processes),
{
    if !platform_supported() {
        return None;
    }
    let mut system = system_new();
    system_refresh_processes(&mut system);
    system_refresh_users(&mut system);
    let processes = system_processes(&system);
    let users = system_users(&system);
    let taken = Snapshot { processes, users };
    proof {
        assert forall|i: int, j: int| 0 <= i < j < taken@.processes.len() implies (
        #[trigger] taken@.processes[i]).pid != (#[trigger] taken@.processes[j]).pid by {
            assert(taken@.processes[i] == taken.processes@[i]@);
            assert(taken@.processes[j] == taken.processes@[j]@);
        }
    }
    Some(taken)
}

} // verus!
