//! Locating running processes by their exact executable name.
//!
//! A snapshot of the host's process table is taken through `sysinfo`, the
//! processes whose name equals the needle are selected in snapshot order, each
//! is projected into a record with a fixed schema, and the records are written
//! out as dictionaries on a caller-supplied `starlark` heap.
pub mod emit;
pub mod error;
pub mod find;
pub mod record;
pub mod select;
pub mod snapshot;

pub use error::FindError;
pub use find::{find_by_name, find_in_snapshot, find_in_taken};
pub use record::ProcessRecord;
pub use select::find_records;
pub use snapshot::{take_snapshot, ProcessDescriptor, Snapshot, UserEntry};
