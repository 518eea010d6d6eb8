//! How a search can fail.
use vstd::prelude::*;
use vstd::string::StringExecFns;

verus! {

/// The ways in which a search fails. An empty result is no failure.
#[derive(Debug, PartialEq, Eq)]
pub enum FindError {
    /// The snapshot of the process table could not be taken.
    Snapshot,
    /// The record of a process could not be written out: the heap cannot hold
    /// the text of one of its fields.
    Projection {
        /// Identifier of the process whose record was refused.
        pid: u32,
        /// Key of the first field, in the order of the schema, that the heap
        /// cannot hold.
        field: String,
    },
}

/// Mathematical model of a [`FindError`].
pub enum Failure {
    Snapshot,
    Projection { pid: int, field: Seq<char> },
}

impl View for FindError {
    type V = Failure;

    open spec fn view(&self) -> Failure {
        match self {
            FindError::Snapshot => Failure::Snapshot,
            FindError::Projection { pid, field } => Failure::Projection {
                pid: *pid as int,
                field: field@,
            },
        }
    }
}

impl FindError {
    /// A line of text that describes the failure.
    pub fn message(&self) -> (text: String)
        ensures
            self is Snapshot ==> text@ == "the process table of this platform cannot be read"@,
            self matches FindError::Projection { field, .. } ==> text@
                == "the heap cannot hold the field "@ + field@,
    {
        match self {
            FindError::Snapshot => "the process table of this platform cannot be read".to_owned(),
            FindError::Projection { pid: _, field } => {
                "the heap cannot hold the field ".to_owned().concat(field.as_str())
            },
        }
    }
}

} // verus!
