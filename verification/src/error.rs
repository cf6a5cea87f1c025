//! The ways in which a join request is rejected.

use vstd::prelude::*;

verus! {

/// The four families of failure that a caller reports to the user.
#[derive(Clone, Copy, Debug, PartialEq, Eq, Structural)]
pub enum ErrorKind {
    /// The request itself is malformed: flags or key specs contradict each other.
    Usage,
    /// A key spec names a column that the table does not have.
    InvalidColumn,
    /// A row does not have the field count of its table.
    Parse,
}

/// Why a join was refused. Nothing is produced when one of these is returned.
#[derive(Clone, Copy, Debug, PartialEq, Eq, Structural)]
pub enum JoinError {
    /// More than one join mode was selected.
    ConflictingModes,
    /// A keyed join mode was given an empty key spec.
    MissingKeySpec,
    /// A cross join was given a key spec, though it has no keys.
    KeySpecOnCross,
    /// The two key specs name different numbers of columns.
    KeyCountMismatch,
    /// A token of a key spec is no column of its table.
    InvalidColumn,
    /// A row's field count differs from that of its table's first row.
    Parse,
}

impl JoinError {
    /// The family of this error.
    pub open spec fn spec_kind(self) -> ErrorKind {
        match self {
            JoinError::ConflictingModes => ErrorKind::Usage,
            JoinError::MissingKeySpec => ErrorKind::Usage,
            JoinError::KeySpecOnCross => ErrorKind::Usage,
            JoinError::KeyCountMismatch => ErrorKind::Usage,
            JoinError::InvalidColumn => ErrorKind::InvalidColumn,
            JoinError::Parse => ErrorKind::Parse,
        }
    }

    /// The family of this error.
    #[verifier::when_used_as_spec(spec_kind)]
    pub fn kind(self) -> (k: ErrorKind)
        ensures
            k == self.spec_kind(),
    {
        match self {
            JoinError::ConflictingModes => ErrorKind::Usage,
            JoinError::MissingKeySpec => ErrorKind::Usage,
            JoinError::KeySpecOnCross => ErrorKind::Usage,
            JoinError::KeyCountMismatch => ErrorKind::Usage,
            JoinError::InvalidColumn => ErrorKind::InvalidColumn,
            JoinError::Parse => ErrorKind::Parse,
        }
    }

    /// The one line that tells the user what was wrong with the request.
    pub open spec fn spec_message(self) -> Seq<char> {
        match self {
            JoinError::ConflictingModes => "Please pick exactly one join operation."@,
            JoinError::MissingKeySpec => "A key column selection is required for this join."@,
            JoinError::KeySpecOnCross => "A cross join takes no key columns."@,
            JoinError::KeyCountMismatch =>
                "Column selections must have the same number of columns."@,
            JoinError::InvalidColumn => "A selected column does not exist in its table."@,
            JoinError::Parse =>
                "A record has a different number of fields than the first record."@,
        }
    }

    /// The one line that tells the user what was wrong with the request.
    pub fn message(self) -> (text: &'static str)
        ensures
            text@ == self.spec_message(),
    {
        match self {
            JoinError::ConflictingModes => "Please pick exactly one join operation.",
            JoinError::MissingKeySpec => "A key column selection is required for this join.",
            JoinError::KeySpecOnCross => "A cross join takes no key columns.",
            JoinError::KeyCountMismatch =>
                "Column selections must have the same number of columns.",
            JoinError::InvalidColumn => "A selected column does not exist in its table.",
            JoinError::Parse =>
                "A record has a different number of fields than the first record.",
        }
    }
}

} // verus!
