//! The nine join modes and the policy table that tells them apart.

use vstd::prelude::*;
use crate::error::JoinError;

verus! {

/// One of the nine ways to join two tables.
#[derive(Clone, Copy, Debug, PartialEq, Eq, Structural)]
pub enum JoinMode {
    Inner,
    LeftOuter,
    RightOuter,
    FullOuter,
    LeftSemi,
    LeftAnti,
    RightSemi,
    RightAnti,
    Cross,
}

impl JoinMode {
    /// Whether the right table is streamed against an index of the left one.
    /// In every other mode the left table is streamed.
    pub open spec fn spec_streams_right(self) -> bool {
        self == JoinMode::RightSemi || self == JoinMode::RightAnti
    }

    /// Whether the right table is streamed against an index of the left one.
    #[verifier::when_used_as_spec(spec_streams_right)]
    pub fn streams_right(self) -> (b: bool)
        ensures
            b == self.spec_streams_right(),
    {
        match self {
            JoinMode::RightSemi | JoinMode::RightAnti => true,
            _ => false,
        }
    }

    /// Whether unmatched build rows are appended after the streamed pass.
    pub open spec fn spec_has_tail(self) -> bool {
        self == JoinMode::RightOuter || self == JoinMode::FullOuter
    }

    /// Whether unmatched build rows are appended after the streamed pass.
    #[verifier::when_used_as_spec(spec_has_tail)]
    pub fn has_tail(self) -> (b: bool)
        ensures
            b == self.spec_has_tail(),
    {
        match self {
            JoinMode::RightOuter | JoinMode::FullOuter => true,
            _ => false,
        }
    }

    /// Whether the mode keeps the streamed rows that have no match.
    pub open spec fn spec_is_anti(self) -> bool {
        self == JoinMode::LeftAnti || self == JoinMode::RightAnti
    }

    /// Whether the mode keeps the streamed rows that have no match.
    #[verifier::when_used_as_spec(spec_is_anti)]
    pub fn is_anti(self) -> (b: bool)
        ensures
            b == self.spec_is_anti(),
    {
        match self {
            JoinMode::LeftAnti | JoinMode::RightAnti => true,
            _ => false,
        }
    }

    /// Whether output rows hold the fields of both tables. The semi and anti
    /// joins emit rows of the streamed table alone.
    pub open spec fn spec_pairs_rows(self) -> bool {
        self == JoinMode::Inner || self == JoinMode::LeftOuter || self == JoinMode::RightOuter
            || self == JoinMode::FullOuter || self == JoinMode::Cross
    }

    /// Whether output rows hold the fields of both tables.
    #[verifier::when_used_as_spec(spec_pairs_rows)]
    pub fn pairs_rows(self) -> (b: bool)
        ensures
            b == self.spec_pairs_rows(),
    {
        match self {
            JoinMode::Inner
            | JoinMode::LeftOuter
            | JoinMode::RightOuter
            | JoinMode::FullOuter
            | JoinMode::Cross => true,
            _ => false,
        }
    }
}

/// The mode switches of a request, one per mode other than the inner join.
#[derive(Clone, Copy, Debug)]
pub struct ModeFlags {
    pub left: bool,
    pub right: bool,
    pub full: bool,
    pub cross: bool,
    pub left_semi: bool,
    pub left_anti: bool,
    pub right_semi: bool,
    pub right_anti: bool,
}

/// 1 for a switch that is set, 0 for one that is not.
pub open spec fn bit(b: bool) -> nat {
    if b { 1 } else { 0 }
}

impl ModeFlags {
    /// How many switches are set.
    pub open spec fn count(self) -> nat {
        bit(self.left) + bit(self.right) + bit(self.full) + bit(self.cross)
            + bit(self.left_semi) + bit(self.left_anti) + bit(self.right_semi)
            + bit(self.right_anti)
    }

    /// The mode that the switches select when at most one is set.
    pub open spec fn chosen(self) -> JoinMode {
        if self.left {
            JoinMode::LeftOuter
        } else if self.right {
            JoinMode::RightOuter
        } else if self.full {
            JoinMode::FullOuter
        } else if self.cross {
            JoinMode::Cross
        } else if self.left_semi {
            JoinMode::LeftSemi
        } else if self.left_anti {
            JoinMode::LeftAnti
        } else if self.right_semi {
            JoinMode::RightSemi
        } else if self.right_anti {
            JoinMode::RightAnti
        } else {
            JoinMode::Inner
        }
    }

    /// No switch set: the inner join.
    pub fn none() -> (f: ModeFlags)
        ensures
            f.count() == 0,
            f.chosen() == JoinMode::Inner,
    {
        ModeFlags {
            left: false,
            right: false,
            full: false,
            cross: false,
            left_semi: false,
            left_anti: false,
            right_semi: false,
            right_anti: false,
        }
    }
}

fn unit(b: bool) -> (n: u8)
    ensures
        n == bit(b),
{
    if b {
        1
    } else {
        0
    }
}

/// Picks the join mode from the switches: the inner join when none is set,
/// the mode of the one switch that is set, and a usage error when two or
/// more are set.
pub fn select_mode(flags: &ModeFlags) -> (r: Result<JoinMode, JoinError>)
    ensures
        flags.count() <= 1 ==> r == Ok::<JoinMode, JoinError>(flags.chosen()),
        flags.count() > 1 ==> r == Err::<JoinMode, JoinError>(JoinError::ConflictingModes),
{
    let n: u8 = unit(flags.left) + unit(flags.right) + unit(flags.full) + unit(flags.cross)
        + unit(flags.left_semi) + unit(flags.left_anti) + unit(flags.right_semi) + unit(
        flags.right_anti,
    );
    if n > 1 {
        return Err(JoinError::ConflictingModes);
    }
    let m = if flags.left {
        JoinMode::LeftOuter
    } else if flags.right {
        JoinMode::RightOuter
    } else if flags.full {
        JoinMode::FullOuter
    } else if flags.cross {
        JoinMode::Cross
    } else if flags.left_semi {
        JoinMode::LeftSemi
    } else if flags.left_anti {
        JoinMode::LeftAnti
    } else if flags.right_semi {
        JoinMode::RightSemi
    } else if flags.right_anti {
        JoinMode::RightAnti
    } else {
        JoinMode::Inner
    };
    Ok(m)
}

} // verus!
