//! Types shared with the judging valuer: which parts of a judge log its
//! reader may see.
use vstd::prelude::*;

verus! {

/// Which components of one subtask row are visible, as a bit set.
#[derive(Clone, Copy, Debug, PartialEq, Eq, Structural)]
pub struct SubtaskVisibleComponents {
    pub bits: u32,
}

impl SubtaskVisibleComponents {
    /// The score gained for the subtask.
    pub fn score() -> (r: SubtaskVisibleComponents)
        ensures
            r.bits == 1,
    {
        SubtaskVisibleComponents { bits: 1 }
    }

    /// Whether every flag of `other` is set here too.
    pub fn contains(&self, other: SubtaskVisibleComponents) -> (r: bool)
        ensures
            r == (self.bits & other.bits == other.bits),
    {
        self.bits & other.bits == other.bits
    }
}

/// Identifier of one subtask; subtask numbering starts at one.
#[derive(Clone, Copy, Debug, PartialEq, Eq, Structural)]
pub struct SubtaskId(pub u32);

impl SubtaskId {
    /// Valid ids are nonzero.
    pub open spec fn wf(self) -> bool {
        self.0 != 0
    }
}

/// One subtask row of a judge log.
#[derive(Clone, Copy, Debug, PartialEq, Eq, Structural)]
pub struct JudgeLogSubtaskRow {
    pub subtask_id: SubtaskId,
    pub score: u32,
    pub components: SubtaskVisibleComponents,
}

/// Which judge log a row belongs to.
#[derive(Clone, Copy, Debug, PartialEq, Eq, Structural)]
pub enum JudgeLogKind {
    /// The full log, holding all tests.
    Full,
    /// The contestant's log, restricted by the problem's configuration.
    Contestant,
}

/// What the valuer learns of a problem.
#[derive(Clone, Copy, Debug, PartialEq, Eq, Structural)]
pub struct ProblemInfo {
    pub test_count: u32,
}

} // verus!
