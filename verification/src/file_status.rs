//! Lifecycle states of workspace files relative to a tracked baseline.

use vstd::prelude::*;

verus! {

/// The state of one workspace file, as shown in the workspace browser.
#[derive(Clone, Copy, Debug, PartialEq, Eq, Structural)]
pub enum SingleFileStatus {
    Keep,
    Added,
    Modified,
    Missing,
    Gone,
    Come,
}

impl SingleFileStatus {
    /// The label under which the state appears in a listing.
    pub open spec fn label(self) -> Seq<char> {
        match self {
            SingleFileStatus::Keep => "Keep"@,
            SingleFileStatus::Added => "Added"@,
            SingleFileStatus::Modified => "Modified"@,
            SingleFileStatus::Missing => "Missing"@,
            SingleFileStatus::Gone => "Gone"@,
            SingleFileStatus::Come => "Come"@,
        }
    }

    pub fn name(&self) -> (s: &'static str)
        ensures
            s@ == self.label(),
    {
        match self {
            SingleFileStatus::Keep => "Keep",
            SingleFileStatus::Added => "Added",
            SingleFileStatus::Modified => "Modified",
            SingleFileStatus::Missing => "Missing",
            SingleFileStatus::Gone => "Gone",
            SingleFileStatus::Come => "Come",
        }
    }
}

/// The three facts by which a file is classified.
#[derive(Clone, Copy, Debug, PartialEq, Eq, Structural)]
pub struct Observation {
    /// The file was part of the tracked baseline.
    pub in_baseline: bool,
    /// The file is on disk now.
    pub on_disk: bool,
    /// The content hash differs from the one recorded in the baseline.
    pub content_changed: bool,
}

impl Observation {
    /// The row of the decision table that this observation selects:
    /// `in_baseline` is the high bit, `content_changed` the low one.
    pub open spec fn row(self) -> int {
        (if self.in_baseline { 4int } else { 0int })
            + (if self.on_disk { 2int } else { 0int })
            + (if self.content_changed { 1int } else { 0int })
    }

    pub fn index(&self) -> (i: usize)
        ensures
            i == self.row(),
            i < 8,
    {
        let high: usize = if self.in_baseline { 4 } else { 0 };
        let mid: usize = if self.on_disk { 2 } else { 0 };
        let low: usize = if self.content_changed { 1 } else { 0 };
        high + mid + low
    }
}

/// An explicit decision table: one state for each combination of the three
/// observed facts. The table is data, so that a deployment states its rule
/// in one visible place.
pub struct StateTable {
    pub rows: [SingleFileStatus; 8],
}

impl StateTable {
    pub fn new(rows: [SingleFileStatus; 8]) -> (t: StateTable)
        ensures
            t.rows == rows,
    {
        StateTable { rows }
    }

    /// Looks the observation up in the table.
    pub fn classify(&self, seen: Observation) -> (state: SingleFileStatus)
        ensures
            state == self.rows@[seen.row()],
    {
        self.rows[seen.index()]
    }
}

} // verus!
