//! Writing a received collection back to the filesystem, one entry at a
//! time in collection order, never over an existing file.
//!
//! The filesystem work is the caller's: it performs each action this
//! machine asks for and reports the result as the next event.

use vstd::prelude::*;
use crate::collection::{Collection, ContentHash};
use crate::path::{get_export_path, is_normal_name, split_slash, views};
use crate::session::TransferError;

verus! {

/// Where an export run stands.
#[derive(Clone, Copy, Debug, PartialEq, Eq, Structural)]
pub enum ExportPhase {
    /// Not started.
    Ready,
    /// Waiting to learn whether the current entry's target exists.
    Checking,
    /// Waiting for the current entry to be written.
    Writing,
    /// Finished, failed, or stopped; no further action follows.
    Halted,
}

/// What the caller reports.
pub enum ExportEvent {
    /// Start the run.
    Begin,
    /// Whether the current entry's target already exists.
    TargetChecked(bool),
    /// The outcome of writing the current entry.
    Written(Result<(), String>),
}

/// What the caller is asked to do next. Targets are components below the
/// output directory.
pub enum ExportAction {
    /// Find out whether this target exists.
    CheckTarget(Vec<String>),
    /// Write the blob with this hash to this target.
    Write(ContentHash, Vec<String>),
    /// Every entry is written.
    Finished,
    /// The run failed with this error; nothing more is written.
    Fail(TransferError),
    /// The run is over; there is nothing to do.
    Halted,
}

/// One run of the export of a collection.
pub struct ExportRun {
    /// The index of the current entry.
    pub next: usize,
    pub phase: ExportPhase,
    /// The target of the current entry.
    pub pending: Vec<String>,
}

/// Every piece of the name passes the component rule.
pub open spec fn name_exportable(name: Seq<char>) -> bool {
    forall|k: int| 0 <= k < split_slash(name).len() ==> is_normal_name(#[trigger] split_slash(name)[k])
}

impl ExportRun {
    /// Well-formed for `c`: a run waiting on an entry points at one of `c`'s
    /// entries, and while that entry's target is checked the run holds the
    /// target.
    pub open spec fn wf(&self, c: &Collection) -> bool {
        &&& (self.phase == ExportPhase::Checking || self.phase == ExportPhase::Writing) ==> self.next
            < c@.len()
        &&& self.phase == ExportPhase::Checking ==> views(self.pending@) == split_slash(
            c@[self.next as int].0,
        )
    }

    /// A run that has not started.
    pub fn new() -> (r: ExportRun)
        ensures
            r.next == 0,
            r.phase == ExportPhase::Ready,
            forall|c: &Collection| r.wf(c),
    {
        ExportRun { next: 0, phase: ExportPhase::Ready, pending: Vec::new() }
    }

    /// Moves to entry `i`: asks for its target to be checked, or ends.
    fn enter(&mut self, c: &Collection, i: usize) -> (r: ExportAction)
        requires
            i <= c@.len(),
        ensures
            i == c@.len() ==> r is Finished && final(self).phase == ExportPhase::Halted,
            i < c@.len() && !name_exportable(c@[i as int].0) ==> r == ExportAction::Fail(
                TransferError::Path(crate::path::PathError::InvalidComponent),
            ) && final(self).phase == ExportPhase::Halted,
            i < c@.len() && name_exportable(c@[i as int].0) ==> {
                &&& r matches ExportAction::CheckTarget(t)
                &&& views(t@) == split_slash(c@[i as int].0)
                &&& final(self).pending@ == t@
                &&& final(self).phase == ExportPhase::Checking
                &&& final(self).next == i
            },
    {
        if i >= c.entries.len() {
            self.phase = ExportPhase::Halted;
            return ExportAction::Finished;
        }
        self.next = i;
        assert(c@[i as int].0 == c.entries@[i as int].name@);
        match get_export_path(c.entries[i].name.as_str()) {
            Ok(parts) => {
                self.pending = parts.clone();
                self.phase = ExportPhase::Checking;
                assert(self.pending@ == parts@);
                ExportAction::CheckTarget(parts)
            },
            Err(e) => {
                self.phase = ExportPhase::Halted;
                ExportAction::Fail(TransferError::Path(e))
            },
        }
    }

    /// Takes one event into account and says what to do next.
    ///
    /// Entries are handled in collection order. An entry whose name breaks
    /// the component rule fails the run; an entry whose target exists fails
    /// it with `ExportConflict` before anything is written there; a failed
    /// write fails it with `Export`. A halted run asks for nothing more, and
    /// an event that does not fit the phase halts the run.
    pub fn step(&mut self, c: &Collection, event: ExportEvent) -> (r: ExportAction)
        requires
            old(self).wf(c),
        ensures
            final(self).wf(c),
            r is CheckTarget ==> final(self).phase == ExportPhase::Checking && final(self).pending@
                == r->CheckTarget_0@,
            r is Write ==> {
                &&& old(self).phase == ExportPhase::Checking
                &&& event == ExportEvent::TargetChecked(false)
                &&& final(self).phase == ExportPhase::Writing
                &&& final(self).next == old(self).next
                &&& r->Write_0 == c@[old(self).next as int].1
                &&& views(r->Write_1@) == split_slash(c@[old(self).next as int].0)
            },
            r is Finished || r is Fail || r is Halted ==> final(self).phase == ExportPhase::Halted,
            old(self).phase == ExportPhase::Halted ==> r is Halted,
            (old(self).phase == ExportPhase::Ready && !(event is Begin)) || (old(self).phase
                == ExportPhase::Checking && !(event is TargetChecked)) || (old(self).phase
                == ExportPhase::Writing && !(event is Written)) ==> r is Halted,
            old(self).phase == ExportPhase::Checking && event == ExportEvent::TargetChecked(true)
                ==> r == ExportAction::Fail(
                TransferError::ExportConflict(c.entries@[old(self).next as int].name),
            ),
            old(self).phase == ExportPhase::Checking && event == ExportEvent::TargetChecked(false)
                ==> r == ExportAction::Write(c@[old(self).next as int].1, old(self).pending),
            old(self).phase == ExportPhase::Writing && (event is Written && event->Written_0 is Err)
                ==> r == ExportAction::Fail(
                TransferError::Export(c.entries@[old(self).next as int].name),
            ),
            ({
                let i = if old(self).phase == ExportPhase::Ready {
                    0
                } else {
                    old(self).next + 1
                };
                (old(self).phase == ExportPhase::Ready && event is Begin) || (old(self).phase
                    == ExportPhase::Writing && event == ExportEvent::Written(Ok(()))) ==> {
                    &&& i == c@.len() ==> r is Finished
                    &&& i < c@.len() && !name_exportable(c@[i].0) ==> r == ExportAction::Fail(
                        TransferError::Path(crate::path::PathError::InvalidComponent),
                    )
                    &&& i < c@.len() && name_exportable(c@[i].0) ==> (r is CheckTarget && views(
                        r->CheckTarget_0@,
                    ) == split_slash(c@[i].0) && final(self).next == i)
                }
            }),
    {
        match self.phase {
            ExportPhase::Ready => {
                if let ExportEvent::Begin = event {
                    return self.enter(c, 0);
                }
            },
            ExportPhase::Checking => {
                if let ExportEvent::TargetChecked(exists) = event {
                    if exists {
                        self.phase = ExportPhase::Halted;
                        return ExportAction::Fail(
                            TransferError::ExportConflict(c.entries[self.next].name.clone()),
                        );
                    }
                    self.phase = ExportPhase::Writing;
                    assert(c@[self.next as int].1 == c.entries@[self.next as int].hash);
                    let mut target: Vec<String> = Vec::new();
                    std::mem::swap(&mut target, &mut self.pending);
                    return ExportAction::Write(c.entries[self.next].hash, target);
                }
            },
            ExportPhase::Writing => {
                if let ExportEvent::Written(result) = event {
                    match result {
                        Ok(()) => {
                            let n = c.entries.len();
                            assert(c@.len() == n);
                            assert(self.next < n);
                            return self.enter(c, self.next + 1);
                        },
                        Err(_) => {
                            self.phase = ExportPhase::Halted;
                            return ExportAction::Fail(
                                TransferError::Export(c.entries[self.next].name.clone()),
                            );
                        },
                    }
                }
            },
            ExportPhase::Halted => {
                return ExportAction::Halted;
            },
        }
        self.phase = ExportPhase::Halted;
        ExportAction::Halted
    }
}

} // verus!
