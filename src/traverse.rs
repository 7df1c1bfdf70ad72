//! The run over a single file, a flat directory or a tree: it counts what
//! happened to each file and decides the run's overall result.
use vstd::prelude::*;
use crate::plan::RenameError;

verus! {

/// What a run covers. A single file's failure fails the run; a directory or
/// tree run is best effort and succeeds once its files are gone through.
#[derive(Clone, Copy, Debug, PartialEq, Eq, Structural)]
pub enum Mode {
    SingleFile,
    FlatDirectory,
    RecursiveTree,
}

/// How one file's pipeline ended, where it did not fail.
#[derive(Clone, Copy, Debug, PartialEq, Eq, Structural)]
pub enum FileOutcome {
    Renamed,
    Skipped,
}

/// Counts of a run.
#[derive(Clone, Copy, Debug, PartialEq, Eq, Structural)]
pub struct Summary {
    pub renamed: u64,
    pub skipped: u64,
    pub failed: u64,
}

/// One more, short of the largest count.
pub open spec fn bumped(n: u64) -> u64 {
    if n < u64::MAX {
        (n + 1) as u64
    } else {
        n
    }
}

fn bump(n: u64) -> (r: u64)
    ensures
        r == bumped(n),
{
    if n < u64::MAX {
        n + 1
    } else {
        n
    }
}

/// A run in progress: its mode, its counts and the first failure met.
pub struct Traversal {
    mode: Mode,
    summary: Summary,
    first_error: Option<RenameError>,
}

impl Traversal {
    pub closed spec fn spec_mode(&self) -> Mode {
        self.mode
    }

    pub closed spec fn spec_summary(&self) -> Summary {
        self.summary
    }

    pub closed spec fn spec_first_error(&self) -> Option<RenameError> {
        self.first_error
    }

    /// A run that has handled no file yet.
    pub fn new(mode: Mode) -> (r: Traversal)
        ensures
            r.spec_mode() == mode,
            r.spec_summary() == (Summary { renamed: 0, skipped: 0, failed: 0 }),
            r.spec_first_error() is None,
    {
        Traversal { mode, summary: Summary { renamed: 0, skipped: 0, failed: 0 }, first_error: None }
    }

    pub fn mode(&self) -> (r: Mode)
        ensures
            r == self.spec_mode(),
    {
        self.mode
    }

    pub fn summary(&self) -> (r: Summary)
        ensures
            r == self.spec_summary(),
    {
        self.summary
    }

    /// Records how one file's pipeline ended. A failure is counted and kept if
    /// it is the first; it never stops the run.
    pub fn record(&mut self, outcome: Result<FileOutcome, RenameError>)
        ensures
            final(self).spec_mode() == old(self).spec_mode(),
            outcome == Ok::<FileOutcome, RenameError>(FileOutcome::Renamed) ==> final(self).spec_summary()
                == (Summary { renamed: bumped(old(self).spec_summary().renamed), ..old(self).spec_summary() })
                && final(self).spec_first_error() == old(self).spec_first_error(),
            outcome == Ok::<FileOutcome, RenameError>(FileOutcome::Skipped) ==> final(self).spec_summary()
                == (Summary { skipped: bumped(old(self).spec_summary().skipped), ..old(self).spec_summary() })
                && final(self).spec_first_error() == old(self).spec_first_error(),
            outcome matches Err(e) ==> final(self).spec_summary() == (Summary {
                failed: bumped(old(self).spec_summary().failed),
                ..old(self).spec_summary()
            }) && final(self).spec_first_error() == (if old(self).spec_first_error() is Some {
                old(self).spec_first_error()
            } else {
                Some(e)
            }),
    {
        match outcome {
            Ok(FileOutcome::Renamed) => {
                self.summary.renamed = bump(self.summary.renamed);
            },
            Ok(FileOutcome::Skipped) => {
                self.summary.skipped = bump(self.summary.skipped);
            },
            Err(e) => {
                self.summary.failed = bump(self.summary.failed);
                if self.first_error.is_none() {
                    self.first_error = Some(e);
                }
            },
        }
    }

    /// The run's result: a single-file run fails with its failure; any other
    /// run succeeds with its counts.
    pub fn finish(self) -> (r: Result<Summary, RenameError>)
        ensures
            self.spec_mode() == Mode::SingleFile && self.spec_first_error() is Some ==> r
                == Err::<Summary, RenameError>(self.spec_first_error().unwrap()),
            !(self.spec_mode() == Mode::SingleFile && self.spec_first_error() is Some) ==> r
                == Ok::<Summary, RenameError>(self.spec_summary()),
    {
        match self.mode {
            Mode::SingleFile => match self.first_error {
                Some(e) => Err(e),
                None => Ok(self.summary),
            },
            _ => Ok(self.summary),
        }
    }
}

} // verus!
