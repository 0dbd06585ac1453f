//! Decisions of the log tailer: on each poll of the log file, whether to show
//! the placeholder, to read and show the file, or to do nothing.
use vstd::prelude::*;

verus! {

/// The text shown while the log file does not exist.
pub const LOG_PLACEHOLDER: &'static str = "No logs yet.\n\nLogs will be created on next voice input.";

/// What one poll found.
#[derive(Clone, Copy, Debug, PartialEq, Eq, Structural)]
pub enum Observation {
    Missing,
    /// The file exists; its modification time in nanoseconds since the epoch.
    Present { mtime: u64 },
}

/// What the caller is to do after a poll.
#[derive(Clone, Copy, Debug, PartialEq, Eq, Structural)]
pub enum TailAction {
    Nothing,
    ShowPlaceholder,
    /// Read the whole file and show its contents.
    ReadAndShow,
}

/// The tailer's memory between polls.
#[derive(Clone, Copy, Debug, PartialEq, Eq, Structural)]
pub struct LogTailer {
    /// Modification time of the last snapshot shown, if any.
    pub last_mtime: Option<u64>,
    /// Whether the file's absence has already been shown.
    pub missing_shown: bool,
}

/// The state after a poll that found `obs`, and the action it calls for.
pub open spec fn step(s: LogTailer, obs: Observation) -> (LogTailer, TailAction) {
    match obs {
        Observation::Missing => {
            if s.missing_shown {
                (s, TailAction::Nothing)
            } else {
                (LogTailer { missing_shown: true, ..s }, TailAction::ShowPlaceholder)
            }
        },
        Observation::Present { mtime } => {
            let fresh = match s.last_mtime {
                None => true,
                Some(last) => mtime > last,
            };
            if fresh {
                (LogTailer { last_mtime: Some(mtime), missing_shown: false }, TailAction::ReadAndShow)
            } else {
                (LogTailer { missing_shown: false, ..s }, TailAction::Nothing)
            }
        },
    }
}

impl LogTailer {
    /// A tailer that has shown nothing yet: its first poll always shows
    /// either the placeholder or a snapshot of the file.
    pub fn new() -> (r: Self)
        ensures
            r.last_mtime is None,
            !r.missing_shown,
    {
        LogTailer { last_mtime: None, missing_shown: false }
    }

    /// Records one poll and says what to show.
    pub fn tick(&mut self, obs: Observation) -> (r: TailAction)
        ensures
            (*final(self), r) == step(*old(self), obs),
    {
        match obs {
            Observation::Missing => {
                if self.missing_shown {
                    TailAction::Nothing
                } else {
                    self.missing_shown = true;
                    TailAction::ShowPlaceholder
                }
            },
            Observation::Present { mtime } => {
                let fresh = match self.last_mtime {
                    None => true,
                    Some(last) => mtime > last,
                };
                self.missing_shown = false;
                if fresh {
                    self.last_mtime = Some(mtime);
                    TailAction::ReadAndShow
                } else {
                    TailAction::Nothing
                }
            },
        }
    }

    /// Records that the log was cleared: the caller removes the file and shows
    /// empty text, which the following poll of the missing file keeps.
    pub fn clear(&mut self)
        ensures
            final(self).missing_shown,
            final(self).last_mtime == old(self).last_mtime,
    {
        self.missing_shown = true;
    }
}

/// A second poll that finds the file as the first one did shows nothing new.
pub proof fn lemma_tick_idempotent(s: LogTailer, obs: Observation)
    ensures
        step(step(s, obs).0, obs).1 == TailAction::Nothing,
{
}

} // verus!
