//! What the status bar shows.

use vstd::prelude::*;

verus! {

/// How serious a status line is.
#[derive(Clone, Copy, Debug, PartialEq, Eq, Structural)]
pub enum Severity {
    /// Nothing is wrong.
    Info,
    /// Something failed.
    Error,
}

/// What a status line is about.
#[derive(Clone, Copy, Debug, PartialEq, Eq, Structural)]
pub enum Activity {
    /// No activity in particular.
    General,
}

/// How far work has come.
#[derive(Clone, Copy, Debug, PartialEq, Eq, Structural)]
pub struct Progress {
    /// The units done.
    pub current: u64,
    /// The units in all.
    pub total: u64,
}

/// One status line.
#[derive(Debug)]
pub struct StatusBarUpdate {
    /// The line.
    pub label: String,
    /// What it means.
    pub description: String,
    /// How far the work has come.
    pub progress: Option<Progress>,
    /// How serious it is.
    pub severity: Severity,
    /// What it is about.
    pub activity: Activity,
}

impl StatusBarUpdate {
    /// The line informs, of no activity in particular and without progress.
    pub open spec fn informs(&self, label: Seq<char>, description: Seq<char>) -> bool {
        &&& self.label@ == label
        &&& self.description@ == description
        &&& self.progress is None
        &&& self.severity == Severity::Info
        &&& self.activity == Activity::General
    }

    /// A line that informs, of no activity in particular and without progress.
    pub fn informing(label: &str, description: &str) -> (line: StatusBarUpdate)
        ensures
            line.informs(label@, description@),
    {
        StatusBarUpdate {
            label: label.to_owned(),
            description: description.to_owned(),
            progress: None,
            severity: Severity::Info,
            activity: Activity::General,
        }
    }
}

} // verus!
