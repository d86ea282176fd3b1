//! The records that the tracker keeps: commits, sessions and saved contexts.
use vstd::prelude::*;

verus! {

/// A commit made during a session.
pub struct Commit {
    pub hash: String,
    pub message: String,
    pub branch: String,
}

/// A tracked session: a project, when it started, when it ended (if it has),
/// and the commits made meanwhile. Times are stored as written (RFC 3339).
pub struct Session {
    pub project: String,
    pub start_time: String,
    pub end_time: Option<String>,
    pub commits: Vec<Commit>,
}

/// A snapshot of where work stood.
pub struct Context {
    pub saved_at: String,
    pub project: Option<String>,
    pub branch: String,
    pub modified_files: Vec<String>,
    pub note: Option<String>,
    pub recent_commands: Vec<String>,
}

/// A commit as text.
pub struct CommitView {
    pub hash: Seq<char>,
    pub message: Seq<char>,
    pub branch: Seq<char>,
}

/// A session as text.
pub struct SessionView {
    pub project: Seq<char>,
    pub start_time: Seq<char>,
    pub end_time: Option<Seq<char>>,
    pub commits: Seq<CommitView>,
}

/// An optional string as text.
pub open spec fn opt_view(o: Option<String>) -> Option<Seq<char>> {
    match o {
        Some(s) => Some(s@),
        None => None,
    }
}

impl View for Commit {
    type V = CommitView;

    open spec fn view(&self) -> CommitView {
        CommitView { hash: self.hash@, message: self.message@, branch: self.branch@ }
    }
}

impl View for Session {
    type V = SessionView;

    open spec fn view(&self) -> SessionView {
        SessionView {
            project: self.project@,
            start_time: self.start_time@,
            end_time: opt_view(self.end_time),
            commits: self.commits@.map_values(|c: Commit| c@),
        }
    }
}

/// The sessions of a history as text.
pub open spec fn history_view(h: Seq<Session>) -> Seq<SessionView> {
    h.map_values(|s: Session| s@)
}

/// Whether a session has ended.
pub open spec fn is_closed(s: SessionView) -> bool {
    s.end_time is Some
}

} // verus!
