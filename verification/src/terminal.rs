//! Terminal sessions, each with its working directory, and the shell jobs
//! that are in flight.
//!
//! The host owns the file system and the job's operating-system process: it
//! resolves a path and reports what it found as a `PathResolution`, and it
//! sends the terminate signal to the child that `kill_job` names.

use crate::error::{ErrorView, SupervisorError};
use crate::process_manager::ChildHandle;
use crate::string_map::StringMap;
use vstd::prelude::*;
use vstd::string::StringExecFns;

verus! {

/// One running shell command: the handle of its process, as long as the
/// process is there.
#[derive(Debug, Clone, Copy, PartialEq, Eq, Structural)]
pub struct TerminalJob {
    pub child: Option<ChildHandle>,
}

/// The state of one terminal session: its working directory.
#[derive(Debug)]
pub struct TerminalSession {
    pub cwd: String,
}

/// What the host found when it resolved the target of a change of directory
/// to an absolute path free of `..` and links.
#[derive(Debug)]
pub enum PathResolution {
    /// The path resolves to this existing directory.
    Directory(String),
    /// The path resolves to this, which is no directory.
    NotADirectory(String),
    /// Nothing exists at the path.
    Missing,
}

pub enum PathResolutionView {
    Directory(Seq<char>),
    NotADirectory(Seq<char>),
    Missing,
}

impl View for PathResolution {
    type V = PathResolutionView;

    open spec fn view(&self) -> PathResolutionView {
        match self {
            PathResolution::Directory(p) => PathResolutionView::Directory(p@),
            PathResolution::NotADirectory(p) => PathResolutionView::NotADirectory(p@),
            PathResolution::Missing => PathResolutionView::Missing,
        }
    }
}

/// The model of the sessions: each known session id with its directory.
pub type Sessions = Map<Seq<char>, Seq<char>>;

/// The directory of a session, which for a session not seen before is the
/// directory of the supervisor's own process.
pub open spec fn cwd_of(sessions: Sessions, session_id: Seq<char>, process_cwd: Seq<char>) -> Seq<
    char,
> {
    if sessions.dom().contains(session_id) {
        sessions[session_id]
    } else {
        process_cwd
    }
}

/// The sessions after the directory of one was asked for: a session not seen
/// before is now known.
pub open spec fn after_get_cwd(
    sessions: Sessions,
    session_id: Seq<char>,
    process_cwd: Seq<char>,
) -> Sessions {
    if sessions.dom().contains(session_id) {
        sessions
    } else {
        sessions.insert(session_id, process_cwd)
    }
}

/// What a change of directory returns: the resolved directory, or why the
/// path cannot be one.
pub open spec fn set_cwd_result(path: Seq<char>, resolution: PathResolutionView) -> Result<
    Seq<char>,
    ErrorView,
> {
    match resolution {
        PathResolutionView::Directory(resolved) => Ok(resolved),
        PathResolutionView::NotADirectory(resolved) => Err(
            ErrorView::PathResolutionFailure("Not a directory: "@ + resolved),
        ),
        PathResolutionView::Missing => Err(
            ErrorView::PathResolutionFailure("Directory not found: "@ + path),
        ),
    }
}

/// The sessions after a change of directory: only a path that resolved to a
/// directory changes anything.
pub open spec fn after_set_cwd(
    sessions: Sessions,
    session_id: Seq<char>,
    resolution: PathResolutionView,
) -> Sessions {
    match resolution {
        PathResolutionView::Directory(resolved) => sessions.insert(session_id, resolved),
        _ => sessions,
    }
}

/// The child to signal when a job is to be killed: none for an unknown job.
pub open spec fn kill_target(jobs: Map<Seq<char>, TerminalJob>, job_id: Seq<char>) -> Option<
    ChildHandle,
> {
    if jobs.dom().contains(job_id) {
        jobs[job_id].child
    } else {
        None
    }
}

/// A change of directory that fails leaves the directory of every session as
/// it was, the session's own included.
pub proof fn lemma_failed_set_cwd_keeps_cwd(
    sessions: Sessions,
    session_id: Seq<char>,
    path: Seq<char>,
    resolution: PathResolutionView,
    process_cwd: Seq<char>,
)
    requires
        !(resolution is Directory),
    ensures
        set_cwd_result(path, resolution) is Err,
        set_cwd_result(path, resolution)->Err_0 is PathResolutionFailure,
        after_set_cwd(sessions, session_id, resolution) == sessions,
        forall|other: Seq<char>|
            cwd_of(after_set_cwd(sessions, session_id, resolution), other, process_cwd) == cwd_of(
                sessions,
                other,
                process_cwd,
            ),
{
}

/// Asking for the directory of a session twice gives the same directory, and
/// the second time changes nothing.
pub proof fn lemma_get_cwd_is_stable(
    sessions: Sessions,
    session_id: Seq<char>,
    first_cwd: Seq<char>,
    later_cwd: Seq<char>,
)
    ensures
        cwd_of(after_get_cwd(sessions, session_id, first_cwd), session_id, later_cwd) == cwd_of(
            sessions,
            session_id,
            first_cwd,
        ),
        after_get_cwd(after_get_cwd(sessions, session_id, first_cwd), session_id, later_cwd)
            == after_get_cwd(sessions, session_id, first_cwd),
{
}

pub struct TerminalManager {
    sessions: StringMap<TerminalSession>,
    jobs: StringMap<TerminalJob>,
}

impl TerminalManager {
    /// The directory of each known session.
    pub closed spec fn sessions(&self) -> Sessions {
        Map::new(
            |k: Seq<char>| self.sessions@.dom().contains(k),
            |k: Seq<char>| self.sessions@[k].cwd@,
        )
    }

    /// The jobs in flight.
    pub closed spec fn jobs(&self) -> Map<Seq<char>, TerminalJob> {
        self.jobs@
    }

    pub closed spec fn wf(&self) -> bool {
        self.sessions.wf() && self.jobs.wf()
    }

    /// The directory to fall back on where the process's own is not known.
    pub fn fallback_cwd(process_cwd: Option<String>) -> (cwd: String)
        ensures
            cwd@ == (match process_cwd {
                Some(d) => d@,
                None => "C:\\"@,
            }),
    {
        match process_cwd {
            Some(d) => d,
            None => String::from_str("C:\\"),
        }
    }

    /// A manager with the session `default` in the directory of the
    /// supervisor's own process, and no job.
    pub fn new(process_cwd: String) -> (t: TerminalManager)
        ensures
            t.wf(),
            t.sessions() == Map::<Seq<char>, Seq<char>>::empty().insert("default"@, process_cwd@),
            t.jobs() == Map::<Seq<char>, TerminalJob>::empty(),
    {
        let mut sessions: StringMap<TerminalSession> = StringMap::new();
        sessions.insert(String::from_str("default"), TerminalSession { cwd: process_cwd });
        let t = TerminalManager { sessions, jobs: StringMap::new() };
        assert(t.sessions() =~= Map::<Seq<char>, Seq<char>>::empty().insert(
            "default"@,
            process_cwd@,
        ));
        t
    }

    /// The working directory of a session. A session not seen before starts
    /// in `process_cwd`, the directory of the supervisor's own process.
    pub fn get_cwd(&mut self, session_id: &str, process_cwd: &str) -> (cwd: String)
        requires
            old(self).wf(),
        ensures
            final(self).wf(),
            cwd@ == cwd_of(old(self).sessions(), session_id@, process_cwd@),
            final(self).sessions() == after_get_cwd(
                old(self).sessions(),
                session_id@,
                process_cwd@,
            ),
            final(self).jobs() == old(self).jobs(),
    {
        if !self.sessions.contains_key(session_id) {
            self.sessions.insert(
                String::from_str(session_id),
                TerminalSession { cwd: String::from_str(process_cwd) },
            );
        }
        let cwd = match self.sessions.get(session_id) {
            Some(session) => session.cwd.clone(),
            None => String::from_str(process_cwd),
        };
        assert(self.sessions() =~= after_get_cwd(old(self).sessions(), session_id@, process_cwd@));
        cwd
    }

    /// The directory against which the host resolves a relative path for a
    /// session: the session's own, or `process_cwd` for a session not seen
    /// before. Nothing is changed.
    pub fn resolution_base(&self, session_id: &str, process_cwd: &str) -> (base: String)
        requires
            self.wf(),
        ensures
            base@ == cwd_of(self.sessions(), session_id@, process_cwd@),
    {
        match self.sessions.get(session_id) {
            Some(session) => session.cwd.clone(),
            None => String::from_str(process_cwd),
        }
    }

    /// Moves a session to the directory that `path` was resolved to, and
    /// returns it. Where the path is missing or is no directory, the session
    /// stays where it is and the failure says which of the two it was.
    pub fn set_cwd(&mut self, session_id: &str, path: &str, resolution: PathResolution) -> (r:
        Result<String, SupervisorError>)
        requires
            old(self).wf(),
        ensures
            final(self).wf(),
            final(self).sessions() == after_set_cwd(old(self).sessions(), session_id@, resolution@),
            final(self).jobs() == old(self).jobs(),
            match r {
                Ok(cwd) => set_cwd_result(path@, resolution@) == Ok::<Seq<char>, ErrorView>(cwd@),
                Err(e) => set_cwd_result(path@, resolution@) == Err::<Seq<char>, ErrorView>(e@),
            },
            !(resolution is Directory) ==> (r matches Err(
                SupervisorError::PathResolutionFailure(_),
            )) && final(self).sessions() == old(self).sessions(),
    {
        match resolution {
            PathResolution::Missing => {
                let mut message = String::from_str("Directory not found: ");
                message.append(path);
                assert(self.sessions() =~= old(self).sessions());
                Err(SupervisorError::PathResolutionFailure(message))
            },
            PathResolution::NotADirectory(resolved) => {
                let mut message = String::from_str("Not a directory: ");
                message.append(resolved.as_str());
                assert(self.sessions() =~= old(self).sessions());
                Err(SupervisorError::PathResolutionFailure(message))
            },
            PathResolution::Directory(resolved) => {
                self.sessions.insert(
                    String::from_str(session_id),
                    TerminalSession { cwd: resolved.clone() },
                );
                assert(self.sessions() =~= old(self).sessions().insert(session_id@, resolved@));
                Ok(resolved)
            },
        }
    }

    /// Names the child that the host is to send the terminate signal to. An
    /// unknown job, or one whose child is gone, names none; that is no
    /// failure, and neither is a signal that finds the process gone.
    pub fn kill_job(&self, job_id: &str) -> (target: Option<ChildHandle>)
        requires
            self.wf(),
        ensures
            target == kill_target(self.jobs(), job_id@),
            !self.jobs().dom().contains(job_id@) ==> target is None,
    {
        match self.jobs.get(job_id) {
            Some(job) => job.child,
            None => None,
        }
    }

    /// Registers a job that was started.
    pub fn add_job(&mut self, job_id: String, job: TerminalJob)
        requires
            old(self).wf(),
        ensures
            final(self).wf(),
            final(self).jobs() == old(self).jobs().insert(job_id@, job),
            final(self).sessions() == old(self).sessions(),
    {
        self.jobs.insert(job_id, job);
        assert(self.sessions() =~= old(self).sessions());
    }

    /// Takes a job that has ended out of the registry.
    pub fn remove_job(&mut self, job_id: &str)
        requires
            old(self).wf(),
        ensures
            final(self).wf(),
            final(self).jobs() == old(self).jobs().remove(job_id@),
            final(self).sessions() == old(self).sessions(),
    {
        self.jobs.remove(job_id);
        assert(self.sessions() =~= old(self).sessions());
    }

    pub fn has_job(&self, job_id: &str) -> (known: bool)
        requires
            self.wf(),
        ensures
            known == self.jobs().dom().contains(job_id@),
    {
        self.jobs.contains_key(job_id)
    }
}

} // verus!
