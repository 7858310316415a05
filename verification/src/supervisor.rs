//! The supervisor: finding out whether a daemon is running, and starting one
//! if none is.
//!
//! A running daemon leaves a marker that holds its process id. Reading the
//! marker, asking the operating system whether a process is alive and
//! spawning a process happen outside this library. What is asked, in which
//! order, and what follows from the answers is decided here:
//! [`Supervisor::step`] takes the supervisor's state and the answer to its
//! last request and returns the next state and the next request.

use vstd::prelude::*;
use crate::text::{chars_of, decimal, parse_decimal, trim, trimmed};

verus! {

/// The process id that the text of the daemon's marker names: the number
/// that the text denotes once white space around it is dropped, and 0 when it
/// denotes none or one that is no process id of 32 bits.
pub open spec fn marker_pid(text: Seq<char>) -> u32 {
    match decimal(trimmed(text)) {
        Some(n) => if n <= u32::MAX {
            n as u32
        } else {
            0
        },
        None => 0,
    }
}

/// The process whose liveness decides whether a daemon is running, given the
/// text of the marker, or `None` for a marker that is absent.
///
/// No daemon is running, and there is nothing to ask, when the marker is
/// absent or names no process or names process 0. Otherwise a daemon is
/// running if and only if the process returned is alive.
pub fn process_to_probe(marker: Option<&str>) -> (r: Option<u32>)
    ensures
        r == match marker {
            None => None::<u32>,
            Some(text) => if marker_pid(text@) == 0 {
                None
            } else {
                Some(marker_pid(text@))
            },
        },
{
    match marker {
        None => None,
        Some(text) => {
            let chars = chars_of(text);
            let kept = trim(&chars);
            assert(kept@.subrange(0, kept@.len() as int) == kept@);
            match parse_decimal(&kept, 0, kept.len()) {
                Some(n) => {
                    if n == 0 || n > 0xffff_ffff {
                        None
                    } else {
                        Some(n as u32)
                    }
                },
                None => None,
            }
        },
    }
}

/// What the supervisor is out to do.
#[derive(Debug, Clone, Copy, PartialEq, Eq, Structural)]
pub enum Goal {
    /// Find out whether a daemon is running.
    Check,
    /// Make sure a daemon is running: if none is found, go on as for `Start`.
    Ensure,
    /// Start a daemon unless one is found running.
    Start,
}

/// What the supervisor is waiting for.
#[derive(Debug, Clone, Copy, PartialEq, Eq, Structural)]
pub enum Waiting {
    /// The text of the marker, or word that there is none.
    Marker,
    /// Whether the process with this id is alive.
    Probe(u32),
    /// The daemon to be spawned.
    Spawn,
    /// Nothing: the supervisor is done, with this verdict.
    Nothing(Verdict),
}

/// How the supervisor's work ended.
#[derive(Debug, Clone, Copy, PartialEq, Eq, Structural)]
pub enum Verdict {
    /// A daemon was found running; nothing was spawned.
    Running,
    /// No daemon is running, and none was to be started.
    NotRunning,
    /// No daemon was running and one was spawned.
    Spawned,
}

/// The answer to the supervisor's last request.
#[derive(Debug)]
pub enum Answer {
    /// The text of the marker, or `None` where there is no marker.
    MarkerRead(Option<String>),
    /// Whether the process asked about is alive.
    Probed(bool),
    /// The daemon was spawned.
    Spawned,
}

/// What the supervisor asks for next.
#[derive(Debug, Clone, Copy, PartialEq, Eq, Structural)]
pub enum Request {
    /// Read the marker and answer `MarkerRead`.
    ReadMarker,
    /// Ask whether the process with this id is alive and answer `Probed`.
    Probe(u32),
    /// Spawn a daemon, detached, without waiting for it, and answer
    /// `Spawned`.
    Spawn,
    /// Nothing more: the work ended with this verdict.
    Finish(Verdict),
}

/// The supervisor's state.
#[derive(Debug, Clone, Copy, PartialEq, Eq, Structural)]
pub struct Supervisor {
    pub goal: Goal,
    pub waiting: Waiting,
}

impl Supervisor {
    /// The invariant of the supervisor's state: only a supervisor that is
    /// out to start a daemon waits for a spawn or has spawned.
    pub open spec fn wf(self) -> bool {
        (self.waiting == Waiting::Spawn || self.waiting == Waiting::Nothing(Verdict::Spawned))
            ==> self.goal == Goal::Start
    }

    /// The request that the supervisor is waiting on. It is what the
    /// supervisor asks for again when an answer comes that it does not
    /// expect.
    pub open spec fn pending(self) -> Request {
        match self.waiting {
            Waiting::Marker => Request::ReadMarker,
            Waiting::Probe(pid) => Request::Probe(pid),
            Waiting::Spawn => Request::Spawn,
            Waiting::Nothing(verdict) => Request::Finish(verdict),
        }
    }

    /// What follows once no daemon was found running: a mere check ends;
    /// making sure goes on to starting, which looks at the marker once more;
    /// starting spawns.
    pub open spec fn found_none(self) -> (Supervisor, Request) {
        match self.goal {
            Goal::Check => (
                Supervisor { waiting: Waiting::Nothing(Verdict::NotRunning), ..self },
                Request::Finish(Verdict::NotRunning),
            ),
            Goal::Ensure => (
                Supervisor { goal: Goal::Start, waiting: Waiting::Marker },
                Request::ReadMarker,
            ),
            Goal::Start => (Supervisor { waiting: Waiting::Spawn, ..self }, Request::Spawn),
        }
    }

    /// The supervisor's transition.
    ///
    /// - The marker was read: if it names a process (`marker_pid` is not 0),
    ///   that process is asked about; an absent marker, or one that names no
    ///   process, means that no daemon is running.
    /// - The process was asked about: if it is alive, a daemon is running and
    ///   the work ends without a spawn; if not, no daemon is running.
    /// - The daemon was spawned: the work ends.
    ///
    /// An answer that the state does not expect changes nothing, and the
    /// pending request is made again.
    pub open spec fn next(self, answer: Answer) -> (Supervisor, Request) {
        match (self.waiting, answer) {
            (Waiting::Marker, Answer::MarkerRead(Some(text))) => {
                if marker_pid(text@) == 0 {
                    self.found_none()
                } else {
                    (
                        Supervisor { waiting: Waiting::Probe(marker_pid(text@)), ..self },
                        Request::Probe(marker_pid(text@)),
                    )
                }
            },
            (Waiting::Marker, Answer::MarkerRead(None)) => self.found_none(),
            (Waiting::Probe(_), Answer::Probed(alive)) => {
                if alive {
                    (
                        Supervisor { waiting: Waiting::Nothing(Verdict::Running), ..self },
                        Request::Finish(Verdict::Running),
                    )
                } else {
                    self.found_none()
                }
            },
            (Waiting::Spawn, Answer::Spawned) => (
                Supervisor { waiting: Waiting::Nothing(Verdict::Spawned), ..self },
                Request::Finish(Verdict::Spawned),
            ),
            _ => (self, self.pending()),
        }
    }

    /// Whether the state is well formed: see [`Supervisor::wf`].
    pub fn is_well_formed(self) -> (r: bool)
        ensures
            r == self.wf(),
    {
        match self.waiting {
            Waiting::Spawn => self.goal == Goal::Start,
            Waiting::Nothing(Verdict::Spawned) => self.goal == Goal::Start,
            _ => true,
        }
    }

    /// The supervisor set to `goal`, and its first request: read the marker.
    fn begin(goal: Goal) -> (r: (Supervisor, Request))
        ensures
            r.0 == (Supervisor { goal, waiting: Waiting::Marker }),
            r.0.wf(),
            r.1 == Request::ReadMarker,
    {
        (Supervisor { goal, waiting: Waiting::Marker }, Request::ReadMarker)
    }

    /// What follows once no daemon was found running: see
    /// [`Supervisor::found_none`].
    fn on_none(self) -> (r: (Supervisor, Request))
        ensures
            r == self.found_none(),
    {
        match self.goal {
            Goal::Check => (
                Supervisor { waiting: Waiting::Nothing(Verdict::NotRunning), ..self },
                Request::Finish(Verdict::NotRunning),
            ),
            Goal::Ensure => (
                Supervisor { goal: Goal::Start, waiting: Waiting::Marker },
                Request::ReadMarker,
            ),
            Goal::Start => (Supervisor { waiting: Waiting::Spawn, ..self }, Request::Spawn),
        }
    }

    /// The supervisor's transition: exactly [`Supervisor::next`].
    ///
    /// The state stays well formed. A spawn is asked for only by a
    /// supervisor that is out to start a daemon, never by a mere check; and
    /// upon word that the process asked about is alive, the work ends with
    /// the verdict `Running` and nothing is spawned.
    pub fn step(self, answer: Answer) -> (r: (Supervisor, Request))
        requires
            self.wf(),
        ensures
            r == self.next(answer),
            r.0.wf(),
            r.1 == r.0.pending(),
            r.1 is Spawn ==> r.0.goal == Goal::Start && self.goal != Goal::Check,
            answer matches Answer::Probed(true) ==> (self.waiting is Probe ==> r.1
                == Request::Finish(Verdict::Running)),
            self.goal == Goal::Check ==> r.0.goal == Goal::Check,
    {
        match (self.waiting, answer) {
            (Waiting::Marker, Answer::MarkerRead(marker)) => {
                let probe = match &marker {
                    Some(text) => process_to_probe(Some(text.as_str())),
                    None => None,
                };
                match probe {
                    Some(pid) => (
                        Supervisor { waiting: Waiting::Probe(pid), ..self },
                        Request::Probe(pid),
                    ),
                    None => self.on_none(),
                }
            },
            (Waiting::Probe(_), Answer::Probed(alive)) => {
                if alive {
                    (
                        Supervisor { waiting: Waiting::Nothing(Verdict::Running), ..self },
                        Request::Finish(Verdict::Running),
                    )
                } else {
                    self.on_none()
                }
            },
            (Waiting::Spawn, Answer::Spawned) => (
                Supervisor { waiting: Waiting::Nothing(Verdict::Spawned), ..self },
                Request::Finish(Verdict::Spawned),
            ),
            (Waiting::Marker, _) => (self, Request::ReadMarker),
            (Waiting::Probe(pid), _) => (self, Request::Probe(pid)),
            (Waiting::Spawn, _) => (self, Request::Spawn),
            (Waiting::Nothing(verdict), _) => (self, Request::Finish(verdict)),
        }
    }
}

/// Sets out to find whether a daemon is running. The work ends with the
/// verdict `Running` or `NotRunning`, and nothing is spawned.
pub fn is_daemon_running() -> (r: (Supervisor, Request))
    ensures
        r.0 == (Supervisor { goal: Goal::Check, waiting: Waiting::Marker }),
        r.0.wf(),
        r.1 == Request::ReadMarker,
{
    Supervisor::begin(Goal::Check)
}

/// Sets out to make sure that a daemon is running: if none is found, one is
/// started as by [`start_daemon_process`]. With a daemon running it does
/// nothing, so it may be called any number of times.
pub fn ensure_daemon_running() -> (r: (Supervisor, Request))
    ensures
        r.0 == (Supervisor { goal: Goal::Ensure, waiting: Waiting::Marker }),
        r.0.wf(),
        r.1 == Request::ReadMarker,
{
    Supervisor::begin(Goal::Ensure)
}

/// Sets out to start a daemon: one is spawned unless one is found running.
pub fn start_daemon_process() -> (r: (Supervisor, Request))
    ensures
        r.0 == (Supervisor { goal: Goal::Start, waiting: Waiting::Marker }),
        r.0.wf(),
        r.1 == Request::ReadMarker,
{
    Supervisor::begin(Goal::Start)
}

} // verus!
