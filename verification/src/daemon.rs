//! The background daemon's decisions.
//!
//! The daemon loads the store, fires a notification for every timer that is
//! due, records what it did, and sleeps until the next timer is due; it ends
//! once no timer is left. Loading, notifying, saving and sleeping happen
//! outside this library. What happens in which order, and with which values,
//! is decided here: [`Daemon::step_at`] takes the daemon's state and the
//! outcome of the last action and returns the next state and the next action.

use vstd::prelude::*;
use crate::database::{lemma_first_with_id, Database, DatabaseView, Timer};
use crate::platform::{is_unix_nanos, now_utc_nanos, NANOS_PER_SECOND};

verus! {

/// The longest the daemon sleeps between two looks at the store, in seconds.
pub const MAX_SLEEP_SECONDS: u64 = 3600;

/// How long the daemon sleeps when it has no timer to go by, in seconds.
pub const IDLE_SLEEP_SECONDS: u64 = 30;

/// How long the daemon waits before it tries a failed notification again, in
/// milliseconds.
pub const RETRY_DELAY_MILLIS: u64 = 500;

/// The earliest `due_at` among `timers`; 0 when there are none.
pub open spec fn soonest_due(timers: Seq<Timer>) -> int
    decreases timers.len(),
{
    if timers.len() == 0 {
        0
    } else if timers.len() == 1 {
        timers[0].due_at as int
    } else {
        let before = soonest_due(timers.drop_last());
        if timers.last().due_at < before {
            timers.last().due_at as int
        } else {
            before
        }
    }
}

/// `soonest_due` is a minimum: some timer is due then, and none earlier.
pub proof fn lemma_soonest_due(timers: Seq<Timer>)
    requires
        timers.len() > 0,
    ensures
        exists|i: int| 0 <= i < timers.len() && (#[trigger] timers[i]).due_at == soonest_due(timers),
        forall|i: int| 0 <= i < timers.len() ==> soonest_due(timers) <= (#[trigger] timers[i]).due_at,
    decreases timers.len(),
{
    if timers.len() == 1 {
        assert(timers[0].due_at == soonest_due(timers));
    } else {
        let front = timers.drop_last();
        lemma_soonest_due(front);
        let k = choose|i: int| 0 <= i < front.len() && (#[trigger] front[i]).due_at == soonest_due(front);
        assert(front[k] == timers[k]);
        if timers.last().due_at < soonest_due(front) {
            assert(timers[timers.len() - 1].due_at == soonest_due(timers));
        } else {
            assert(timers[k].due_at == soonest_due(timers));
        }
        assert forall|i: int| 0 <= i < timers.len() implies soonest_due(timers) <= (
        #[trigger] timers[i]).due_at by {
            if i < front.len() {
                assert(front[i] == timers[i]);
            }
        }
    }
}

/// The number of seconds to sleep at `now` with the given active timers.
///
/// With no timer, [`IDLE_SLEEP_SECONDS`]. Otherwise the whole seconds until
/// the earliest timer is due, plus one; one second when that timer is due
/// within a second or is overdue; and never more than [`MAX_SLEEP_SECONDS`].
pub open spec fn sleep_for(timers: Seq<Timer>, now: int) -> int {
    if timers.len() == 0 {
        IDLE_SLEEP_SECONDS as int
    } else {
        let until = soonest_due(timers) - now;
        let wanted = if until >= NANOS_PER_SECOND {
            until / (NANOS_PER_SECOND as int) + 1
        } else {
            1
        };
        if wanted > MAX_SLEEP_SECONDS {
            MAX_SLEEP_SECONDS as int
        } else {
            wanted
        }
    }
}

/// The earliest `due_at` among the timers, if there is a timer.
pub fn earliest_due(timers: &Vec<Timer>) -> (r: Option<i128>)
    ensures
        r is Some <==> timers@.len() > 0,
        r is Some ==> r->0 == soonest_due(timers@),
{
    if timers.len() == 0 {
        return None;
    }
    let mut best: i128 = timers[0].due_at;
    let mut i: usize = 1;
    assert(timers@.take(1).len() == 1);
    while i < timers.len()
        invariant
            1 <= i <= timers.len(),
            best == soonest_due(timers@.take(i as int)),
        decreases timers.len() - i,
    {
        assert(timers@.take(i + 1).drop_last() == timers@.take(i as int));
        if timers[i].due_at < best {
            best = timers[i].due_at;
        }
        i += 1;
    }
    assert(timers@.take(i as int) == timers@);
    Some(best)
}

/// How long to sleep at `now`, in seconds: see [`sleep_for`].
pub fn sleep_seconds(timers: &Vec<Timer>, now: i128) -> (secs: u64)
    ensures
        secs == sleep_for(timers@, now as int),
        timers@.len() == 0 ==> secs == IDLE_SLEEP_SECONDS,
        1 <= secs <= MAX_SLEEP_SECONDS,
{
    match earliest_due(timers) {
        None => IDLE_SLEEP_SECONDS,
        Some(due) => {
            if due <= now {
                1
            } else {
                match due.checked_sub(now) {
                    None => MAX_SLEEP_SECONDS,
                    Some(until) => {
                        if until < NANOS_PER_SECOND {
                            1
                        } else {
                            let whole: u128 = (until as u128) / (NANOS_PER_SECOND as u128);
                            if whole >= MAX_SLEEP_SECONDS as u128 {
                                MAX_SLEEP_SECONDS
                            } else {
                                whole as u64 + 1
                            }
                        }
                    },
                }
            }
        },
    }
}


/// What the daemon tells the user when a timer is due. The timer's message is
/// the title; the text under it is [`notice_body`] for every timer.
#[derive(Debug)]
pub struct Notice {
    /// The title: the timer's message.
    pub title: String,
    /// Whether the notification is to be shown as critical.
    pub critical: bool,
    /// Whether the notification is to come with a sound.
    pub sound: bool,
}

/// The notice for a timer: its message as title, critical if and only if the
/// timer is urgent, with a sound if and only if the timer asks for one.
pub open spec fn notice_of(timer: Timer) -> Notice {
    Notice { title: timer.message, critical: timer.urgent, sound: timer.sound }
}

/// The text of every notification under its title.
pub open spec fn notice_body_text() -> Seq<char> {
    "Break timer completed"@
}

/// The text of every notification under its title.
pub fn notice_body() -> (body: &'static str)
    ensures
        body@ == notice_body_text(),
{
    "Break timer completed"
}

/// The notice for a timer: see [`notice_of`].
pub fn notice_for(timer: &Timer) -> (notice: Notice)
    ensures
        notice == notice_of(*timer),
{
    Notice { title: timer.message.clone(), critical: timer.urgent, sound: timer.sound }
}

/// The store after the daemon has dealt with a due timer at `now`: a
/// recurring timer is copied to the history and restarted, so it stays
/// active; any other is completed, so it moves to the history.
pub open spec fn settled(db: DatabaseView, timer: Timer, now: int) -> DatabaseView {
    if timer.recurring {
        db.archive(timer).reset(timer.id, now)
    } else {
        db.complete(timer.id)
    }
}

/// Settling a timer keeps a well-formed store well formed, and never adds an
/// active timer.
pub proof fn lemma_settled_keeps_wf(db: DatabaseView, timer: Timer, now: int)
    requires
        db.wf(),
        is_unix_nanos(now),
    ensures
        settled(db, timer, now).wf(),
        settled(db, timer, now).timers.len() <= db.timers.len(),
        settled(db, timer, now).next_id == db.next_id,
{
    lemma_first_with_id(db.timers, timer.id);
    lemma_first_with_id(db.archive(timer).timers, timer.id);
}

/// Records in the store that the daemon has dealt with `timer` at `now`: see
/// [`settled`].
pub fn settle(db: &mut Database, timer: &Timer, now: i128)
    requires
        is_unix_nanos(now as int),
    ensures
        final(db)@ == settled(old(db)@, *timer, now as int),
        old(db)@.wf() ==> final(db)@.wf(),
{
    if timer.recurring {
        db.add_to_history(timer.clone());
        let _ = db.reset_timer_at(timer.id, now);
    } else {
        let _ = db.complete_timer(timer.id);
    }
}

/// Where the daemon stands. From `Loading` to `Sleeping` the daemon is
/// polling: it is in the middle of one look at the store, or asleep between
/// two.
#[derive(Debug, Clone, Copy, PartialEq, Eq, Structural)]
pub enum Phase {
    /// Waiting for the marker of the running daemon to be written.
    Starting,
    /// Waiting for the store to be loaded.
    Loading,
    /// Waiting for the outcome of a notification.
    Notifying,
    /// Waiting for the delay before a notification is tried again.
    Retrying,
    /// Waiting for the store to be saved.
    Saving,
    /// Asleep until the next look at the store.
    Sleeping,
    /// Done: the last look found no active timer.
    Terminated,
    /// Given up: the daemon could not start.
    Failed,
}

/// What happened outside since the daemon's last action.
#[derive(Debug)]
pub enum Event {
    /// The marker was written.
    MarkerWritten,
    /// The marker could not be written, or there is no place for it.
    StartupFailed,
    /// The store was loaded.
    Loaded(Database),
    /// The store could not be loaded.
    LoadFailed,
    /// The notification was delivered (`true`) or its delivery failed.
    Notified(bool),
    /// The delay before a retry is over.
    Waited,
    /// The store was saved (`true`) or saving it failed.
    Saved(bool),
    /// The sleep is over.
    Woke,
}

/// What is to be done outside next.
#[derive(Debug)]
pub enum Action {
    /// Write the marker that holds the id of this process and report
    /// `MarkerWritten` or `StartupFailed`.
    WriteMarker,
    /// Load the store and report `Loaded` or `LoadFailed`.
    Load,
    /// Deliver the notice and report `Notified`.
    Notify(Notice),
    /// Wait that many milliseconds and report `Waited`.
    Wait(u64),
    /// Save the daemon's store and report `Saved`.
    Save,
    /// Sleep that many seconds and report `Woke`.
    Sleep(u64),
    /// Remove the marker and end the process with success.
    Exit,
    /// End the process with a failure, and leave the marker be.
    Abort,
}

/// The daemon's state.
#[derive(Debug)]
pub struct Daemon {
    /// Where the daemon stands.
    pub phase: Phase,
    /// The store as loaded at the last look, with what the daemon has
    /// recorded in it since.
    pub db: Database,
    /// The timers that were due at the last look.
    pub expired: Vec<Timer>,
    /// The index in `expired` of the timer that is being notified.
    pub cursor: usize,
    /// Whether the notification under way is a second try.
    pub retried: bool,
    /// The length of the sleep under way, in seconds.
    pub nap: u64,
}

/// The daemon's state as a mathematical value.
pub struct DaemonView {
    pub phase: Phase,
    pub db: DatabaseView,
    pub expired: Seq<Timer>,
    pub cursor: nat,
    pub retried: bool,
    pub nap: u64,
}

impl View for Daemon {
    type V = DaemonView;

    open spec fn view(&self) -> DaemonView {
        DaemonView {
            phase: self.phase,
            db: self.db@,
            expired: self.expired@,
            cursor: self.cursor as nat,
            retried: self.retried,
            nap: self.nap,
        }
    }
}

impl DaemonView {
    /// The state in which the daemon starts: about to write its marker.
    pub open spec fn initial() -> DaemonView {
        DaemonView {
            phase: Phase::Starting,
            db: DatabaseView::empty(),
            expired: Seq::empty(),
            cursor: 0,
            retried: false,
            nap: IDLE_SLEEP_SECONDS,
        }
    }

    /// The invariant of the daemon's state: while a notification is under
    /// way, there is a timer that it is for; a sleep lasts at least a second
    /// and at most [`MAX_SLEEP_SECONDS`]; and the daemon has terminated only
    /// with an empty active list.
    pub open spec fn wf(self) -> bool {
        &&& (self.phase == Phase::Notifying || self.phase == Phase::Retrying) ==> self.cursor
            < self.expired.len()
        &&& self.phase == Phase::Sleeping ==> 1 <= self.nap <= MAX_SLEEP_SECONDS
        &&& self.phase == Phase::Terminated ==> self.db.timers.len() == 0
    }

    /// The action that the daemon is waiting on in this state. It is what the
    /// daemon asks for again when an event comes that the state does not
    /// expect.
    pub open spec fn pending(self) -> Action {
        match self.phase {
            Phase::Starting => Action::WriteMarker,
            Phase::Loading => Action::Load,
            Phase::Notifying => Action::Notify(notice_of(self.expired[self.cursor as int])),
            Phase::Retrying => Action::Wait(RETRY_DELAY_MILLIS),
            Phase::Saving => Action::Save,
            Phase::Sleeping => Action::Sleep(self.nap),
            Phase::Terminated => Action::Exit,
            Phase::Failed => Action::Abort,
        }
    }

    /// The end of one look at the store at `now`: with no active timer left
    /// the daemon terminates; otherwise it sleeps for
    /// `sleep_for(active timers, now)`.
    pub open spec fn rest(self, now: int) -> (DaemonView, Action) {
        if self.db.timers.len() == 0 {
            (DaemonView { phase: Phase::Terminated, ..self }, Action::Exit)
        } else {
            let nap = sleep_for(self.db.timers, now) as u64;
            (DaemonView { phase: Phase::Sleeping, nap, ..self }, Action::Sleep(nap))
        }
    }

    /// The start of one look at the store `db`, loaded at `now`: with no timer
    /// due, the look is over at once and nothing is saved; otherwise the
    /// first due timer is notified.
    pub open spec fn look(self, db: DatabaseView, now: int) -> (DaemonView, Action) {
        let expired = db.expired(now);
        let seen = DaemonView { db, expired, cursor: 0, retried: false, ..self };
        if expired.len() == 0 {
            seen.rest(now)
        } else {
            (DaemonView { phase: Phase::Notifying, ..seen }, Action::Notify(notice_of(expired[0])))
        }
    }

    /// What follows a notification whose outcome is final, at `now`: the timer
    /// is settled in the store; then the next due timer is notified, or, after
    /// the last one, the store is saved.
    pub open spec fn advance(self, now: int) -> (DaemonView, Action) {
        let db = settled(self.db, self.expired[self.cursor as int], now);
        let next = self.cursor + 1;
        if next < self.expired.len() {
            (
                DaemonView { phase: Phase::Notifying, db, cursor: next as nat, retried: false, ..self },
                Action::Notify(notice_of(self.expired[next as int])),
            )
        } else {
            (
                DaemonView { phase: Phase::Saving, db, cursor: next as nat, retried: false, ..self },
                Action::Save,
            )
        }
    }

    /// The daemon's transition: the state and the action that follow `event`
    /// at `now`.
    ///
    /// - `Starting`: with the marker written, the daemon loads the store; if
    ///   it cannot be written, the daemon gives up.
    /// - `Loading`: a loaded store starts a look (`look`); a store that could
    ///   not be loaded is passed over, and the daemon sleeps for
    ///   [`IDLE_SLEEP_SECONDS`] before it looks again.
    /// - `Notifying`: a delivered notification, or one that failed at its
    ///   second try, is final (`advance`); one that failed at its first try is
    ///   tried again after [`RETRY_DELAY_MILLIS`].
    /// - `Retrying`: after the delay the same notice is delivered again.
    /// - `Saving`: saved or not, the look is over (`rest`).
    /// - `Sleeping`: on waking the daemon loads the store again.
    /// - `Terminated`, `Failed`: the daemon stays as it is.
    ///
    /// An event that the state does not expect changes nothing, and the
    /// pending action is asked for again.
    pub open spec fn step(self, event: Event, now: int) -> (DaemonView, Action) {
        match (self.phase, event) {
            (Phase::Starting, Event::MarkerWritten) => (
                DaemonView { phase: Phase::Loading, ..self },
                Action::Load,
            ),
            (Phase::Starting, Event::StartupFailed) => (
                DaemonView { phase: Phase::Failed, ..self },
                Action::Abort,
            ),
            (Phase::Loading, Event::Loaded(db)) => self.look(db@, now),
            (Phase::Loading, Event::LoadFailed) => (
                DaemonView { phase: Phase::Sleeping, nap: IDLE_SLEEP_SECONDS, ..self },
                Action::Sleep(IDLE_SLEEP_SECONDS),
            ),
            (Phase::Notifying, Event::Notified(delivered)) => {
                if delivered || self.retried {
                    self.advance(now)
                } else {
                    (
                        DaemonView { phase: Phase::Retrying, ..self },
                        Action::Wait(RETRY_DELAY_MILLIS),
                    )
                }
            },
            (Phase::Retrying, Event::Waited) => (
                DaemonView { phase: Phase::Notifying, retried: true, ..self },
                Action::Notify(notice_of(self.expired[self.cursor as int])),
            ),
            (Phase::Saving, Event::Saved(_)) => self.rest(now),
            (Phase::Sleeping, Event::Woke) => (
                DaemonView { phase: Phase::Loading, ..self },
                Action::Load,
            ),
            _ => (self, self.pending()),
        }
    }
}

impl Daemon {
    /// Whether the state is well formed: see [`DaemonView::wf`].
    pub fn is_well_formed(&self) -> (r: bool)
        ensures
            r == self@.wf(),
    {
        match self.phase {
            Phase::Notifying => self.cursor < self.expired.len(),
            Phase::Retrying => self.cursor < self.expired.len(),
            Phase::Sleeping => 1 <= self.nap && self.nap <= MAX_SLEEP_SECONDS,
            Phase::Terminated => self.db.timers.len() == 0,
            _ => true,
        }
    }

    /// Whether the daemon has terminated.
    pub fn is_terminated(&self) -> (r: bool)
        ensures
            r == (self@.phase == Phase::Terminated),
    {
        self.phase == Phase::Terminated
    }

    /// The action that the daemon is waiting on: see [`DaemonView::pending`].
    fn pending_action(&self) -> (action: Action)
        requires
            self@.wf(),
        ensures
            action == self@.pending(),
    {
        match self.phase {
            Phase::Starting => Action::WriteMarker,
            Phase::Loading => Action::Load,
            Phase::Notifying => Action::Notify(notice_for(&self.expired[self.cursor])),
            Phase::Retrying => Action::Wait(RETRY_DELAY_MILLIS),
            Phase::Saving => Action::Save,
            Phase::Sleeping => Action::Sleep(self.nap),
            Phase::Terminated => Action::Exit,
            Phase::Failed => Action::Abort,
        }
    }

    /// Ends one look at the store: see [`DaemonView::rest`].
    fn rest_at(self, now: i128) -> (r: (Daemon, Action))
        ensures
            (r.0@, r.1) == self@.rest(now as int),
    {
        if self.db.timers.len() == 0 {
            (Daemon { phase: Phase::Terminated, ..self }, Action::Exit)
        } else {
            let nap = sleep_seconds(&self.db.timers, now);
            (Daemon { phase: Phase::Sleeping, nap, ..self }, Action::Sleep(nap))
        }
    }

    /// Starts one look at a freshly loaded store: see [`DaemonView::look`].
    fn look_at(self, db: Database, now: i128) -> (r: (Daemon, Action))
        ensures
            (r.0@, r.1) == self@.look(db@, now as int),
    {
        let expired = db.expired_timers_at(now);
        if expired.len() == 0 {
            let seen = Daemon { db, expired, cursor: 0, retried: false, ..self };
            seen.rest_at(now)
        } else {
            let notice = notice_for(&expired[0]);
            (
                Daemon {
                    phase: Phase::Notifying,
                    db,
                    expired,
                    cursor: 0,
                    retried: false,
                    nap: self.nap,
                },
                Action::Notify(notice),
            )
        }
    }

    /// Settles the timer whose notification is over and moves on: see
    /// [`DaemonView::advance`].
    fn advance_at(self, now: i128) -> (r: (Daemon, Action))
        requires
            self@.cursor < self@.expired.len(),
            is_unix_nanos(now as int),
        ensures
            (r.0@, r.1) == self@.advance(now as int),
    {
        let Daemon { phase: _, db, expired, cursor, retried: _, nap } = self;
        let mut db = db;
        let count = expired.len();
        assert(cursor < count);
        settle(&mut db, &expired[cursor], now);
        let next = cursor + 1;
        if next < count {
            let notice = notice_for(&expired[next]);
            (
                Daemon { phase: Phase::Notifying, db, expired, cursor: next, retried: false, nap },
                Action::Notify(notice),
            )
        } else {
            (
                Daemon { phase: Phase::Saving, db, expired, cursor: next, retried: false, nap },
                Action::Save,
            )
        }
    }

    /// The daemon's transition at `now`: exactly [`DaemonView::step`].
    ///
    /// A well-formed state stays well formed. In particular the daemon
    /// terminates only when the active list is empty, and every sleep it asks
    /// for lasts between one second and [`MAX_SLEEP_SECONDS`]. It gives up
    /// only if it cannot start: no failure to load, notify or save ends it. A
    /// well-formed store stays well formed through everything the daemon
    /// records in it.
    pub fn step_at(self, event: Event, now: i128) -> (r: (Daemon, Action))
        requires
            self@.wf(),
            is_unix_nanos(now as int),
        ensures
            (r.0@, r.1) == self@.step(event, now as int),
            r.0@.wf(),
            r.1 matches Action::Sleep(secs) ==> 1 <= secs <= MAX_SLEEP_SECONDS,
            r.1 is Exit <==> r.0@.phase == Phase::Terminated,
            r.1 is Exit ==> r.0@.db.timers.len() == 0,
            r.1 is Abort <==> r.0@.phase == Phase::Failed,
            r.0@.phase == Phase::Failed ==> self@.phase == Phase::Failed || (self@.phase
                == Phase::Starting && event is StartupFailed),
            self@.db.wf() && (event matches Event::Loaded(db) ==> db@.wf()) ==> r.0@.db.wf(),
    {
        proof {
            if self@.cursor < self@.expired.len() && self@.db.wf() {
                lemma_settled_keeps_wf(self@.db, self@.expired[self@.cursor as int], now as int);
            }
        }
        match (self.phase, event) {
            (Phase::Starting, Event::MarkerWritten) => (
                Daemon { phase: Phase::Loading, ..self },
                Action::Load,
            ),
            (Phase::Starting, Event::StartupFailed) => (
                Daemon { phase: Phase::Failed, ..self },
                Action::Abort,
            ),
            (Phase::Loading, Event::Loaded(db)) => self.look_at(db, now),
            (Phase::Loading, Event::LoadFailed) => (
                Daemon { phase: Phase::Sleeping, nap: IDLE_SLEEP_SECONDS, ..self },
                Action::Sleep(IDLE_SLEEP_SECONDS),
            ),
            (Phase::Notifying, Event::Notified(delivered)) => {
                if delivered || self.retried {
                    self.advance_at(now)
                } else {
                    (Daemon { phase: Phase::Retrying, ..self }, Action::Wait(RETRY_DELAY_MILLIS))
                }
            },
            (Phase::Retrying, Event::Waited) => {
                let notice = notice_for(&self.expired[self.cursor]);
                (Daemon { phase: Phase::Notifying, retried: true, ..self }, Action::Notify(notice))
            },
            (Phase::Saving, Event::Saved(_)) => self.rest_at(now),
            (Phase::Sleeping, Event::Woke) => (Daemon { phase: Phase::Loading, ..self }, Action::Load),
            _ => {
                let action = self.pending_action();
                (self, action)
            },
        }
    }

    /// The daemon's transition at the instant the clock gives: the outcome of
    /// [`Daemon::step_at`] for that instant, whatever it is.
    pub fn step(self, event: Event) -> (r: (Daemon, Action))
        requires
            self@.wf(),
        ensures
            exists|now: int| is_unix_nanos(now) && (r.0@, r.1) == #[trigger] self@.step(event, now),
            r.0@.wf(),
            r.1 matches Action::Sleep(secs) ==> 1 <= secs <= MAX_SLEEP_SECONDS,
            r.1 is Exit <==> r.0@.phase == Phase::Terminated,
            r.1 is Exit ==> r.0@.db.timers.len() == 0,
            r.1 is Abort <==> r.0@.phase == Phase::Failed,
            r.0@.phase == Phase::Failed ==> self@.phase == Phase::Failed || (self@.phase
                == Phase::Starting && event is StartupFailed),
            self@.db.wf() && (event matches Event::Loaded(db) ==> db@.wf()) ==> r.0@.db.wf(),
    {
        let now = now_utc_nanos();
        let ghost before = self@;
        let r = self.step_at(event, now);
        assert((r.0@, r.1) == before.step(event, now as int));
        r
    }
}

/// Sets out to run the daemon: the daemon at its start, and its first
/// action, which is to write the marker. From there [`Daemon::step`] leads
/// through every look at the store, until the daemon asks to exit.
pub fn run_daemon() -> (r: (Daemon, Action))
    ensures
        r.0@ == DaemonView::initial(),
        r.0@.wf(),
        r.1 == Action::WriteMarker,
{
    (
        Daemon {
            phase: Phase::Starting,
            db: Database::new(),
            expired: Vec::new(),
            cursor: 0,
            retried: false,
            nap: IDLE_SLEEP_SECONDS,
        },
        Action::WriteMarker,
    )
}

} // verus!
