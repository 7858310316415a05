//! Reading and writing the store where it is kept: what is done in which
//! order, under which lock.
//!
//! The store lives in one file that any number of processes may touch. A
//! reader holds a shared lock while it reads. A writer holds an exclusive lock
//! from before it reads until after it has written, so that no other process
//! sees or makes a half-done change. Opening, locking, reading, decoding,
//! writing and unlocking happen outside this library. Which of them is asked
//! for next, and how the work ends, is decided here: [`Transaction::step`]
//! takes the state of the work and the reply to the last request and returns
//! the next state and the next request.

use vstd::prelude::*;
use vstd::string::*;
use crate::database::{Database, DatabaseView, Timer};

verus! {

/// What is to be done with the store.
#[derive(Debug, Clone, Copy, PartialEq, Eq, Structural)]
pub enum Plan {
    /// Read the store.
    Load,
    /// Overwrite the store with a given one.
    Save,
    /// Read the store, change it, and write it back, as one step that no
    /// other process can cut in on.
    Transact,
}

/// How a file is locked.
#[derive(Debug, Clone, Copy, PartialEq, Eq, Structural)]
pub enum LockMode {
    /// Any number of holders at a time, and none while one holds the file
    /// exclusively.
    Shared,
    /// One holder at a time, and none while others share the file.
    Exclusive,
}

/// How far the work has come: what it is waiting for.
#[derive(Debug, Clone, Copy, PartialEq, Eq, Structural)]
pub enum Stage {
    /// The place of the file to be found.
    Locating,
    /// The file to be opened.
    Opening,
    /// The lock to be granted.
    Locking,
    /// The length of the file.
    Measuring,
    /// The file to be read and decoded.
    Reading,
    /// The caller's change to be made.
    Mutating,
    /// The store to be written.
    Writing,
    /// The lock to be released.
    Unlocking,
    /// Nothing: the work is over.
    Finished,
}

/// How the work ended.
#[derive(Debug, Clone, Copy, PartialEq, Eq, Structural)]
pub enum Ending {
    /// The store was read, or there was no file and it is the empty store.
    Loaded,
    /// The store was written.
    Saved,
    /// The store was read, changed and written back.
    Committed,
    /// The caller's change failed; nothing was written.
    Aborted,
    /// The file does not hold a store; nothing was written.
    Corrupt,
    /// There is no directory for the data of applications to keep the file
    /// in.
    DataDirUnavailable,
    /// The lock was not granted, or its release failed.
    LockFailure,
    /// Opening, measuring, reading or writing the file failed.
    IoFailure,
}

/// The reply to the last request.
#[derive(Debug)]
pub enum Reply {
    /// The place of the file is known.
    Located,
    /// There is no file.
    Absent,
    /// The file is open.
    Opened,
    /// The lock is granted.
    Locked,
    /// The file is this many bytes long.
    Length(u64),
    /// The file holds this store.
    Decoded(Database),
    /// The file does not hold a store.
    Undecodable,
    /// The caller's change was made to the store of the transaction.
    Mutated,
    /// The caller's change failed.
    MutationFailed,
    /// The store is written.
    Written,
    /// The lock is released.
    Unlocked,
    /// What was asked for could not be done.
    Failed,
}

/// The reply as a mathematical value.
pub enum ReplyView {
    Located,
    Absent,
    Opened,
    Locked,
    Length(u64),
    Decoded(DatabaseView),
    Undecodable,
    Mutated,
    MutationFailed,
    Written,
    Unlocked,
    Failed,
}

impl View for Reply {
    type V = ReplyView;

    open spec fn view(&self) -> ReplyView {
        match self {
            Reply::Located => ReplyView::Located,
            Reply::Absent => ReplyView::Absent,
            Reply::Opened => ReplyView::Opened,
            Reply::Locked => ReplyView::Locked,
            Reply::Length(length) => ReplyView::Length(*length),
            Reply::Decoded(db) => ReplyView::Decoded(db@),
            Reply::Undecodable => ReplyView::Undecodable,
            Reply::Mutated => ReplyView::Mutated,
            Reply::MutationFailed => ReplyView::MutationFailed,
            Reply::Written => ReplyView::Written,
            Reply::Unlocked => ReplyView::Unlocked,
            Reply::Failed => ReplyView::Failed,
        }
    }
}

/// What is asked for next.
#[derive(Debug, Clone, Copy, PartialEq, Eq, Structural)]
pub enum Effect {
    /// Find the place of the file in the directory for the data of
    /// applications.
    Locate,
    /// Open the file: for `Load`, report `Absent` if there is none; for
    /// `Save` and `Transact`, create it, and what leads to it, if there is
    /// none, and leave what it holds alone.
    Open,
    /// Wait for the lock on the open file.
    Lock(LockMode),
    /// Tell the length of the file.
    Measure,
    /// Read the whole file and decode it.
    ReadAndDecode,
    /// Apply the caller's change to the store of the transaction.
    Mutate,
    /// Encode the store of the transaction and put it in place of what the
    /// file holds.
    Write,
    /// Release the lock.
    Unlock,
    /// Nothing more: the work ended so.
    Finish(Ending),
}

/// The state of the work.
#[derive(Debug)]
pub struct Transaction {
    /// What is to be done.
    pub plan: Plan,
    /// How far the work has come.
    pub stage: Stage,
    /// How the work ends once the lock is released; how it ended once it is
    /// over.
    pub ending: Ending,
    /// The store: the one to write, for `Save`; the one read, and then
    /// changed, otherwise.
    pub db: Database,
}

/// The state of the work as a mathematical value.
pub struct TransactionView {
    pub plan: Plan,
    pub stage: Stage,
    pub ending: Ending,
    pub db: DatabaseView,
}

impl View for Transaction {
    type V = TransactionView;

    open spec fn view(&self) -> TransactionView {
        TransactionView { plan: self.plan, stage: self.stage, ending: self.ending, db: self.db@ }
    }
}

impl Plan {
    /// The lock that the plan works under: shared for reading, exclusive for
    /// anything that writes.
    pub open spec fn lock_mode(self) -> LockMode {
        match self {
            Plan::Load => LockMode::Shared,
            Plan::Save => LockMode::Exclusive,
            Plan::Transact => LockMode::Exclusive,
        }
    }

    /// The lock that the plan works under: see [`Plan::lock_mode`].
    pub fn lock(self) -> (mode: LockMode)
        ensures
            mode == self.lock_mode(),
    {
        match self {
            Plan::Load => LockMode::Shared,
            Plan::Save => LockMode::Exclusive,
            Plan::Transact => LockMode::Exclusive,
        }
    }
}

impl Stage {
    /// Whether the lock is held at this stage: from the moment it is granted
    /// until its release is asked for.
    pub open spec fn under_lock(self) -> bool {
        self == Stage::Measuring || self == Stage::Reading || self == Stage::Mutating || self
            == Stage::Writing
    }
}

impl Ending {
    /// Whether the work did what it was to do.
    pub open spec fn is_success(self) -> bool {
        self == Ending::Loaded || self == Ending::Saved || self == Ending::Committed
    }
}

impl TransactionView {
    /// The work at its start.
    pub open spec fn initial(plan: Plan, db: DatabaseView) -> TransactionView {
        TransactionView { plan, stage: Stage::Locating, ending: Ending::IoFailure, db }
    }

    /// The invariant of the state: only a transaction measures and mutates,
    /// a plan to save never reads, and a plan to load never writes.
    pub open spec fn wf(self) -> bool {
        &&& (self.stage == Stage::Measuring || self.stage == Stage::Mutating) ==> self.plan
            == Plan::Transact
        &&& self.stage == Stage::Reading ==> self.plan != Plan::Save
        &&& self.stage == Stage::Writing ==> self.plan != Plan::Load
        &&& (self.ending == Ending::Committed || self.ending == Ending::Aborted) ==> self.plan
            == Plan::Transact
        &&& self.ending == Ending::Saved ==> self.plan == Plan::Save
        &&& self.ending == Ending::Loaded ==> self.plan == Plan::Load
        &&& self.ending == Ending::Corrupt ==> self.plan != Plan::Save
    }

    /// The request that the work is waiting on. It is what is asked for again
    /// when a reply comes that the stage does not expect.
    pub open spec fn pending(self) -> Effect {
        match self.stage {
            Stage::Locating => Effect::Locate,
            Stage::Opening => Effect::Open,
            Stage::Locking => Effect::Lock(self.plan.lock_mode()),
            Stage::Measuring => Effect::Measure,
            Stage::Reading => Effect::ReadAndDecode,
            Stage::Mutating => Effect::Mutate,
            Stage::Writing => Effect::Write,
            Stage::Unlocking => Effect::Unlock,
            Stage::Finished => Effect::Finish(self.ending),
        }
    }

    /// The work moves on to `stage`.
    pub open spec fn go(self, stage: Stage) -> (TransactionView, Effect) {
        let moved = TransactionView { stage, ..self };
        (moved, moved.pending())
    }

    /// The lock is released, and after that the work ends with `ending`.
    pub open spec fn release(self, ending: Ending) -> (TransactionView, Effect) {
        (TransactionView { stage: Stage::Unlocking, ending, ..self }, Effect::Unlock)
    }

    /// The work ends with `ending`.
    pub open spec fn finish(self, ending: Ending) -> (TransactionView, Effect) {
        (TransactionView { stage: Stage::Finished, ending, ..self }, Effect::Finish(ending))
    }

    /// The transition of the work.
    ///
    /// - `Locating`: once the place of the file is known, the file is opened.
    /// - `Opening`: with no file, a plan to load ends at once with the empty
    ///   store. With the file open, the lock of the plan is asked for.
    /// - `Locking`: with the lock granted, a plan to load reads, a plan to
    ///   save writes, and a transaction measures the file.
    /// - `Measuring`: a file of length 0 was just created, and the
    ///   transaction starts from the empty store; any other file is read.
    /// - `Reading`: the store read is what a plan to load ends with, and what
    ///   a transaction changes. A file that holds no store ends the work as
    ///   `Corrupt`.
    /// - `Mutating`: after the change, the store is written. If the change
    ///   failed, nothing is written, and the work ends as `Aborted`.
    /// - `Writing`: with the store written, the work ends as `Saved` or
    ///   `Committed`.
    /// - `Unlocking`: with the lock released, the work ends as was settled.
    ///   If the release fails, work that had succeeded ends as `LockFailure`.
    ///
    /// A failure ends the work with its kind: `DataDirUnavailable` where the
    /// file was to be located, `LockFailure` where the lock was to be granted
    /// or released, `IoFailure` anywhere else. One before the lock is granted
    /// ends the work at once; one under the lock does so after the lock is
    /// released. A reply that the stage does not expect changes nothing, and
    /// the pending request is made again.
    pub open spec fn next(self, reply: ReplyView) -> (TransactionView, Effect) {
        match (self.stage, reply) {
            (Stage::Locating, ReplyView::Located) => self.go(Stage::Opening),
            (Stage::Locating, ReplyView::Failed) => self.finish(Ending::DataDirUnavailable),
            (Stage::Opening, ReplyView::Absent) => if self.plan == Plan::Load {
                TransactionView { db: DatabaseView::empty(), ..self }.finish(Ending::Loaded)
            } else {
                (self, self.pending())
            },
            (Stage::Opening, ReplyView::Opened) => self.go(Stage::Locking),
            (Stage::Opening, ReplyView::Failed) => self.finish(Ending::IoFailure),
            (Stage::Locking, ReplyView::Locked) => match self.plan {
                Plan::Load => self.go(Stage::Reading),
                Plan::Save => self.go(Stage::Writing),
                Plan::Transact => self.go(Stage::Measuring),
            },
            (Stage::Locking, ReplyView::Failed) => self.finish(Ending::LockFailure),
            (Stage::Measuring, ReplyView::Length(length)) => if length == 0 {
                TransactionView { db: DatabaseView::empty(), ..self }.go(Stage::Mutating)
            } else {
                self.go(Stage::Reading)
            },
            (Stage::Reading, ReplyView::Decoded(db)) => if self.plan == Plan::Load {
                TransactionView { db, ..self }.release(Ending::Loaded)
            } else {
                TransactionView { db, ..self }.go(Stage::Mutating)
            },
            (Stage::Reading, ReplyView::Undecodable) => self.release(Ending::Corrupt),
            (Stage::Mutating, ReplyView::Mutated) => self.go(Stage::Writing),
            (Stage::Mutating, ReplyView::MutationFailed) => self.release(Ending::Aborted),
            (Stage::Writing, ReplyView::Written) => self.release(
                if self.plan == Plan::Save {
                    Ending::Saved
                } else {
                    Ending::Committed
                },
            ),
            (Stage::Measuring, ReplyView::Failed) => self.release(Ending::IoFailure),
            (Stage::Reading, ReplyView::Failed) => self.release(Ending::IoFailure),
            (Stage::Mutating, ReplyView::Failed) => self.release(Ending::IoFailure),
            (Stage::Writing, ReplyView::Failed) => self.release(Ending::IoFailure),
            (Stage::Unlocking, ReplyView::Unlocked) => self.finish(self.ending),
            (Stage::Unlocking, ReplyView::Failed) => self.finish(
                if self.ending.is_success() {
                    Ending::LockFailure
                } else {
                    self.ending
                },
            ),
            _ => (self, self.pending()),
        }
    }
}

impl Transaction {
    /// The work at its start, and its first request: locate the file.
    fn begin(plan: Plan, db: Database) -> (r: (Transaction, Effect))
        ensures
            r.0@ == TransactionView::initial(plan, db@),
            r.0@.wf(),
            r.1 == Effect::Locate,
    {
        (
            Transaction { plan, stage: Stage::Locating, ending: Ending::IoFailure, db },
            Effect::Locate,
        )
    }

    /// Whether the state is well formed: see [`TransactionView::wf`].
    pub fn is_well_formed(&self) -> (r: bool)
        ensures
            r == self@.wf(),
    {
        let stage_fits = match self.stage {
            Stage::Measuring => self.plan == Plan::Transact,
            Stage::Mutating => self.plan == Plan::Transact,
            Stage::Reading => self.plan != Plan::Save,
            Stage::Writing => self.plan != Plan::Load,
            _ => true,
        };
        let ending_fits = match self.ending {
            Ending::Committed => self.plan == Plan::Transact,
            Ending::Aborted => self.plan == Plan::Transact,
            Ending::Saved => self.plan == Plan::Save,
            Ending::Loaded => self.plan == Plan::Load,
            Ending::Corrupt => self.plan != Plan::Save,
            _ => true,
        };
        stage_fits && ending_fits
    }

    /// The request that the work is waiting on: see
    /// [`TransactionView::pending`].
    pub fn pending_effect(&self) -> (effect: Effect)
        ensures
            effect == self@.pending(),
    {
        match self.stage {
            Stage::Locating => Effect::Locate,
            Stage::Opening => Effect::Open,
            Stage::Locking => Effect::Lock(self.plan.lock()),
            Stage::Measuring => Effect::Measure,
            Stage::Reading => Effect::ReadAndDecode,
            Stage::Mutating => Effect::Mutate,
            Stage::Writing => Effect::Write,
            Stage::Unlocking => Effect::Unlock,
            Stage::Finished => Effect::Finish(self.ending),
        }
    }

    /// Moves the work on to `stage`.
    fn go(self, stage: Stage) -> (r: (Transaction, Effect))
        ensures
            (r.0@, r.1) == self@.go(stage),
    {
        let moved = Transaction { stage, ..self };
        let effect = moved.pending_effect();
        (moved, effect)
    }

    /// Asks for the release of the lock, with `ending` to follow.
    fn release(self, ending: Ending) -> (r: (Transaction, Effect))
        ensures
            (r.0@, r.1) == self@.release(ending),
    {
        (Transaction { stage: Stage::Unlocking, ending, ..self }, Effect::Unlock)
    }

    /// Ends the work with `ending`.
    fn finish(self, ending: Ending) -> (r: (Transaction, Effect))
        ensures
            (r.0@, r.1) == self@.finish(ending),
    {
        (Transaction { stage: Stage::Finished, ending, ..self }, Effect::Finish(ending))
    }

    /// The transition of the work: exactly [`TransactionView::next`].
    ///
    /// Whatever the replies:
    /// - the state stays well formed, and the request returned is the one the
    ///   new state is waiting on;
    /// - the file is measured, read, changed and written only under the
    ///   lock: a stage under the lock is entered only from the grant of the
    ///   lock or from another stage under the lock;
    /// - a write is asked for only by a plan to save, upon the grant of its
    ///   lock, or by a transaction, upon the success of its change, and never
    ///   after the change failed;
    /// - the work ends as `Committed` or `Saved` only after the store was
    ///   written and the lock released;
    /// - no failure is passed over: after a reply of `Failed`, the work does
    ///   not end in success.
    pub fn step(self, reply: Reply) -> (r: (Transaction, Effect))
        requires
            self@.wf(),
        ensures
            (r.0@, r.1) == self@.next(reply@),
            r.0@.wf(),
            r.1 == r.0@.pending(),
            r.0@.plan == self@.plan,
            r.0@.stage.under_lock() ==> self@.stage.under_lock() || (self@.stage == Stage::Locking
                && reply is Locked),
            r.1 is Write && !(self@.stage == Stage::Writing) ==> (self@.plan == Plan::Save
                && reply is Locked) || (self@.plan == Plan::Transact && self@.stage
                == Stage::Mutating && reply is Mutated),
            reply is MutationFailed && self@.stage == Stage::Mutating ==> r.1 == Effect::Unlock
                && r.0@.ending == Ending::Aborted,
            r.1 is Finish && !(self@.stage == Stage::Finished) && (r.0@.ending == Ending::Committed
                || r.0@.ending == Ending::Saved) ==> self@.stage == Stage::Unlocking
                && reply is Unlocked,
            r.1 matches Effect::Lock(mode) ==> mode == self@.plan.lock_mode(),
            reply is Failed && self@.stage != Stage::Finished ==> !r.0@.ending.is_success(),
    {
        match (self.stage, reply) {
            (Stage::Locating, Reply::Located) => self.go(Stage::Opening),
            (Stage::Locating, Reply::Failed) => self.finish(Ending::DataDirUnavailable),
            (Stage::Opening, Reply::Absent) => match self.plan {
                Plan::Load => {
                    let fresh = Transaction { db: Database::new(), ..self };
                    fresh.finish(Ending::Loaded)
                },
                _ => (self, Effect::Open),
            },
            (Stage::Opening, Reply::Opened) => self.go(Stage::Locking),
            (Stage::Opening, Reply::Failed) => self.finish(Ending::IoFailure),
            (Stage::Locking, Reply::Locked) => match self.plan {
                Plan::Load => self.go(Stage::Reading),
                Plan::Save => self.go(Stage::Writing),
                Plan::Transact => self.go(Stage::Measuring),
            },
            (Stage::Locking, Reply::Failed) => self.finish(Ending::LockFailure),
            (Stage::Measuring, Reply::Length(length)) => {
                if length == 0 {
                    let fresh = Transaction { db: Database::new(), ..self };
                    fresh.go(Stage::Mutating)
                } else {
                    self.go(Stage::Reading)
                }
            },
            (Stage::Reading, Reply::Decoded(db)) => {
                let plan = self.plan;
                let read = Transaction { db, ..self };
                match plan {
                    Plan::Load => read.release(Ending::Loaded),
                    _ => read.go(Stage::Mutating),
                }
            },
            (Stage::Reading, Reply::Undecodable) => self.release(Ending::Corrupt),
            (Stage::Mutating, Reply::Mutated) => self.go(Stage::Writing),
            (Stage::Mutating, Reply::MutationFailed) => self.release(Ending::Aborted),
            (Stage::Writing, Reply::Written) => {
                let ending = match self.plan {
                    Plan::Save => Ending::Saved,
                    _ => Ending::Committed,
                };
                self.release(ending)
            },
            (Stage::Measuring, Reply::Failed) => self.release(Ending::IoFailure),
            (Stage::Reading, Reply::Failed) => self.release(Ending::IoFailure),
            (Stage::Mutating, Reply::Failed) => self.release(Ending::IoFailure),
            (Stage::Writing, Reply::Failed) => self.release(Ending::IoFailure),
            (Stage::Unlocking, Reply::Unlocked) => {
                let ending = self.ending;
                self.finish(ending)
            },
            (Stage::Unlocking, Reply::Failed) => {
                let ending = match self.ending {
                    Ending::Loaded => Ending::LockFailure,
                    Ending::Saved => Ending::LockFailure,
                    Ending::Committed => Ending::LockFailure,
                    other => other,
                };
                self.finish(ending)
            },
            _ => {
                let effect = self.pending_effect();
                (self, effect)
            },
        }
    }
}

impl Database {
    /// A copy of the store.
    pub fn snapshot(&self) -> (copy: Database)
        ensures
            copy@ == self@,
    {
        Database {
            timers: copy_timers(&self.timers),
            history: copy_timers(&self.history),
            next_id: self.next_id,
        }
    }

    /// Sets out to read the store under a shared lock. With no file, the work
    /// ends as `Loaded` with the empty store. A file that holds no store ends
    /// it as `Corrupt`.
    pub fn load() -> (r: (Transaction, Effect))
        ensures
            r.0@ == TransactionView::initial(Plan::Load, DatabaseView::empty()),
            r.0@.wf(),
            r.1 == Effect::Locate,
    {
        Transaction::begin(Plan::Load, Database::new())
    }

    /// Sets out to change the store under an exclusive lock that is held from
    /// before the store is read until after it is written. A file of length 0
    /// counts as the empty store. If the change fails, nothing is written.
    pub fn with_transaction() -> (r: (Transaction, Effect))
        ensures
            r.0@ == TransactionView::initial(Plan::Transact, DatabaseView::empty()),
            r.0@.wf(),
            r.1 == Effect::Locate,
    {
        Transaction::begin(Plan::Transact, Database::new())
    }

    /// Sets out to overwrite what is kept with this store, under an exclusive
    /// lock.
    pub fn save(&self) -> (r: (Transaction, Effect))
        ensures
            r.0@ == TransactionView::initial(Plan::Save, self@),
            r.0@.wf(),
            r.1 == Effect::Locate,
    {
        Transaction::begin(Plan::Save, self.snapshot())
    }
}

/// A copy of the timers.
fn copy_timers(timers: &Vec<Timer>) -> (copy: Vec<Timer>)
    ensures
        copy@ == timers@,
{
    let mut copy: Vec<Timer> = Vec::new();
    let mut i: usize = 0;
    while i < timers.len()
        invariant
            i <= timers@.len(),
            copy@ == timers@.take(i as int),
        decreases timers@.len() - i,
    {
        copy.push(timers[i].clone());
        assert(timers@.take(i + 1) == timers@.take(i as int).push(timers@[i as int]));
        i += 1;
    }
    assert(timers@.take(i as int) == timers@);
    copy
}

/// What the user is told of a file that holds no store: what the decoder
/// said, where the file is, and that deleting the file is the way out.
pub open spec fn corrupt_state_text(reason: Seq<char>, location: Seq<char>) -> Seq<char> {
    "Database file is corrupted or invalid. Error: "@ + reason + "\nLocation: "@ + location
        + "\nTo fix: Delete the file and restart."@
}

/// What the user is told of a file that holds no store: see
/// [`corrupt_state_text`]. The text names the file.
pub fn corrupt_state_message(reason: &str, location: &str) -> (text: String)
    ensures
        text@ == corrupt_state_text(reason@, location@),
{
    let mut text = "Database file is corrupted or invalid. Error: ".to_owned();
    text.append(reason);
    text.append("\nLocation: ");
    text.append(location);
    text.append("\nTo fix: Delete the file and restart.");
    text
}

} // verus!
