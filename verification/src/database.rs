//! The timer store: active timers, a bounded history of completed ones, and
//! the counter that hands out ids.
//!
//! The store is described by a mathematical model, [`DatabaseView`], on which
//! every operation is a function. The executable methods of [`Database`] are
//! proved to compute those functions, and the laws of the store are proved on
//! the model.

use vstd::prelude::*;
use crate::platform::{is_unix_nanos, now_utc_nanos, random_uuid, NANOS_PER_SECOND};

verus! {

/// The longest duration a timer may be created with: one year, in seconds.
pub const MAX_DURATION_SECONDS: u64 = 31_536_000;

/// The number of completed timers that the history keeps.
pub const MAX_HISTORY: usize = 20;

/// A reminder. `created_at` and `due_at` are instants in nanoseconds since the
/// Unix epoch (UTC); `uuid` is the 128-bit value of the timer's UUID.
#[derive(Debug)]
pub struct Timer {
    pub uuid: u128,
    pub id: u32,
    pub message: String,
    pub duration_seconds: u64,
    pub created_at: i128,
    pub due_at: i128,
    pub urgent: bool,
    pub sound: bool,
    pub recurring: bool,
}

impl Timer {
    /// The instant at which a timer started at `created_at` falls due.
    pub open spec fn due_after(created_at: int, duration_seconds: int) -> int {
        created_at + duration_seconds * NANOS_PER_SECOND
    }

    /// A timer is well formed when its due time is its creation time plus its
    /// duration, and the duration is within the limit.
    pub open spec fn wf(self) -> bool {
        &&& self.duration_seconds <= MAX_DURATION_SECONDS
        &&& self.due_at == Self::due_after(self.created_at as int, self.duration_seconds as int)
    }

    /// Whether the timer is due at `now`.
    pub open spec fn is_expired_at(self, now: int) -> bool {
        self.due_at <= now
    }

    /// The timer restarted at `now`: same identity, message, duration and
    /// flags; fresh timestamps.
    pub open spec fn restarted(self, now: int) -> Timer {
        Timer {
            created_at: now as i128,
            due_at: Self::due_after(now, self.duration_seconds as int) as i128,
            ..self
        }
    }

    /// Whether the timer is due at `now`: `due_at <= now`.
    pub fn is_expired(&self, now: i128) -> (r: bool)
        ensures
            r == self.is_expired_at(now as int),
    {
        self.due_at <= now
    }

    /// A copy of this timer with `created_at = now` and `due_at = now +
    /// duration_seconds`.
    pub fn restart(&self, now: i128) -> (r: Timer)
        requires
            is_unix_nanos(now as int),
        ensures
            r == self.restarted(now as int),
            r.created_at == now,
            r.due_at == now + self.duration_seconds * NANOS_PER_SECOND,
    {
        Timer {
            uuid: self.uuid,
            id: self.id,
            message: self.message.clone(),
            duration_seconds: self.duration_seconds,
            created_at: now,
            due_at: now + (self.duration_seconds as i128) * NANOS_PER_SECOND,
            urgent: self.urgent,
            sound: self.sound,
            recurring: self.recurring,
        }
    }
}

impl Clone for Timer {
    fn clone(&self) -> (r: Self)
        ensures
            r == *self,
    {
        Timer {
            uuid: self.uuid,
            id: self.id,
            message: self.message.clone(),
            duration_seconds: self.duration_seconds,
            created_at: self.created_at,
            due_at: self.due_at,
            urgent: self.urgent,
            sound: self.sound,
            recurring: self.recurring,
        }
    }
}

/// The index of the first timer in `timers` whose id is `id`, or
/// `timers.len()` when there is none.
pub open spec fn first_with_id(timers: Seq<Timer>, id: u32) -> int
    decreases timers.len(),
{
    if timers.len() == 0 {
        0
    } else if timers[0].id == id {
        0
    } else {
        1 + first_with_id(timers.drop_first(), id)
    }
}

/// `first_with_id` finds the first match: it lies within bounds, nothing
/// before it has the id, and it has the id unless it is the length.
pub proof fn lemma_first_with_id(timers: Seq<Timer>, id: u32)
    ensures
        0 <= first_with_id(timers, id) <= timers.len(),
        forall|j: int| 0 <= j < first_with_id(timers, id) ==> (#[trigger] timers[j]).id != id,
        first_with_id(timers, id) < timers.len() ==> timers[first_with_id(timers, id)].id == id,
    decreases timers.len(),
{
    if timers.len() > 0 && timers[0].id != id {
        let rest = timers.drop_first();
        lemma_first_with_id(rest, id);
        assert forall|j: int| 0 <= j < first_with_id(timers, id) implies (#[trigger] timers[j]).id
            != id by {
            if j > 0 {
                assert(timers[j] == rest[j - 1]);
            }
        }
        assert(timers[first_with_id(timers, id)] == rest[first_with_id(rest, id)]
            || first_with_id(timers, id) == timers.len());
    }
}

/// The index `k` is `first_with_id` as soon as nothing before it has the id
/// and it either has the id or is the length.
pub proof fn lemma_first_with_id_is(timers: Seq<Timer>, id: u32, k: int)
    requires
        0 <= k <= timers.len(),
        forall|j: int| 0 <= j < k ==> (#[trigger] timers[j]).id != id,
        k < timers.len() ==> timers[k].id == id,
    ensures
        first_with_id(timers, id) == k,
{
    lemma_first_with_id(timers, id);
    let f = first_with_id(timers, id);
    if f < k {
        assert(timers[f].id != id);
    } else if k < f {
        assert(timers[k].id != id);
    }
}

/// The active timers of `timers` that are due at `now`, in their order.
pub open spec fn expired_among(timers: Seq<Timer>, now: int) -> Seq<Timer> {
    timers.filter(|t: Timer| t.is_expired_at(now))
}

/// The store as a mathematical value.
pub struct DatabaseView {
    /// The active timers, in the order in which they were added.
    pub timers: Seq<Timer>,
    /// The completed timers, most recently completed first.
    pub history: Seq<Timer>,
    /// The id that the next new timer gets.
    pub next_id: nat,
}

impl DatabaseView {
    /// The empty store, whose first id is 1.
    pub open spec fn empty() -> DatabaseView {
        DatabaseView { timers: Seq::empty(), history: Seq::empty(), next_id: 1 }
    }

    /// The invariant of a store that was built from `empty` by the operations
    /// below: the history is within its capacity; every active id has been
    /// issued, so is below `next_id`; active ids increase along the list, so no
    /// two active timers share one; and every active timer is well formed.
    pub open spec fn wf(self) -> bool {
        &&& self.history.len() <= MAX_HISTORY
        &&& self.next_id >= 1
        &&& forall|i: int| 0 <= i < self.timers.len() ==> (#[trigger] self.timers[i]).id < self.next_id
        &&& forall|i: int, j: int|
            0 <= i < j < self.timers.len() ==> (#[trigger] self.timers[i]).id < (
            #[trigger] self.timers[j]).id
        &&& forall|i: int| 0 <= i < self.timers.len() ==> (#[trigger] self.timers[i]).wf()
    }

    /// Whether an active timer has the id.
    pub open spec fn has(self, id: u32) -> bool {
        first_with_id(self.timers, id) < self.timers.len()
    }

    /// The first active timer with the id.
    pub open spec fn get(self, id: u32) -> Timer
        recommends
            self.has(id),
    {
        self.timers[first_with_id(self.timers, id)]
    }

    /// The timer that `add` creates.
    pub open spec fn new_timer(
        self,
        message: String,
        duration_seconds: u64,
        urgent: bool,
        sound: bool,
        recurring: bool,
        now: int,
        uuid: u128,
    ) -> Timer {
        Timer {
            uuid,
            id: self.next_id as u32,
            message,
            duration_seconds,
            created_at: now as i128,
            due_at: Timer::due_after(now, duration_seconds as int) as i128,
            urgent,
            sound,
            recurring,
        }
    }

    /// The store after `timer` was appended to the active list under the
    /// next id.
    pub open spec fn add(self, timer: Timer) -> DatabaseView {
        DatabaseView { timers: self.timers.push(timer), next_id: self.next_id + 1, ..self }
    }

    /// The store after the first active timer with the id was restarted at
    /// `now`; the store itself when there is none.
    pub open spec fn reset(self, id: u32, now: int) -> DatabaseView {
        if self.has(id) {
            DatabaseView {
                timers: self.timers.update(
                    first_with_id(self.timers, id),
                    self.get(id).restarted(now),
                ),
                ..self
            }
        } else {
            self
        }
    }

    /// The store after the first active timer with the id was discarded; the
    /// store itself when there is none.
    pub open spec fn remove(self, id: u32) -> DatabaseView {
        if self.has(id) {
            DatabaseView { timers: self.timers.remove(first_with_id(self.timers, id)), ..self }
        } else {
            self
        }
    }

    /// The store after `timer` was put at the front of the history and the
    /// history was cut to its capacity.
    pub open spec fn archive(self, timer: Timer) -> DatabaseView {
        let grown = seq![timer] + self.history;
        DatabaseView {
            history: if grown.len() > MAX_HISTORY {
                grown.take(MAX_HISTORY as int)
            } else {
                grown
            },
            ..self
        }
    }

    /// The store after the first active timer with the id was moved to the
    /// front of the history; the store itself when there is none.
    pub open spec fn complete(self, id: u32) -> DatabaseView {
        if self.has(id) {
            let k = first_with_id(self.timers, id);
            let grown = seq![self.timers[k]] + self.history;
            DatabaseView {
                timers: self.timers.remove(k),
                history: if grown.len() > MAX_HISTORY {
                    grown.take(MAX_HISTORY as int)
                } else {
                    grown
                },
                next_id: self.next_id,
            }
        } else {
            self
        }
    }

    /// The store without its active timers.
    pub open spec fn clear_all(self) -> DatabaseView {
        DatabaseView { timers: Seq::empty(), ..self }
    }

    /// The store without its history.
    pub open spec fn clear_history(self) -> DatabaseView {
        DatabaseView { history: Seq::empty(), ..self }
    }

    /// The active timers that are due at `now`.
    pub open spec fn expired(self, now: int) -> Seq<Timer> {
        expired_among(self.timers, now)
    }
}

/// The store of timers.
#[derive(Debug)]
pub struct Database {
    pub timers: Vec<Timer>,
    pub history: Vec<Timer>,
    pub next_id: u32,
}

impl View for Database {
    type V = DatabaseView;

    open spec fn view(&self) -> DatabaseView {
        DatabaseView {
            timers: self.timers@,
            history: self.history@,
            next_id: self.next_id as nat,
        }
    }
}

impl Database {
    /// The message of the error that `add_timer` returns for a duration above
    /// the limit.
    pub open spec fn duration_too_large() -> Seq<char> {
        "Duration too large (max 365 days)"@
    }

    /// An empty store, whose first id is 1.
    pub fn new() -> (db: Self)
        ensures
            db@ == DatabaseView::empty(),
            db@.wf(),
    {
        Self { timers: Vec::new(), history: Vec::new(), next_id: 1 }
    }

    /// The index of the first active timer with the id, if there is one.
    fn position(&self, id: u32) -> (r: Option<usize>)
        ensures
            match r {
                Some(k) => self@.has(id) && k == first_with_id(self.timers@, id),
                None => !self@.has(id),
            },
    {
        let mut i: usize = 0;
        while i < self.timers.len()
            invariant
                i <= self.timers.len(),
                forall|j: int| 0 <= j < i ==> (#[trigger] self.timers@[j]).id != id,
            decreases self.timers.len() - i,
        {
            if self.timers[i].id == id {
                proof {
                    lemma_first_with_id_is(self.timers@, id, i as int);
                }
                return Some(i);
            }
            i += 1;
        }
        proof {
            lemma_first_with_id_is(self.timers@, id, i as int);
        }
        None
    }

    /// Adds a timer that starts at `now` and carries `uuid`.
    ///
    /// A duration above [`MAX_DURATION_SECONDS`] is refused and the store is
    /// left as it was. Otherwise the timer gets the next id, `created_at =
    /// now` and `due_at = now + duration_seconds`, is appended to the active
    /// list, and a copy of it is returned.
    pub fn add_timer_at(
        &mut self,
        message: String,
        duration_seconds: u64,
        urgent: bool,
        sound: bool,
        recurring: bool,
        now: i128,
        uuid: u128,
    ) -> (r: Result<Timer, String>)
        requires
            old(self)@.next_id < u32::MAX,
            is_unix_nanos(now as int),
        ensures
            duration_seconds > MAX_DURATION_SECONDS ==> {
                &&& r is Err
                &&& r->Err_0@ == Self::duration_too_large()
                &&& *final(self) == *old(self)
            },
            duration_seconds <= MAX_DURATION_SECONDS ==> {
                &&& r is Ok
                &&& r->Ok_0 == old(self)@.new_timer(
                    message,
                    duration_seconds,
                    urgent,
                    sound,
                    recurring,
                    now as int,
                    uuid,
                )
                &&& r->Ok_0.id == old(self)@.next_id
                &&& r->Ok_0.created_at == now
                &&& r->Ok_0.due_at - r->Ok_0.created_at == duration_seconds * NANOS_PER_SECOND
                &&& r->Ok_0.wf()
                &&& final(self)@ == old(self)@.add(r->Ok_0)
            },
            old(self)@.wf() ==> final(self)@.wf(),
    {
        if duration_seconds > MAX_DURATION_SECONDS {
            return Err("Duration too large (max 365 days)".to_owned());
        }
        let timer = Timer {
            uuid,
            id: self.next_id,
            message,
            duration_seconds,
            created_at: now,
            due_at: now + (duration_seconds as i128) * NANOS_PER_SECOND,
            urgent,
            sound,
            recurring,
        };
        self.next_id += 1;
        self.timers.push(timer.clone());
        Ok(timer)
    }

    /// Adds a timer that starts now, under a fresh random UUID.
    ///
    /// The clock and the random source decide `created_at` and `uuid`;
    /// everything else is as in [`Database::add_timer_at`], for the instant
    /// that the clock gave.
    pub fn add_timer(
        &mut self,
        message: String,
        duration_seconds: u64,
        urgent: bool,
        sound: bool,
        recurring: bool,
    ) -> (r: Result<Timer, String>)
        requires
            old(self)@.next_id < u32::MAX,
        ensures
            duration_seconds > MAX_DURATION_SECONDS ==> {
                &&& r is Err
                &&& r->Err_0@ == Self::duration_too_large()
                &&& *final(self) == *old(self)
            },
            duration_seconds <= MAX_DURATION_SECONDS ==> {
                &&& r is Ok
                &&& is_unix_nanos(r->Ok_0.created_at as int)
                &&& r->Ok_0 == old(self)@.new_timer(
                    message,
                    duration_seconds,
                    urgent,
                    sound,
                    recurring,
                    r->Ok_0.created_at as int,
                    r->Ok_0.uuid,
                )
                &&& r->Ok_0.id == old(self)@.next_id
                &&& r->Ok_0.due_at - r->Ok_0.created_at == duration_seconds * NANOS_PER_SECOND
                &&& r->Ok_0.wf()
                &&& final(self)@ == old(self)@.add(r->Ok_0)
            },
            old(self)@.wf() ==> final(self)@.wf(),
    {
        let now = now_utc_nanos();
        let uuid = random_uuid();
        self.add_timer_at(message, duration_seconds, urgent, sound, recurring, now, uuid)
    }

    /// Restarts the first active timer with the id at `now`.
    ///
    /// The timer keeps its id, uuid, message, duration and flags, and gets
    /// `created_at = now` and `due_at = now + duration_seconds`; a copy of it
    /// is returned. With no such timer nothing changes and `None` is returned.
    pub fn reset_timer_at(&mut self, id: u32, now: i128) -> (r: Option<Timer>)
        requires
            is_unix_nanos(now as int),
        ensures
            final(self)@ == old(self)@.reset(id, now as int),
            r is Some <==> old(self)@.has(id),
            r is Some ==> r->0 == old(self)@.get(id).restarted(now as int),
            r is None ==> *final(self) == *old(self),
            old(self)@.wf() ==> final(self)@.wf(),
    {
        match self.position(id) {
            Some(k) => {
                let timer = self.timers[k].restart(now);
                let copy = timer.clone();
                self.timers.set(k, timer);
                Some(copy)
            },
            None => None,
        }
    }

    /// Restarts the first active timer with the id at the instant the clock
    /// gives.
    pub fn reset_timer(&mut self, id: u32) -> (r: Option<Timer>)
        ensures
            r is Some <==> old(self)@.has(id),
            r is Some ==> {
                &&& is_unix_nanos(r->0.created_at as int)
                &&& r->0 == old(self)@.get(id).restarted(r->0.created_at as int)
                &&& final(self)@ == old(self)@.reset(id, r->0.created_at as int)
            },
            r is None ==> *final(self) == *old(self),
            old(self)@.wf() ==> final(self)@.wf(),
    {
        let now = now_utc_nanos();
        self.reset_timer_at(id, now)
    }

    /// Discards the first active timer with the id and returns it. The
    /// history is not touched. With no such timer nothing changes.
    pub fn remove_timer(&mut self, id: u32) -> (r: Option<Timer>)
        ensures
            final(self)@ == old(self)@.remove(id),
            r is Some <==> old(self)@.has(id),
            r is Some ==> r->0 == old(self)@.get(id),
            r is None ==> *final(self) == *old(self),
            old(self)@.wf() ==> final(self)@.wf(),
    {
        match self.position(id) {
            Some(k) => Some(self.timers.remove(k)),
            None => None,
        }
    }

    /// Moves the first active timer with the id to the front of the history
    /// and returns a copy of it. With no such timer nothing changes.
    pub fn complete_timer(&mut self, id: u32) -> (r: Option<Timer>)
        ensures
            final(self)@ == old(self)@.complete(id),
            r is Some <==> old(self)@.has(id),
            r is Some ==> r->0 == old(self)@.get(id),
            r is None ==> *final(self) == *old(self),
            old(self)@.wf() ==> final(self)@.wf(),
    {
        match self.position(id) {
            Some(k) => {
                let timer = self.timers.remove(k);
                self.add_to_history(timer.clone());
                Some(timer)
            },
            None => None,
        }
    }

    /// Puts `timer` at the front of the history, then drops what exceeds
    /// [`MAX_HISTORY`] entries from the back. The active list is not touched.
    pub fn add_to_history(&mut self, timer: Timer)
        ensures
            final(self)@ == old(self)@.archive(timer),
            final(self)@.history.len() <= MAX_HISTORY || final(self)@.history.len()
                == old(self)@.history.len() + 1,
            old(self)@.history.len() <= MAX_HISTORY ==> final(self)@.history.len() <= MAX_HISTORY,
            final(self)@.history[0] == timer,
            old(self)@.wf() ==> final(self)@.wf(),
    {
        self.history.insert(0, timer);
        assert(self.history@ == seq![timer] + old(self).history@);
        if self.history.len() > MAX_HISTORY {
            self.history.truncate(MAX_HISTORY);
            assert(self.history@ == (seq![timer] + old(self).history@).take(MAX_HISTORY as int));
        }
    }

    /// Empties the active list. The history and the id counter stay.
    pub fn clear_all(&mut self)
        ensures
            final(self)@ == old(self)@.clear_all(),
            old(self)@.wf() ==> final(self)@.wf(),
    {
        self.timers.clear();
    }

    /// Empties the history. The active list and the id counter stay.
    pub fn clear_history(&mut self)
        ensures
            final(self)@ == old(self)@.clear_history(),
            old(self)@.wf() ==> final(self)@.wf(),
    {
        self.history.clear();
        assert(self.history@.len() == 0);
    }

    /// Copies of the active timers that are due at `now`, that is with
    /// `due_at <= now`, in the order of the active list.
    pub fn expired_timers_at(&self, now: i128) -> (r: Vec<Timer>)
        ensures
            r@ == self@.expired(now as int),
    {
        let mut out: Vec<Timer> = Vec::new();
        let mut i: usize = 0;
        while i < self.timers.len()
            invariant
                i <= self.timers.len(),
                out@ == expired_among(self.timers@.take(i as int), now as int),
            decreases self.timers.len() - i,
        {
            proof {
                lemma_expired_among_step(self.timers@, now as int, i as int);
            }
            if self.timers[i].is_expired(now) {
                out.push(self.timers[i].clone());
            }
            i += 1;
        }
        assert(self.timers@.take(i as int) == self.timers@);
        out
    }

    /// Copies of the active timers that are due at the instant the clock
    /// gives. Whatever that instant, each returned timer is an active one.
    pub fn get_expired_timers(&self) -> (r: Vec<Timer>)
        ensures
            exists|now: int| is_unix_nanos(now) && r@ == #[trigger] self@.expired(now),
    {
        let now = now_utc_nanos();
        let r = self.expired_timers_at(now);
        assert(r@ == self@.expired(now as int));
        r
    }
}

/// Filtering the first `i + 1` timers is filtering the first `i` and then
/// deciding on the next.
pub proof fn lemma_expired_among_step(timers: Seq<Timer>, now: int, i: int)
    requires
        0 <= i < timers.len(),
    ensures
        expired_among(timers.take(i + 1), now) == if timers[i].is_expired_at(now) {
            expired_among(timers.take(i), now).push(timers[i])
        } else {
            expired_among(timers.take(i), now)
        },
{
    let pred = |t: Timer| t.is_expired_at(now);
    assert(timers.take(i + 1).drop_last() == timers.take(i));
    assert(timers.take(i + 1).last() == timers[i]);
    reveal(Seq::filter);
}

} // verus!
