//! Laws of the timer store, proved on its model.

use vstd::prelude::*;
use crate::database::{first_with_id, lemma_first_with_id, DatabaseView, Timer, MAX_DURATION_SECONDS, MAX_HISTORY};
use crate::platform::is_unix_nanos;

verus! {

/// One operation on the store, with everything it depends on.
pub enum StoreOp {
    Add {
        message: String,
        duration_seconds: u64,
        urgent: bool,
        sound: bool,
        recurring: bool,
        now: i128,
        uuid: u128,
    },
    Reset { id: u32, now: i128 },
    Remove { id: u32 },
    Complete { id: u32 },
    Archive { timer: Timer },
    ClearAll,
    ClearHistory,
}

impl StoreOp {
    /// Whether the operation is an `Add` that the store accepts.
    pub open spec fn issues_id(self) -> bool {
        self matches StoreOp::Add { duration_seconds, .. } && duration_seconds
            <= MAX_DURATION_SECONDS
    }

    /// Whether the instants that the operation carries are ones that the clock
    /// can report.
    pub open spec fn timely(self) -> bool {
        match self {
            StoreOp::Add { now, .. } => is_unix_nanos(now as int),
            StoreOp::Reset { now, .. } => is_unix_nanos(now as int),
            _ => true,
        }
    }
}

/// The store after one operation.
pub open spec fn apply(s: DatabaseView, op: StoreOp) -> DatabaseView {
    match op {
        StoreOp::Add { message, duration_seconds, urgent, sound, recurring, now, uuid } => {
            if duration_seconds <= MAX_DURATION_SECONDS {
                s.add(
                    s.new_timer(
                        message,
                        duration_seconds,
                        urgent,
                        sound,
                        recurring,
                        now as int,
                        uuid,
                    ),
                )
            } else {
                s
            }
        },
        StoreOp::Reset { id, now } => s.reset(id, now as int),
        StoreOp::Remove { id } => s.remove(id),
        StoreOp::Complete { id } => s.complete(id),
        StoreOp::Archive { timer } => s.archive(timer),
        StoreOp::ClearAll => s.clear_all(),
        StoreOp::ClearHistory => s.clear_history(),
    }
}

/// The store after a sequence of operations, first to last.
pub open spec fn run(s: DatabaseView, ops: Seq<StoreOp>) -> DatabaseView
    decreases ops.len(),
{
    if ops.len() == 0 {
        s
    } else {
        apply(run(s, ops.drop_last()), ops.last())
    }
}

/// The ids that the accepted `Add`s of a sequence of operations hand out, in
/// the order in which they are handed out.
pub open spec fn issued(s: DatabaseView, ops: Seq<StoreOp>) -> Seq<nat>
    decreases ops.len(),
{
    if ops.len() == 0 {
        Seq::empty()
    } else if ops.last().issues_id() {
        issued(s, ops.drop_last()).push(run(s, ops.drop_last()).next_id)
    } else {
        issued(s, ops.drop_last())
    }
}

/// Every operation keeps the store well formed and never lowers the id
/// counter; an accepted `Add` raises it by one and nothing else changes it.
pub proof fn lemma_apply_keeps_wf(s: DatabaseView, op: StoreOp)
    requires
        s.wf(),
        op.timely(),
        s.next_id <= u32::MAX,
    ensures
        apply(s, op).wf(),
        apply(s, op).next_id == if op.issues_id() {
            s.next_id + 1
        } else {
            s.next_id
        },
{
    let t = apply(s, op);
    match op {
        StoreOp::Add { message, duration_seconds, urgent, sound, recurring, now, uuid } => {
            if duration_seconds <= MAX_DURATION_SECONDS {
                let timer = s.new_timer(
                    message,
                    duration_seconds,
                    urgent,
                    sound,
                    recurring,
                    now as int,
                    uuid,
                );
                assert(timer.wf());
                assert(timer.id == s.next_id);
            }
        },
        StoreOp::Reset { id, now } => {
            lemma_first_with_id(s.timers, id);
        },
        StoreOp::Remove { id } => {
            lemma_first_with_id(s.timers, id);
        },
        StoreOp::Complete { id } => {
            lemma_first_with_id(s.timers, id);
        },
        StoreOp::Archive { timer } => {},
        StoreOp::ClearAll => {},
        StoreOp::ClearHistory => {},
    }
}

/// Ids are strictly increasing and never reused.
///
/// Run any sequence of operations on a well-formed store: additions, resets,
/// removals of any timers, completions, clearing. Every id handed out along
/// the way is at least the counter the store started with, below the counter
/// it ends with, and above every id handed out before it. The store stays well
/// formed, so every id still in the active list is below the final counter
/// too: the next timer added gets an id greater than all of them.
pub proof fn lemma_ids_never_reused(s: DatabaseView, ops: Seq<StoreOp>)
    requires
        s.wf(),
        forall|k: int| 0 <= k < ops.len() ==> (#[trigger] ops[k]).timely(),
        s.next_id + ops.len() <= u32::MAX,
    ensures
        run(s, ops).wf(),
        s.next_id <= run(s, ops).next_id <= s.next_id + ops.len(),
        run(s, ops).next_id == s.next_id + issued(s, ops).len(),
        forall|i: int|
            0 <= i < issued(s, ops).len() ==> s.next_id <= (#[trigger] issued(s, ops)[i]) < run(
                s,
                ops,
            ).next_id,
        forall|i: int, j: int|
            0 <= i < j < issued(s, ops).len() ==> (#[trigger] issued(s, ops)[i]) < (
            #[trigger] issued(s, ops)[j]),
    decreases ops.len(),
{
    if ops.len() > 0 {
        let before = ops.drop_last();
        lemma_ids_never_reused(s, before);
        lemma_apply_keeps_wf(run(s, before), ops.last());
    }
}

/// Completing a timer is removing it and then putting it in the history.
///
/// For an id that is active, the active list gets shorter by exactly one,
/// the completed timer stands at the front of the history, and the former
/// entries follow it in their order, as many as the capacity admits. For an id
/// that is not active, nothing changes.
pub proof fn lemma_complete_is_remove_then_archive(s: DatabaseView, id: u32)
    ensures
        s.has(id) ==> {
            &&& s.complete(id) == s.remove(id).archive(s.get(id))
            &&& s.complete(id).timers.len() == s.timers.len() - 1
            &&& s.complete(id).history.len() == if s.history.len() < MAX_HISTORY {
                s.history.len() + 1
            } else {
                MAX_HISTORY as nat
            }
            &&& s.complete(id).history[0] == s.get(id)
            &&& forall|i: int|
                1 <= i < s.complete(id).history.len() ==> #[trigger] s.complete(id).history[i]
                    == s.history[i - 1]
        },
        !s.has(id) ==> s.complete(id) == s && s.remove(id) == s,
{
    lemma_first_with_id(s.timers, id);
}

/// The history never exceeds its capacity, and eviction never reorders it.
///
/// Putting a timer in a history that is within capacity leaves it within
/// capacity, with the new timer first and each former entry one place further
/// back; only what would stand beyond the capacity is dropped.
pub proof fn lemma_archive_bounded(s: DatabaseView, timer: Timer)
    requires
        s.history.len() <= MAX_HISTORY,
    ensures
        s.archive(timer).history.len() <= MAX_HISTORY,
        s.archive(timer).history.len() == if s.history.len() < MAX_HISTORY {
            s.history.len() + 1
        } else {
            MAX_HISTORY as nat
        },
        s.archive(timer).history[0] == timer,
        forall|i: int|
            1 <= i < s.archive(timer).history.len() ==> #[trigger] s.archive(timer).history[i]
                == s.history[i - 1],
        s.archive(timer).timers == s.timers,
        s.archive(timer).next_id == s.next_id,
{
}

/// The history never exceeds its capacity, whatever is done to the store.
///
/// After any sequence of operations on a store whose history is within
/// capacity, the history holds at most [`MAX_HISTORY`] timers.
pub proof fn lemma_history_stays_bounded(s: DatabaseView, ops: Seq<StoreOp>)
    requires
        s.history.len() <= MAX_HISTORY,
    ensures
        run(s, ops).history.len() <= MAX_HISTORY,
    decreases ops.len(),
{
    if ops.len() > 0 {
        lemma_history_stays_bounded(s, ops.drop_last());
        let before = run(s, ops.drop_last());
        match ops.last() {
            StoreOp::Complete { id } => {
                lemma_complete_is_remove_then_archive(before, id);
            },
            _ => {},
        }
    }
}

/// Resetting a timer moves both of its timestamps forward and keeps its
/// identity.
///
/// For an active id whose timer is well formed and was created before `now`,
/// the restarted timer has `created_at` and `due_at` strictly greater than
/// before and the same id and uuid, and every other active timer is untouched.
/// For an id that is not active, the store is unchanged.
pub proof fn lemma_reset_moves_forward(s: DatabaseView, id: u32, now: i128)
    requires
        is_unix_nanos(now as int),
    ensures
        s.has(id) && s.get(id).wf() && s.get(id).created_at < now ==> {
            let k = first_with_id(s.timers, id);
            &&& s.reset(id, now as int).timers.len() == s.timers.len()
            &&& s.reset(id, now as int).timers[k].created_at > s.timers[k].created_at
            &&& s.reset(id, now as int).timers[k].due_at > s.timers[k].due_at
            &&& s.reset(id, now as int).timers[k].id == id
            &&& s.reset(id, now as int).timers[k].uuid == s.timers[k].uuid
            &&& s.reset(id, now as int).timers[k].wf()
            &&& forall|i: int|
                0 <= i < s.timers.len() && i != k ==> #[trigger] s.reset(id, now as int).timers[i]
                    == s.timers[i]
            &&& s.reset(id, now as int).history == s.history
            &&& s.reset(id, now as int).next_id == s.next_id
        },
        !s.has(id) ==> s.reset(id, now as int) == s,
{
    lemma_first_with_id(s.timers, id);
}

/// The expired timers are exactly the active timers that are due.
///
/// A timer is among `expired(now)` if and only if it is active and its
/// `due_at` is at or before `now`; one that is due later, were it by a single
/// nanosecond, is not among them.
pub proof fn lemma_expired_exact(s: DatabaseView, now: int, timer: Timer)
    ensures
        s.expired(now).contains(timer) <==> s.timers.contains(timer) && timer.due_at <= now,
{
    let pred = |t: Timer| t.is_expired_at(now);
    if s.expired(now).contains(timer) {
        s.timers.lemma_filter_contains_rev(pred, timer);
        let i = choose|i: int| 0 <= i < s.expired(now).len() && s.expired(now)[i] == timer;
        s.timers.lemma_filter_pred(pred, i);
    }
    if s.timers.contains(timer) && timer.due_at <= now {
        let i = choose|i: int| 0 <= i < s.timers.len() && s.timers[i] == timer;
        s.timers.lemma_filter_contains(pred, i);
    }
}

/// Two additions made one after the other both count, in either order.
///
/// Where the store admits one writer at a time, two writers that each add a
/// timer leave the counter raised by two and the active list longer by two,
/// whichever of them came first: none of the two updates is lost.
pub proof fn lemma_additions_in_turn_add_up(s: DatabaseView, a: StoreOp, b: StoreOp)
    requires
        s.wf(),
        a.issues_id() && a.timely(),
        b.issues_id() && b.timely(),
        s.next_id + 2 <= u32::MAX,
    ensures
        apply(apply(s, a), b).next_id == s.next_id + 2,
        apply(apply(s, b), a).next_id == s.next_id + 2,
        apply(apply(s, a), b).timers.len() == s.timers.len() + 2,
        apply(apply(s, b), a).timers.len() == s.timers.len() + 2,
        apply(apply(s, a), b).wf(),
        apply(apply(s, b), a).wf(),
{
    lemma_apply_keeps_wf(s, a);
    lemma_apply_keeps_wf(s, b);
    lemma_apply_keeps_wf(apply(s, a), b);
    lemma_apply_keeps_wf(apply(s, b), a);
}

} // verus!
