//! Two writers and one file: why a transaction loses no update.
//!
//! The file and its lock are outside this library, so what is proved here is
//! proved of a model of them. In the model the file holds a store or is new,
//! the exclusive lock is granted to a writer only while no writer holds it,
//! and every request of a transaction is carried out as the transaction asks:
//! what is read is what the file holds, what is written is the store of the
//! transaction. Two writers make their moves in any order, one move at a time.

use vstd::prelude::*;
use crate::database::DatabaseView;
use crate::transaction::{Effect, Ending, Plan, ReplyView, Stage, TransactionView};

verus! {

/// A change that a writer makes to the store.
pub type Change = spec_fn(DatabaseView) -> DatabaseView;

/// The file, its lock, and the two writers. A writer is named by a `bool`:
/// `false` is the first, `true` the second.
pub struct World {
    /// What the file holds; `None` while it is new and of length 0.
    pub file: Option<DatabaseView>,
    /// The writer that holds the lock, if one does.
    pub holder: Option<bool>,
    /// The transaction of the first writer.
    pub first: TransactionView,
    /// The transaction of the second writer.
    pub second: TransactionView,
    /// The writers that have written, in the order in which they wrote.
    pub log: Seq<bool>,
}

/// The store that a file stands for: the one it holds, or the empty store
/// while the file is new.
pub open spec fn content(file: Option<DatabaseView>) -> DatabaseView {
    match file {
        Some(store) => store,
        None => DatabaseView::empty(),
    }
}

/// The change of the writer `who`.
pub open spec fn change_of(who: bool, first: Change, second: Change) -> Change {
    if who {
        second
    } else {
        first
    }
}

/// What the file holds once the writers in `log` have written, one after the
/// other, starting from `file`: each has applied its change to what the one
/// before it left.
pub open spec fn written(file: Option<DatabaseView>, log: Seq<bool>, first: Change, second: Change) -> Option<
    DatabaseView,
>
    decreases log.len(),
{
    if log.len() == 0 {
        file
    } else {
        Some(
            change_of(log.last(), first, second)(
                content(written(file, log.drop_last(), first, second)),
            ),
        )
    }
}

impl World {
    /// The world before either writer has moved: the file as given, the lock
    /// free, both transactions at their start.
    pub open spec fn start(file: Option<DatabaseView>) -> World {
        World {
            file,
            holder: None,
            first: TransactionView::initial(Plan::Transact, DatabaseView::empty()),
            second: TransactionView::initial(Plan::Transact, DatabaseView::empty()),
            log: Seq::empty(),
        }
    }

    /// The transaction of the writer `who`.
    pub open spec fn writer(self, who: bool) -> TransactionView {
        if who {
            self.second
        } else {
            self.first
        }
    }

    /// The world with the transaction of the writer `who` replaced.
    pub open spec fn with_writer(self, who: bool, tx: TransactionView) -> World {
        if who {
            World { second: tx, ..self }
        } else {
            World { first: tx, ..self }
        }
    }

    /// One move of the writer `who`, whose change is `change`: the request
    /// that its transaction is waiting on is carried out, and the transaction
    /// gets the reply. A writer that asks for the lock while the other holds
    /// it waits: the world stays as it is.
    pub open spec fn act(self, who: bool, change: Change) -> World {
        let tx = self.writer(who);
        match tx.pending() {
            Effect::Locate => self.with_writer(who, tx.next(ReplyView::Located).0),
            Effect::Open => self.with_writer(who, tx.next(ReplyView::Opened).0),
            Effect::Lock(_) => if self.holder is None {
                World { holder: Some(who), ..self.with_writer(who, tx.next(ReplyView::Locked).0) }
            } else {
                self
            },
            Effect::Measure => self.with_writer(
                who,
                tx.next(
                    ReplyView::Length(
                        if self.file is None {
                            0
                        } else {
                            1
                        },
                    ),
                ).0,
            ),
            Effect::ReadAndDecode => self.with_writer(
                who,
                tx.next(ReplyView::Decoded(content(self.file))).0,
            ),
            Effect::Mutate => self.with_writer(
                who,
                TransactionView { db: change(tx.db), ..tx }.next(ReplyView::Mutated).0,
            ),
            Effect::Write => World {
                file: Some(tx.db),
                log: self.log.push(who),
                ..self.with_writer(who, tx.next(ReplyView::Written).0)
            },
            Effect::Unlock => World {
                holder: None,
                ..self.with_writer(who, tx.next(ReplyView::Unlocked).0)
            },
            Effect::Finish(_) => self,
        }
    }

    /// The world after the moves of `schedule`, first to last.
    pub open spec fn run(self, schedule: Seq<bool>, first: Change, second: Change) -> World
        decreases schedule.len(),
    {
        if schedule.len() == 0 {
            self
        } else {
            self.run(schedule.drop_last(), first, second).act(
                schedule.last(),
                change_of(schedule.last(), first, second),
            )
        }
    }

    /// Whether the writer `who` has written.
    pub open spec fn has_written(self, who: bool) -> bool {
        self.log.contains(who)
    }

    /// What holds of the writer `who` at every moment: it holds the lock
    /// exactly from the grant to the release; it has written exactly when it
    /// is releasing the lock or is done; and under the lock, the store it is
    /// about to change is what the file holds, and the store it is about to
    /// write is its change of what the file holds.
    pub open spec fn writer_inv(self, who: bool, change: Change) -> bool {
        let tx = self.writer(who);
        &&& tx.plan == Plan::Transact
        &&& tx.wf()
        &&& self.holder == Some(who) <==> tx.stage.under_lock() || tx.stage == Stage::Unlocking
        &&& self.has_written(who) <==> tx.stage == Stage::Unlocking || tx.stage == Stage::Finished
        &&& tx.stage == Stage::Unlocking || tx.stage == Stage::Finished ==> tx.ending
            == Ending::Committed
        &&& tx.stage == Stage::Mutating ==> tx.db == content(self.file)
        &&& tx.stage == Stage::Writing ==> tx.db == change(content(self.file))
    }

    /// What holds of the world at every moment: of each writer its
    /// invariant; no writer has written twice; and the file holds what the
    /// writers that have written made of it, in the order in which they
    /// wrote.
    pub open spec fn inv(self, file: Option<DatabaseView>, first: Change, second: Change) -> bool {
        &&& self.writer_inv(false, first)
        &&& self.writer_inv(true, second)
        &&& self.log.len() <= 2
        &&& self.log.len() == 2 ==> self.log[0] != self.log[1]
        &&& self.file == written(file, self.log, first, second)
    }
}

/// A move of either writer keeps the invariant of the world.
pub proof fn lemma_act_keeps_inv(
    w: World,
    who: bool,
    file: Option<DatabaseView>,
    first: Change,
    second: Change,
)
    requires
        w.inv(file, first, second),
    ensures
        w.act(who, change_of(who, first, second)).inv(file, first, second),
{
    let change = change_of(who, first, second);
    let after = w.act(who, change);
    let tx = w.writer(who);
    let other = w.writer(!who);
    assert(after.writer(!who) == other);
    if tx.pending() is Write {
        assert(tx.stage == Stage::Writing);
        assert(!w.has_written(who));
        assert(after.log.drop_last() == w.log);
        assert(after.log.last() == who);
        if w.log.len() >= 1 {
            assert(w.log.contains(w.log[0]));
            assert(w.log[0] != who);
        }
        if w.log.len() == 2 {
            assert(w.log.contains(w.log[1]));
            assert(w.log[1] != who);
        }
        assert(after.log.contains(who)) by {
            assert(after.log[after.log.len() - 1] == who);
        }
        assert(after.has_written(!who) == w.has_written(!who)) by {
            if w.has_written(!who) {
                let k = choose|k: int| 0 <= k < w.log.len() && w.log[k] == !who;
                assert(after.log[k] == !who);
            }
            if after.has_written(!who) {
                let k = choose|k: int| 0 <= k < after.log.len() && after.log[k] == !who;
                assert(k < w.log.len());
                assert(w.log[k] == !who);
            }
        }
    }
}

/// Whatever the order of the moves, the invariant of the world holds.
pub proof fn lemma_run_keeps_inv(
    file: Option<DatabaseView>,
    schedule: Seq<bool>,
    first: Change,
    second: Change,
)
    ensures
        World::start(file).run(schedule, first, second).inv(file, first, second),
    decreases schedule.len(),
{
    if schedule.len() == 0 {
        assert(!World::start(file).log.contains(false));
        assert(!World::start(file).log.contains(true));
    } else {
        lemma_run_keeps_inv(file, schedule.drop_last(), first, second);
        lemma_act_keeps_inv(
            World::start(file).run(schedule.drop_last(), first, second),
            schedule.last(),
            file,
            first,
            second,
        );
    }
}

/// Two writers lose no update.
///
/// Let two writers each run a transaction on the same file, their moves
/// interleaved in any way. Once both are done, both have committed, the lock
/// is free, and the file holds what the change of one made of what the change
/// of the other made of what the file held: the changes happened one after
/// the other, in one order or the other, and neither is lost.
pub proof fn lemma_no_lost_update(
    file: Option<DatabaseView>,
    schedule: Seq<bool>,
    first: Change,
    second: Change,
)
    ensures
        ({
            let end = World::start(file).run(schedule, first, second);
            end.first.stage == Stage::Finished && end.second.stage == Stage::Finished ==> {
                &&& end.first.ending == Ending::Committed
                &&& end.second.ending == Ending::Committed
                &&& end.holder is None
                &&& end.file == Some(second(first(content(file)))) || end.file == Some(
                    first(second(content(file))),
                )
            }
        }),
{
    lemma_run_keeps_inv(file, schedule, first, second);
    let end = World::start(file).run(schedule, first, second);
    if end.first.stage == Stage::Finished && end.second.stage == Stage::Finished {
        assert(end.has_written(false) && end.has_written(true));
        let i = choose|i: int| 0 <= i < end.log.len() && end.log[i] == false;
        let j = choose|j: int| 0 <= j < end.log.len() && end.log[j] == true;
        assert(end.log.len() == 2);
        let one = end.log.drop_last();
        assert(one.last() == end.log[0]);
        assert(end.log.last() == end.log[1]);
        assert(written(file, one.drop_last(), first, second) == file);
        assert(written(file, one, first, second) == Some(
            change_of(end.log[0], first, second)(content(file)),
        ));
        assert(end.file == Some(
            change_of(end.log[1], first, second)(
                change_of(end.log[0], first, second)(content(file)),
            ),
        ));
        if end.holder is Some {
            let who = end.holder->0;
            assert(end.holder == Some(who));
            assert(who == true || who == false);
        }
    }
}

/// Two writers that each raise a counter by one raise it by two.
///
/// If each of the two changes adds one to the id counter of the store, then
/// once both writers are done the counter in the file is the counter that
/// the file held at first plus two.
pub proof fn lemma_counter_counts_both(
    file: Option<DatabaseView>,
    schedule: Seq<bool>,
    first: Change,
    second: Change,
)
    requires
        forall|store: DatabaseView| (#[trigger] first(store)).next_id == store.next_id + 1,
        forall|store: DatabaseView| (#[trigger] second(store)).next_id == store.next_id + 1,
    ensures
        ({
            let end = World::start(file).run(schedule, first, second);
            end.first.stage == Stage::Finished && end.second.stage == Stage::Finished
                ==> content(end.file).next_id == content(file).next_id + 2
        }),
{
    lemma_no_lost_update(file, schedule, first, second);
}

/// The world after `n` moves in a row of the writer `who`.
pub open spec fn moves(w: World, who: bool, change: Change, n: nat) -> World
    decreases n,
{
    if n == 0 {
        w
    } else {
        moves(w, who, change, (n - 1) as nat).act(who, change)
    }
}

/// The schedule in which the first writer makes eight moves and then the
/// second makes eight.
pub open spec fn in_turn() -> Seq<bool> {
    Seq::new(8, |k: int| false) + Seq::new(8, |k: int| true)
}

/// Eight moves in a row take a writer through its transaction: if the lock is
/// free and the writer is at its start, then after eight moves it is done,
/// the lock is free again, the file holds its change of what the file held,
/// and the other writer is where it was.
pub proof fn lemma_eight_moves(w: World, who: bool, change: Change)
    requires
        w.holder is None,
        w.writer(who).plan == Plan::Transact,
        w.writer(who).stage == Stage::Locating,
    ensures
        ({
            let end = moves(w, who, change, 8);
            &&& end.writer(who).stage == Stage::Finished
            &&& end.writer(who).ending == Ending::Committed
            &&& end.writer(!who) == w.writer(!who)
            &&& end.holder is None
            &&& end.file == Some(change(content(w.file)))
        }),
{
    let w1 = moves(w, who, change, 1);
    assert(moves(w, who, change, 0) == w);
    assert(w1 == w.act(who, change));
    assert(w1.writer(who).stage == Stage::Opening);
    let w2 = moves(w, who, change, 2);
    assert(w2 == w1.act(who, change));
    assert(w2.writer(who).stage == Stage::Locking);
    assert(w2.holder is None);
    let w3 = moves(w, who, change, 3);
    assert(w3 == w2.act(who, change));
    assert(w3.writer(who).stage == Stage::Measuring);
    assert(w3.holder == Some(who));
    assert(w3.file == w.file);
    let w4 = moves(w, who, change, 4);
    assert(w4 == w3.act(who, change));
    let w5 = moves(w, who, change, 5);
    assert(w5 == w4.act(who, change));
    let w6 = moves(w, who, change, 6);
    assert(w6 == w5.act(who, change));
    let w7 = moves(w, who, change, 7);
    assert(w7 == w6.act(who, change));
    let w8 = moves(w, who, change, 8);
    assert(w8 == w7.act(who, change));
    if w.file is None {
        assert(w4.writer(who).stage == Stage::Mutating);
        assert(w4.writer(who).db == content(w.file));
        assert(w5.writer(who).stage == Stage::Writing);
        assert(w5.writer(who).db == change(content(w.file)));
        assert(w6.writer(who).stage == Stage::Unlocking);
        assert(w6.file == Some(change(content(w.file))));
        assert(w7.writer(who).stage == Stage::Finished);
        assert(w7.holder is None);
        assert(w8 == w7);
    } else {
        assert(w4.writer(who).stage == Stage::Reading);
        assert(w5.writer(who).stage == Stage::Mutating);
        assert(w5.writer(who).db == content(w.file));
        assert(w6.writer(who).stage == Stage::Writing);
        assert(w6.writer(who).db == change(content(w.file)));
        assert(w7.writer(who).stage == Stage::Unlocking);
        assert(w7.file == Some(change(content(w.file))));
        assert(w8.writer(who).stage == Stage::Finished);
        assert(w8.holder is None);
    }
}

/// Running a schedule that ends with `n` moves of one writer is running what
/// comes before and then making those moves.
pub proof fn lemma_run_then_moves(
    w: World,
    before: Seq<bool>,
    who: bool,
    n: nat,
    first: Change,
    second: Change,
)
    ensures
        w.run(before + Seq::new(n, |k: int| who), first, second) == moves(
            w.run(before, first, second),
            who,
            change_of(who, first, second),
            n,
        ),
    decreases n,
{
    let tail = Seq::new(n, |k: int| who);
    if n == 0 {
        assert(before + tail == before);
    } else {
        let shorter = Seq::new((n - 1) as nat, |k: int| who);
        assert((before + tail).drop_last() == before + shorter);
        assert((before + tail).last() == who);
        lemma_run_then_moves(w, before, who, (n - 1) as nat, first, second);
    }
}

/// Two writers can both get done.
///
/// When the first writer makes eight moves and then the second makes eight,
/// both are done, and the file holds the change of the second on top of the
/// change of the first.
pub proof fn lemma_writers_in_turn_get_done(
    file: Option<DatabaseView>,
    first: Change,
    second: Change,
)
    ensures
        ({
            let end = World::start(file).run(in_turn(), first, second);
            &&& end.first.stage == Stage::Finished
            &&& end.second.stage == Stage::Finished
            &&& end.file == Some(second(first(content(file))))
        }),
{
    let start = World::start(file);
    let none = Seq::<bool>::empty();
    let firsts = Seq::new(8, |k: int| false);
    let seconds = Seq::new(8, |k: int| true);
    assert(none + firsts == firsts);
    assert(start.run(none, first, second) == start);
    lemma_run_then_moves(start, none, false, 8, first, second);
    lemma_eight_moves(start, false, first);
    let middle = start.run(firsts, first, second);
    assert(middle.writer(true) == start.writer(true));
    lemma_run_then_moves(start, firsts, true, 8, first, second);
    lemma_eight_moves(middle, true, second);
}

} // verus!
