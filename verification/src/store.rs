//! What becomes of the records of a campaign, over all of its flushes.
use crate::flush::{Flush, FlushAction, FlushEvent, InsertFailure, Policy, Progress, Retention};
use vstd::prelude::*;

verus! {

/// The records that the database holds, and those that wait in the buffer.
#[verifier::ext_equal]
pub struct Store<R> {
    pub written: Seq<R>,
    pub pending: Seq<R>,
}

impl<R> Store<R> {
    /// Nothing written, nothing pending.
    pub open spec fn empty() -> Store<R> {
        Store { written: Seq::empty(), pending: Seq::empty() }
    }

    /// The store after the buffer was flushed and the database answered with `events`.
    pub open spec fn flushed(self, policy: Policy, events: Seq<FlushEvent>) -> Store<R> {
        let flush = Flush::begun(self.pending.len() as usize, policy.on_insert_failure).after_all(
            events,
        );
        Store {
            written: self.written + flush.written(self.pending),
            pending: flush.left(self.pending, policy.retention),
        }
    }

    /// The store after `record` was logged. If the buffer is flushed, the database answers with
    /// `events`.
    pub open spec fn logged(self, record: R, policy: Policy, events: Seq<FlushEvent>) -> Store<R> {
        let store = Store { written: self.written, pending: self.pending.push(record) };
        if store.pending.len() >= policy.batch {
            store.flushed(policy, events)
        } else {
            store
        }
    }
}

/// The store after a campaign in which each record was logged in turn, with the answers of the
/// database to the flush that it may have led to.
pub open spec fn campaign<R>(steps: Seq<(R, Seq<FlushEvent>)>, policy: Policy) -> Store<R>
    decreases steps.len(),
{
    if steps.len() == 0 {
        Store::empty()
    } else {
        campaign(steps.drop_last(), policy).logged(steps.last().0, policy, steps.last().1)
    }
}

/// The records that were logged.
pub open spec fn records_of<R>(steps: Seq<(R, Seq<FlushEvent>)>) -> Seq<R> {
    Seq::new(steps.len(), |i: int| steps[i].0)
}

/// The answers of a database that does all that it is asked for a buffer of `total` records.
pub open spec fn all_succeed(total: nat) -> Seq<FlushEvent> {
    Seq::new(
        total + 2,
        |i: int|
            if i == 0 {
                FlushEvent::Began
            } else if i <= total {
                FlushEvent::Inserted
            } else {
                FlushEvent::Committed
            },
    )
}

/// Whether `part` consists of items of `whole`, in their order and each at most once.
pub open spec fn is_subsequence<R>(part: Seq<R>, whole: Seq<R>) -> bool {
    exists|at: Seq<int>| #[trigger] selects(at, part, whole)
}

/// Whether `part` consists of the items of `whole` at the ascending positions `at`.
pub open spec fn selects<R>(at: Seq<int>, part: Seq<R>, whole: Seq<R>) -> bool {
    &&& at.len() == part.len()
    &&& forall|i: int| 0 <= i < at.len() ==> 0 <= #[trigger] at[i] < whole.len()
    &&& forall|i: int| 0 <= i < at.len() ==> part[i] == whole[#[trigger] at[i]]
    &&& forall|i: int, j: int| 0 <= i < j < at.len() ==> #[trigger] at[i] < #[trigger] at[j]
}

proof fn events_keep_wf(flush: Flush, events: Seq<FlushEvent>)
    requires
        flush.wf(),
    ensures
        flush.after_all(events).wf(),
        flush.after_all(events).total == flush.total,
        flush.after_all(events).on_insert_failure == flush.on_insert_failure,
    decreases events.len(),
{
    if events.len() > 0 {
        events_keep_wf(flush.after(events.first()), events.drop_first());
    }
}

/// The positions of the records that are inserted while `events` answer the steps of a flush: those
/// of the inserts that were due and succeeded, in their order.
pub open spec fn inserted_positions(flush: Flush, events: Seq<FlushEvent>) -> Seq<int>
    decreases events.len(),
{
    if events.len() == 0 {
        Seq::empty()
    } else {
        let rest = inserted_positions(flush.after(events.first()), events.drop_first());
        match (flush.due(), events.first()) {
            (FlushAction::Insert(position), FlushEvent::Inserted) => seq![position as int] + rest,
            _ => rest,
        }
    }
}

/// Whatever the database answers, a flush inserts the records of its buffer one after the other and
/// each once: those that its counter passes.
pub proof fn inserts_follow_the_buffer(flush: Flush, events: Seq<FlushEvent>)
    requires
        flush.wf(),
    ensures
        flush.inserted <= flush.after_all(events).inserted,
        inserted_positions(flush, events) == Seq::new(
            (flush.after_all(events).inserted - flush.inserted) as nat,
            |i: int| flush.inserted + i,
        ),
    decreases events.len(),
{
    if events.len() > 0 {
        inserts_follow_the_buffer(flush.after(events.first()), events.drop_first());
    }
}

/// After a flush the database holds exactly the records that it was asked to insert, in that order,
/// if the transaction was committed, and none of them otherwise.
pub proof fn written_records_were_inserted<R>(
    buffer: Seq<R>,
    on_insert_failure: InsertFailure,
    events: Seq<FlushEvent>,
)
    requires
        buffer.len() <= usize::MAX,
    ensures
        ({
            let start = Flush::begun(buffer.len() as usize, on_insert_failure);
            let end = start.after_all(events);
            let positions = inserted_positions(start, events);
            end.written(buffer) == if end.progress == Progress::Committed {
                Seq::new(positions.len(), |i: int| buffer[positions[i]])
            } else {
                Seq::empty()
            }
        }),
{
    let start = Flush::begun(buffer.len() as usize, on_insert_failure);
    inserts_follow_the_buffer(start, events);
    events_keep_wf(start, events);
}

/// Where a failed insert abandons the transaction, a flush writes the whole buffer, if it commits,
/// and nothing otherwise.
pub proof fn flush_is_all_or_nothing<R>(buffer: Seq<R>, events: Seq<FlushEvent>)
    requires
        buffer.len() <= usize::MAX,
    ensures
        ({
            let flush = Flush::begun(buffer.len() as usize, InsertFailure::Abandon).after_all(
                events,
            );
            flush.written(buffer) == if flush.progress == Progress::Committed {
                buffer
            } else {
                Seq::empty()
            }
        }),
{
    let start = Flush::begun(buffer.len() as usize, InsertFailure::Abandon);
    events_keep_wf(start, events);
    assert(buffer.take(buffer.len() as int) =~= buffer);
}

proof fn remaining_inserts_succeed(flush: Flush, events: Seq<FlushEvent>)
    requires
        flush.wf(),
        flush.progress == Progress::Inserting,
        events.len() == flush.total - flush.inserted + 1,
        forall|i: int| 0 <= i < events.len() - 1 ==> events[i] == FlushEvent::Inserted,
        events.last() == FlushEvent::Committed,
    ensures
        flush.after_all(events).progress == Progress::Committed,
        flush.after_all(events).inserted == flush.total,
    decreases events.len(),
{
    let next = flush.after(events.first());
    let rest = events.drop_first();
    assert(events[0] == FlushEvent::Inserted);
    assert(rest.last() == FlushEvent::Committed);
    if next.inserted == flush.total {
        assert(rest.len() == 1);
        assert(rest.first() == FlushEvent::Committed);
        assert(next.after_all(rest) == next.after(FlushEvent::Committed)) by {
            reveal_with_fuel(Flush::after_all, 2);
        }
    } else {
        remaining_inserts_succeed(next, rest);
    }
}

/// Where the database does all that it is asked, a flush writes all that is pending, and nothing is
/// pending any more. This is what happens to the records that are left at the end.
pub proof fn flush_writes_all_pending<R>(store: Store<R>, policy: Policy)
    requires
        store.pending.len() <= usize::MAX,
    ensures
        store.flushed(policy, all_succeed(store.pending.len())) == (Store {
            written: store.written + store.pending,
            pending: Seq::empty(),
        }),
{
    let n = store.pending.len();
    let events = all_succeed(n);
    let start = Flush::begun(n as usize, policy.on_insert_failure);
    let end = start.after_all(events);
    if n == 0 {
        idle_stays_idle(start, events);
        assert(store.flushed(policy, events).written =~= store.written + store.pending);
        assert(store.flushed(policy, events).pending =~= Seq::empty());
    } else {
        let rest = events.drop_first();
        assert(events.first() == FlushEvent::Began);
        remaining_inserts_succeed(start.after(events.first()), rest);
        assert(store.pending.take(n as int) =~= store.pending);
    }
}

proof fn idle_stays_idle(flush: Flush, events: Seq<FlushEvent>)
    requires
        flush.progress == Progress::Idle,
    ensures
        flush.after_all(events) == flush,
    decreases events.len(),
{
    if events.len() > 0 {
        idle_stays_idle(flush, events.drop_first());
    }
}

/// Whether no transaction of a campaign was refused.
pub open spec fn never_refused<R>(steps: Seq<(R, Seq<FlushEvent>)>) -> bool {
    forall|i: int|
        0 <= i < steps.len() ==> !(#[trigger] steps[i].1).contains(FlushEvent::BeginFailed)
}

proof fn not_refused(flush: Flush, events: Seq<FlushEvent>)
    requires
        flush.progress != Progress::Refused,
        !events.contains(FlushEvent::BeginFailed),
    ensures
        flush.after_all(events).progress != Progress::Refused,
    decreases events.len(),
{
    if events.len() > 0 {
        assert(events[0] != FlushEvent::BeginFailed);
        let rest = events.drop_first();
        assert forall|i: int| 0 <= i < rest.len() implies rest[i] != FlushEvent::BeginFailed by {
            assert(rest[i] == events[i + 1]);
        }
        not_refused(flush.after(events.first()), rest);
    }
}

/// No record is lost and none is written twice, where a failed insert abandons the transaction and
/// the buffer keeps its records until they are committed: the written records followed by the
/// pending ones are the logged ones. This holds whatever the database answers; where the buffer
/// drops its records when a transaction is refused, it holds as long as none is.
pub proof fn nothing_is_lost<R>(steps: Seq<(R, Seq<FlushEvent>)>, policy: Policy)
    requires
        steps.len() <= usize::MAX,
        policy.on_insert_failure == InsertFailure::Abandon,
        policy.retention == Retention::UntilCommitted || (policy.retention
            == Retention::UntilCommittedOrRefused && never_refused(steps)),
    ensures
        campaign(steps, policy).written + campaign(steps, policy).pending == records_of(steps),
    decreases steps.len(),
{
    let store = campaign(steps, policy);
    if steps.len() == 0 {
        assert(store.written + store.pending =~= records_of(steps));
    } else {
        let prefix = steps.drop_last();
        let before = campaign(prefix, policy);
        if never_refused(steps) {
            assert forall|i: int| 0 <= i < prefix.len() implies !(
            #[trigger] prefix[i].1).contains(FlushEvent::BeginFailed) by {
                assert(prefix[i] == steps[i]);
            }
        }
        nothing_is_lost(prefix, policy);
        let (record, events) = steps.last();
        let pending = before.pending.push(record);
        assert(records_of(steps) =~= records_of(prefix).push(record));
        assert(before.written + pending =~= (before.written + before.pending).push(record));
        assert(before.pending.len() <= (before.written + before.pending).len());
        if pending.len() >= policy.batch {
            flush_is_all_or_nothing(pending, events);
            if never_refused(steps) {
                assert(!steps[steps.len() - 1].1.contains(FlushEvent::BeginFailed));
                not_refused(
                    Flush::begun(pending.len() as usize, policy.on_insert_failure),
                    events,
                );
            }
        }
        assert(store.written + store.pending =~= before.written + pending);
    }
}

/// What a campaign that lost nothing leaves behind at its graceful end, when the records that still
/// wait are flushed and the database does all that it is asked: one row for each logged record, in
/// the order in which they were logged.
pub proof fn final_flush_writes_the_rest<R>(steps: Seq<(R, Seq<FlushEvent>)>, policy: Policy)
    requires
        steps.len() <= usize::MAX,
        campaign(steps, policy).written + campaign(steps, policy).pending == records_of(steps),
    ensures
        ({
            let store = campaign(steps, policy);
            let end = store.flushed(policy, all_succeed(store.pending.len()));
            &&& end == (Store { written: records_of(steps), pending: Seq::empty() })
            &&& end.written.len() == steps.len()
        }),
{
    let store = campaign(steps, policy);
    assert(store.pending.len() <= (store.written + store.pending).len());
    flush_writes_all_pending(store, policy);
}

/// Whether the answers `events` let a flush of a buffer of one batch commit all of its records.
pub open spec fn commits_a_batch(policy: Policy, events: Seq<FlushEvent>) -> bool {
    let flush = Flush::begun(policy.batch, policy.on_insert_failure).after_all(events);
    flush.progress == Progress::Committed && flush.inserted == policy.batch
}

/// Where each flush commits all of its records, fewer records are pending than make a batch, namely
/// those that were logged since the last full batch; all others are written. So a crash loses less
/// than a batch, and nothing where a batch is a single record.
pub proof fn less_than_a_batch_is_pending<R>(steps: Seq<(R, Seq<FlushEvent>)>, policy: Policy)
    requires
        steps.len() <= usize::MAX,
        policy.batch > 0,
        forall|i: int| 0 <= i < steps.len() ==> commits_a_batch(policy, #[trigger] steps[i].1),
    ensures
        campaign(steps, policy).pending.len() == steps.len() % (policy.batch as nat),
        campaign(steps, policy).written + campaign(steps, policy).pending == records_of(steps),
    decreases steps.len(),
{
    let store = campaign(steps, policy);
    let batch = policy.batch as nat;
    if steps.len() == 0 {
        vstd::arithmetic::div_mod::lemma_small_mod(0, batch);
        assert(store.written + store.pending =~= records_of(steps));
    } else {
        let prefix = steps.drop_last();
        let before = campaign(prefix, policy);
        assert forall|i: int| 0 <= i < prefix.len() implies commits_a_batch(
            policy,
            #[trigger] prefix[i].1,
        ) by {
            assert(prefix[i] == steps[i]);
        }
        less_than_a_batch_is_pending(prefix, policy);
        let (record, events) = steps.last();
        assert(commits_a_batch(policy, steps[steps.len() - 1].1));
        let pending = before.pending.push(record);
        vstd::arithmetic::div_mod::lemma_mod_bound(prefix.len() as int, batch as int);
        count_up(prefix.len(), batch);
        assert(records_of(steps) =~= records_of(prefix).push(record));
        assert(before.written + pending =~= (before.written + before.pending).push(record));
        if pending.len() >= policy.batch {
            assert(pending.len() == batch);
            assert(pending.take(batch as int) =~= pending);
        }
        assert(store.written + store.pending =~= before.written + pending);
    }
}

/// A database that does all that it is asked commits every batch.
pub proof fn successes_commit_a_batch(policy: Policy)
    requires
        policy.batch > 0,
    ensures
        commits_a_batch(policy, all_succeed(policy.batch as nat)),
{
    let events = all_succeed(policy.batch as nat);
    assert(events.first() == FlushEvent::Began);
    remaining_inserts_succeed(
        Flush::begun(policy.batch, policy.on_insert_failure).after(FlushEvent::Began),
        events.drop_first(),
    );
}

/// Where a failed insert abandons the transaction, whatever commits a batch commits all of it.
pub proof fn commit_is_complete(policy: Policy, events: Seq<FlushEvent>)
    requires
        policy.on_insert_failure == InsertFailure::Abandon,
        Flush::begun(policy.batch, policy.on_insert_failure).after_all(events).progress
            == Progress::Committed,
    ensures
        commits_a_batch(policy, events),
{
    events_keep_wf(Flush::begun(policy.batch, policy.on_insert_failure), events);
}

/// Logging a record, performing the steps of the flush that this returns and settling the buffer is
/// one step of a campaign.
pub proof fn logging_is_a_step<R>(
    store: Store<R>,
    record: R,
    policy: Policy,
    events: Seq<FlushEvent>,
)
    requires
        store.pending.len() < usize::MAX,
    ensures
        ({
            let buffer = store.pending.push(record);
            let flush = policy.flush_of(buffer.len() as usize).after_all(events);
            store.logged(record, policy, events) == Store {
                written: store.written + flush.written(buffer),
                pending: flush.left(buffer, policy.retention),
            }
        }),
{
    let buffer = store.pending.push(record);
    if buffer.len() < policy.batch {
        idle_stays_idle(policy.flush_of(buffer.len() as usize), events);
        assert(store.written + Seq::<R>::empty() =~= store.written);
    }
}

proof fn count_up(n: nat, d: nat)
    requires
        d > 0,
    ensures
        (n + 1) % d == if n % d + 1 == d {
            0
        } else {
            n % d + 1
        },
{
    vstd::arithmetic::div_mod::lemma_fundamental_div_mod(n as int, d as int);
    let q = n as int / d as int;
    let r = n as int % d as int;
    assert(n + 1 == q * d + (r + 1)) by (nonlinear_arith)
        requires
            n == d * q + r,
    ;
    if r + 1 == d {
        assert(n + 1 == (q + 1) * d) by (nonlinear_arith)
            requires
                n + 1 == q * d + (r + 1),
                r + 1 == d,
        ;
        vstd::arithmetic::div_mod::lemma_fundamental_div_mod_converse(
            (n + 1) as int,
            d as int,
            q + 1,
            0,
        );
    } else {
        vstd::arithmetic::div_mod::lemma_fundamental_div_mod_converse(
            (n + 1) as int,
            d as int,
            q,
            r + 1,
        );
    }
}

/// Whatever the policy and whatever the database answers, no record is written twice, and the
/// written records keep the order in which they were logged.
pub proof fn nothing_is_written_twice<R>(steps: Seq<(R, Seq<FlushEvent>)>, policy: Policy)
    requires
        steps.len() <= usize::MAX,
    ensures
        is_subsequence(
            campaign(steps, policy).written + campaign(steps, policy).pending,
            records_of(steps),
        ),
    decreases steps.len(),
{
    let store = campaign(steps, policy);
    let whole = records_of(steps);
    if steps.len() == 0 {
        assert(selects(Seq::empty(), store.written + store.pending, whole));
    } else {
        let prefix = steps.drop_last();
        let before = campaign(prefix, policy);
        nothing_is_written_twice(prefix, policy);
        let (record, events) = steps.last();
        let pending = before.pending.push(record);
        let at = choose|at: Seq<int>|
            #[trigger] selects(at, before.written + before.pending, records_of(prefix));
        ascending_positions_fit(at, before.written + before.pending, records_of(prefix));
        let grown = at.push(steps.len() - 1);
        assert(before.written + pending =~= (before.written + before.pending).push(record));
        assert(whole =~= records_of(prefix).push(record));
        assert(selects(grown, before.written + pending, whole));
        if pending.len() >= policy.batch {
            let flush = Flush::begun(pending.len() as usize, policy.on_insert_failure).after_all(
                events,
            );
            events_keep_wf(
                Flush::begun(pending.len() as usize, policy.on_insert_failure),
                events,
            );
            let written = flush.written(pending);
            if flush.kept_by(policy.retention) {
                assert(store.written + store.pending =~= before.written + pending);
            } else {
                let cut = grown.take((before.written + written).len() as int);
                assert(store.written + store.pending =~= before.written + written);
                assert(selects(cut, store.written + store.pending, whole));
            }
        }
    }
}

proof fn ascending_positions_fit<R>(at: Seq<int>, part: Seq<R>, whole: Seq<R>)
    requires
        selects(at, part, whole),
    ensures
        part.len() <= whole.len(),
    decreases at.len(),
{
    if at.len() > 0 {
        at_least_its_position(at, part, whole, at.len() - 1);
    }
}

proof fn at_least_its_position<R>(at: Seq<int>, part: Seq<R>, whole: Seq<R>, i: int)
    requires
        selects(at, part, whole),
        0 <= i < at.len(),
    ensures
        i <= at[i],
    decreases i,
{
    if i > 0 {
        at_least_its_position(at, part, whole, i - 1);
        assert(at[i - 1] < at[i]);
    }
}

/// Where records are flushed one by one and dropped when no transaction can be started, none is
/// pending after a flush that committed or was refused, and a committed one is written at once.
pub proof fn single_records_do_not_wait<R>(
    store: Store<R>,
    record: R,
    policy: Policy,
    events: Seq<FlushEvent>,
)
    requires
        policy.batch == 1,
        policy.on_insert_failure == InsertFailure::Abandon,
        policy.retention == Retention::UntilCommittedOrRefused,
        store.pending.len() < usize::MAX,
    ensures
        ({
            let pending = store.pending.push(record);
            let flush = Flush::begun(pending.len() as usize, policy.on_insert_failure).after_all(
                events,
            );
            let next = store.logged(record, policy, events);
            &&& flush.progress == Progress::Committed ==> next == (Store {
                written: store.written + pending,
                pending: Seq::empty(),
            })
            &&& flush.progress == Progress::Refused ==> next == (Store {
                written: store.written,
                pending: Seq::empty(),
            })
        }),
{
    let pending = store.pending.push(record);
    flush_is_all_or_nothing(pending, events);
    let next = store.logged(record, policy, events);
    let flush = Flush::begun(pending.len() as usize, policy.on_insert_failure).after_all(events);
    if flush.progress == Progress::Refused {
        assert(next.written =~= store.written);
    }
}

/// A step of a flush waits for its own answers, and each of them moves the flush on; nothing else
/// does. Once nothing is due, nothing moves the flush any more.
pub proof fn flush_waits_for_its_answer(flush: Flush, event: FlushEvent)
    requires
        flush.wf(),
    ensures
        flush.after(event) != flush <==> match flush.due() {
            FlushAction::Begin => event == FlushEvent::Unavailable || event == FlushEvent::Began
                || event == FlushEvent::BeginFailed,
            FlushAction::Insert(_) => event == FlushEvent::Inserted || event
                == FlushEvent::InsertFailed,
            FlushAction::Commit => event == FlushEvent::Committed || event
                == FlushEvent::CommitFailed,
            FlushAction::Finished => false,
        },
{
}

/// A flush of a buffer that holds something starts a transaction; one of an empty buffer does
/// nothing. After a record was logged, a flush is due exactly if the buffer holds a batch.
pub proof fn full_batches_are_flushed(policy: Policy, total: usize)
    ensures
        Flush::begun(total, policy.on_insert_failure).due() == if total > 0 {
            FlushAction::Begin
        } else {
            FlushAction::Finished
        },
        policy.flush_of(total).due() == if total > 0 && total >= policy.batch {
            FlushAction::Begin
        } else {
            FlushAction::Finished
        },
        policy.flush_of(total).total == total,
        policy.flush_of(total).inserted == 0,
        policy.flush_of(total).on_insert_failure == policy.on_insert_failure,
{
}

/// The answers to a flush whose transaction is started and of which `count` records are inserted,
/// followed by `rest`.
pub open spec fn inserted_then(count: nat, rest: Seq<FlushEvent>) -> Seq<FlushEvent> {
    seq![FlushEvent::Began] + Seq::new(count, |i: int| FlushEvent::Inserted) + rest
}

proof fn some_inserts_succeed(flush: Flush, count: nat, rest: Seq<FlushEvent>)
    requires
        flush.wf(),
        flush.progress == Progress::Inserting,
        flush.inserted + count <= flush.total,
    ensures
        flush.after_all(Seq::new(count, |i: int| FlushEvent::Inserted) + rest) == (Flush {
            inserted: (flush.inserted + count) as usize,
            progress: if flush.inserted + count == flush.total {
                Progress::Committing
            } else {
                Progress::Inserting
            },
            ..flush
        }).after_all(rest),
    decreases count,
{
    let events = Seq::new(count, |i: int| FlushEvent::Inserted) + rest;
    if count == 0 {
        assert(events =~= rest);
    } else {
        let fewer = (count - 1) as nat;
        let next = flush.after(FlushEvent::Inserted);
        assert(events.first() == FlushEvent::Inserted);
        assert(events.drop_first() =~= Seq::new(fewer, |i: int| FlushEvent::Inserted) + rest);
        if count == 1 {
            assert(events.drop_first() =~= rest);
        } else {
            some_inserts_succeed(next, fewer, rest);
        }
    }
}

pub(crate) proof fn inserts_then_rest(start: Flush, count: nat, rest: Seq<FlushEvent>)
    requires
        start.wf(),
        start.progress == Progress::Starting,
        count <= start.total,
    ensures
        start.after_all(inserted_then(count, rest)) == (Flush {
            inserted: count as usize,
            progress: if count == start.total {
                Progress::Committing
            } else {
                Progress::Inserting
            },
            ..start
        }).after_all(rest),
{
    let events = inserted_then(count, rest);
    assert(events.first() == FlushEvent::Began);
    assert(events.drop_first() =~= Seq::new(count, |i: int| FlushEvent::Inserted) + rest);
    some_inserts_succeed(start.after(FlushEvent::Began), count, rest);
}

/// A flush that does not get to insert anything writes nothing. The buffer keeps its records where
/// the connection cannot be used; where the transaction is refused, it drops them only if it is
/// told to.
pub proof fn flush_that_cannot_start<R>(
    buffer: Seq<R>,
    on_insert_failure: InsertFailure,
    retention: Retention,
)
    requires
        0 < buffer.len() <= usize::MAX,
    ensures
        ({
            let start = Flush::begun(buffer.len() as usize, on_insert_failure);
            let unavailable = start.after_all(seq![FlushEvent::Unavailable]);
            let refused = start.after_all(seq![FlushEvent::BeginFailed]);
            &&& unavailable.due() == FlushAction::Finished
            &&& unavailable.written(buffer).len() == 0
            &&& unavailable.left(buffer, retention) == buffer
            &&& refused.due() == FlushAction::Finished
            &&& refused.written(buffer).len() == 0
            &&& refused.left(buffer, retention) == if retention
                == Retention::UntilCommittedOrRefused {
                Seq::empty()
            } else {
                buffer
            }
        }),
{
    reveal_with_fuel(Flush::after_all, 2);
}

/// A flush whose inserts all succeed writes the whole buffer and empties it if it is committed. If
/// it cannot be committed, nothing is written, and the buffer is empty only if it was to be emptied
/// from the start of the transaction on.
pub proof fn flush_that_inserts_all<R>(
    buffer: Seq<R>,
    on_insert_failure: InsertFailure,
    retention: Retention,
)
    requires
        0 < buffer.len() <= usize::MAX,
    ensures
        ({
            let start = Flush::begun(buffer.len() as usize, on_insert_failure);
            let committed = start.after_all(
                inserted_then(buffer.len(), seq![FlushEvent::Committed]),
            );
            let failed = start.after_all(
                inserted_then(buffer.len(), seq![FlushEvent::CommitFailed]),
            );
            &&& committed.due() == FlushAction::Finished
            &&& committed.written(buffer) == buffer
            &&& committed.left(buffer, retention).len() == 0
            &&& failed.due() == FlushAction::Finished
            &&& failed.written(buffer).len() == 0
            &&& failed.left(buffer, retention) == if retention == Retention::UntilBegun {
                Seq::empty()
            } else {
                buffer
            }
        }),
{
    let start = Flush::begun(buffer.len() as usize, on_insert_failure);
    inserts_then_rest(start, buffer.len(), seq![FlushEvent::Committed]);
    inserts_then_rest(start, buffer.len(), seq![FlushEvent::CommitFailed]);
    reveal_with_fuel(Flush::after_all, 2);
    assert(buffer.take(buffer.len() as int) =~= buffer);
}

/// A flush with an insert that fails: it is over at once and has written nothing, where this
/// abandons the transaction; otherwise it commits the records before the failure, and no others.
pub proof fn flush_that_fails_to_insert<R>(buffer: Seq<R>, retention: Retention, count: nat)
    requires
        count < buffer.len() <= usize::MAX,
    ensures
        ({
            let failure = inserted_then(count, seq![FlushEvent::InsertFailed]);
            let abandoned = Flush::begun(
                buffer.len() as usize,
                InsertFailure::Abandon,
            ).after_all(failure);
            let shortened = Flush::begun(buffer.len() as usize, InsertFailure::CommitPrefix);
            let stopped = shortened.after_all(failure);
            let committed = stopped.after(FlushEvent::Committed);
            let failed = stopped.after(FlushEvent::CommitFailed);
            let kept = if retention == Retention::UntilBegun {
                Seq::empty()
            } else {
                buffer
            };
            &&& abandoned.due() == FlushAction::Finished
            &&& abandoned.written(buffer).len() == 0
            &&& abandoned.left(buffer, retention) == kept
            &&& stopped.due() == FlushAction::Commit
            &&& committed.due() == FlushAction::Finished
            &&& committed.written(buffer) == buffer.take(count as int)
            &&& committed.left(buffer, retention).len() == 0
            &&& failed.due() == FlushAction::Finished
            &&& failed.written(buffer).len() == 0
            &&& failed.left(buffer, retention) == kept
        }),
{
    let rest = seq![FlushEvent::InsertFailed];
    let n = buffer.len() as usize;
    inserts_then_rest(Flush::begun(n, InsertFailure::Abandon), count, rest);
    inserts_then_rest(Flush::begun(n, InsertFailure::CommitPrefix), count, rest);
    reveal_with_fuel(Flush::after_all, 2);
}

} // verus!
