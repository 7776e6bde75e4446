//! Telemetry of the solochain campaign: executed calls.
use crate::accounts::AccountId;
use crate::flush::{settle, Flush, FlushEvent, InsertFailure, Policy, Retention};
use crate::records::{records_execution, ExecutionRecord};
use crate::setup::Statement;
use crate::store::{
    all_succeed, campaign, commits_a_batch, final_flush_writes_the_rest, flush_that_cannot_start,
    flush_that_inserts_all, inserted_then, inserts_then_rest, is_subsequence,
    less_than_a_batch_is_pending, nothing_is_written_twice, records_of, Store,
};
use vstd::prelude::*;
use vstd::string::*;

verus! {

/// Number of execution records that are written in one transaction.
pub const BATCH_SIZE: usize = 100;

/// Creates the table of executed calls.
pub const CREATE_EXECUTIONS: &'static str = "CREATE TABLE IF NOT EXISTS executions (
    id INTEGER PRIMARY KEY,
    call_variant TEXT NOT NULL,
    args_json TEXT NOT NULL,
    origin TEXT NOT NULL,
    result TEXT NOT NULL
)";

/// Inserts an executed call: variant, arguments, origin and result.
pub const INSERT_EXECUTION: &'static str =
    "INSERT INTO executions (call_variant, args_json, origin, result) VALUES (?1, ?2, ?3, ?4)";

/// The statements that prepare the database.
pub fn schema() -> (statements: Vec<Statement>)
    ensures
        statements@ == seq![Statement { sql: CREATE_EXECUTIONS, required: true }],
{
    vec![Statement { sql: CREATE_EXECUTIONS, required: true }]
}

/// How the buffer is flushed: once a transaction is started, the buffer is empty, and whatever was
/// inserted before the first failure is committed.
pub open spec fn policy_view() -> Policy {
    Policy {
        batch: BATCH_SIZE,
        on_insert_failure: InsertFailure::CommitPrefix,
        retention: Retention::UntilBegun,
    }
}

/// How the buffer is flushed.
pub fn policy() -> (policy: Policy)
    ensures
        policy == policy_view(),
{
    Policy {
        batch: BATCH_SIZE,
        on_insert_failure: InsertFailure::CommitPrefix,
        retention: Retention::UntilBegun,
    }
}

/// The records that wait to be written.
pub struct TelemetryLogger {
    pub buffer: Vec<ExecutionRecord>,
}

impl TelemetryLogger {
    /// A logger for which nothing waits.
    pub fn new() -> (logger: TelemetryLogger)
        ensures
            logger.buffer@ == Seq::<ExecutionRecord>::empty(),
    {
        TelemetryLogger { buffer: Vec::with_capacity(BATCH_SIZE) }
    }

    /// Records a call that was executed, and flushes the buffer if it makes a batch.
    pub fn log_execution(
        &mut self,
        call_debug: &str,
        origin: AccountId,
        result: &Result<(), sp_runtime::DispatchError>,
    ) -> (flush: Flush)
        ensures
            final(self).buffer@.len() == old(self).buffer@.len() + 1,
            final(self).buffer@.drop_last() == old(self).buffer@,
            records_execution(final(self).buffer@.last(), call_debug@, origin, *result),
            flush == policy_view().flush_of(final(self).buffer@.len() as usize),
            flush.wf(),
    {
        let record: ExecutionRecord = ExecutionRecord::new(call_debug, &origin, result);
        self.buffer.push(record);
        assert(self.buffer@.drop_last() =~= old(self).buffer@);
        policy().flush_logged(self.buffer.len())
    }

    /// Flushes the records that wait, however many there are.
    pub fn flush_buffer(&self) -> (flush: Flush)
        ensures
            flush == Flush::begun(self.buffer@.len() as usize, InsertFailure::CommitPrefix),
            flush.wf(),
    {
        Flush::begin(self.buffer.len(), InsertFailure::CommitPrefix)
    }

    /// Ends a flush.
    pub fn settle_buffer(&mut self, flush: &Flush)
        ensures
            final(self).buffer@ == flush.left(old(self).buffer@, policy_view().retention),
    {
        settle(&mut self.buffer, flush, policy().retention);
    }
}

/// How the report of a failed step starts; `None` for what is not reported.
pub open spec fn complaint(event: FlushEvent) -> Option<Seq<char>> {
    match event {
        FlushEvent::BeginFailed => Some("Telemetry: Failed to start transaction: "@),
        FlushEvent::InsertFailed => Some("Telemetry: Failed to insert execution record: "@),
        FlushEvent::CommitFailed => Some("Telemetry: Failed to commit executions: "@),
        _ => None,
    }
}

/// The report of a failed step with the text of its error. Other events are not reported.
pub fn failure_message(event: FlushEvent, error: &str) -> (message: Option<String>)
    ensures
        message is Some <==> complaint(event) is Some,
        message matches Some(text) ==> text@ == complaint(event)->0 + error@,
{
    let start: &str = match event {
        FlushEvent::BeginFailed => "Telemetry: Failed to start transaction: ",
        FlushEvent::InsertFailed => "Telemetry: Failed to insert execution record: ",
        FlushEvent::CommitFailed => "Telemetry: Failed to commit executions: ",
        _ => {
            return None;
        },
    };
    let mut text: String = start.to_string();
    text.append(error);
    Some(text)
}

/// Whatever the database answers, no record is written twice, and the written records keep their
/// order. A record can be lost once a transaction was started for it.
pub proof fn executions_are_written_at_most_once(steps: Seq<(ExecutionRecord, Seq<FlushEvent>)>)
    requires
        steps.len() <= usize::MAX,
    ensures
        ({
            let store = campaign(steps, policy_view());
            is_subsequence(store.written + store.pending, records_of(steps))
        }),
{
    nothing_is_written_twice(steps, policy_view());
}

/// Where each flush commits all of its records, none is lost and at most 99 wait.
pub proof fn reliable_database_loses_nothing(steps: Seq<(ExecutionRecord, Seq<FlushEvent>)>)
    requires
        steps.len() <= usize::MAX,
        forall|i: int|
            0 <= i < steps.len() ==> commits_a_batch(policy_view(), #[trigger] steps[i].1),
    ensures
        ({
            let store = campaign(steps, policy_view());
            store.written + store.pending == records_of(steps) && store.pending.len() <= 99
        }),
{
    less_than_a_batch_is_pending(steps, policy_view());
}

/// Where each flush commits all of its records, and so does the last one, of the records that wait
/// at a graceful end, there is a row for each logged record, in their order.
pub proof fn graceful_end_writes_all_executions(steps: Seq<(ExecutionRecord, Seq<FlushEvent>)>)
    requires
        steps.len() <= usize::MAX,
        forall|i: int|
            0 <= i < steps.len() ==> commits_a_batch(policy_view(), #[trigger] steps[i].1),
    ensures
        ({
            let policy = policy_view();
            let store = campaign(steps, policy);
            let end = store.flushed(policy, all_succeed(store.pending.len()));
            &&& end == (Store { written: records_of(steps), pending: Seq::empty() })
            &&& end.written.len() == steps.len()
        }),
{
    less_than_a_batch_is_pending(steps, policy_view());
    final_flush_writes_the_rest(steps, policy_view());
}

/// Where each flush commits all of its records, those wait that were logged since the last hundred.
pub proof fn executions_are_flushed_by_the_hundred(steps: Seq<(ExecutionRecord, Seq<FlushEvent>)>)
    requires
        steps.len() <= usize::MAX,
        forall|i: int|
            0 <= i < steps.len() ==> commits_a_batch(policy_view(), #[trigger] steps[i].1),
    ensures
        campaign(steps, policy_view()).pending.len() == steps.len() % 100,
{
    less_than_a_batch_is_pending(steps, policy_view());
}

/// What becomes of the records that wait. They go on waiting where no transaction can be started.
/// Once one is started none waits any more: what was inserted before the first failure is written
/// if it is committed, and nothing otherwise.
pub proof fn started_flush_empties_the_buffer(store: Store<ExecutionRecord>, count: nat)
    requires
        count < store.pending.len() <= usize::MAX,
    ensures
        store.flushed(policy_view(), seq![FlushEvent::BeginFailed]) == store,
        store.flushed(
            policy_view(),
            inserted_then(count, seq![FlushEvent::InsertFailed, FlushEvent::Committed]),
        ) == (Store {
            written: store.written + store.pending.take(count as int),
            pending: Seq::empty(),
        }),
        store.flushed(
            policy_view(),
            inserted_then(store.pending.len(), seq![FlushEvent::CommitFailed]),
        ) == (Store { written: store.written, pending: Seq::empty() }),
{
    let policy = policy_view();
    let n = store.pending.len() as usize;
    flush_that_cannot_start(store.pending, policy.on_insert_failure, policy.retention);
    flush_that_inserts_all(store.pending, policy.on_insert_failure, policy.retention);
    assert(store.flushed(policy, seq![FlushEvent::BeginFailed]) =~= store);
    let commit_failed = inserted_then(store.pending.len(), seq![FlushEvent::CommitFailed]);
    assert(store.flushed(policy, commit_failed) =~= (Store {
        written: store.written,
        pending: Seq::empty(),
    }));
    let rest = seq![FlushEvent::InsertFailed, FlushEvent::Committed];
    inserts_then_rest(Flush::begun(n, policy.on_insert_failure), count, rest);
    reveal_with_fuel(Flush::after_all, 3);
    assert(rest.drop_first() =~= seq![FlushEvent::Committed]);
    assert(store.flushed(policy, inserted_then(count, rest)) =~= (Store {
        written: store.written + store.pending.take(count as int),
        pending: Seq::empty(),
    }));
}

/// Exactly the failed steps are reported.
pub proof fn failures_are_reported(event: FlushEvent)
    ensures
        complaint(event) is Some <==> event == FlushEvent::BeginFailed || event
            == FlushEvent::InsertFailed || event == FlushEvent::CommitFailed,
        complaint(FlushEvent::BeginFailed) == Some("Telemetry: Failed to start transaction: "@),
        complaint(FlushEvent::InsertFailed) == Some(
            "Telemetry: Failed to insert execution record: "@,
        ),
        complaint(FlushEvent::CommitFailed) == Some("Telemetry: Failed to commit executions: "@),
{
}

/// The statements on the database, word for word: what is inserted goes into the columns of the
/// table in the order of the fields.
pub proof fn statements_are_worded()
    ensures
        CREATE_EXECUTIONS@ == "CREATE TABLE IF NOT EXISTS executions (
    id INTEGER PRIMARY KEY,
    call_variant TEXT NOT NULL,
    args_json TEXT NOT NULL,
    origin TEXT NOT NULL,
    result TEXT NOT NULL
)"@,
        INSERT_EXECUTION@ == "INSERT INTO executions (call_variant, args_json, origin, result) VALUES (?1, ?2, ?3, ?4)"@,
        BATCH_SIZE == 100,
{
}

} // verus!
