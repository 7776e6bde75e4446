//! Telemetry of the kitchensink campaign: executed calls and decode statistics.
use crate::accounts::AccountId;
use crate::flush::{settle, Flush, FlushEvent, InsertFailure, Policy, Progress, Retention};
use crate::records::{records_execution, DecodeStatsRecord, ExecutionRecord};
use crate::setup::Statement;
use crate::store::{
    all_succeed, campaign, commit_is_complete, commits_a_batch, final_flush_writes_the_rest,
    flush_that_cannot_start, less_than_a_batch_is_pending, never_refused, nothing_is_lost,
    records_of, Store,
};
use vstd::prelude::*;
use vstd::string::*;

verus! {

/// Number of execution records that are written in one transaction.
pub const BATCH_SIZE: usize = 100;

/// Number of decode statistics that are written in one transaction.
pub const DECODE_STATS_BATCH_SIZE: usize = 100;

/// Creates the table of executed calls.
pub const CREATE_EXECUTIONS: &'static str = "CREATE TABLE IF NOT EXISTS executions (
    id INTEGER PRIMARY KEY AUTOINCREMENT,
    call_variant TEXT NOT NULL,
    args_json TEXT NOT NULL,
    origin TEXT NOT NULL,
    result TEXT NOT NULL,
    timestamp INTEGER NOT NULL DEFAULT (strftime('%s', 'now'))
)";

/// Creates the table of decode statistics.
pub const CREATE_DECODE_STATS: &'static str = "CREATE TABLE IF NOT EXISTS decode_stats (
    id INTEGER PRIMARY KEY AUTOINCREMENT,
    total_attempts INTEGER NOT NULL,
    successful_decodes INTEGER NOT NULL,
    filtered_calls INTEGER NOT NULL,
    timestamp INTEGER NOT NULL DEFAULT (strftime('%s', 'now'))
)";

/// Indexes the executed calls by their variant.
pub const INDEX_CALL_VARIANT: &'static str =
    "CREATE INDEX IF NOT EXISTS idx_call_variant ON executions(call_variant)";

/// Indexes the executed calls by their result.
pub const INDEX_RESULT: &'static str =
    "CREATE INDEX IF NOT EXISTS idx_result ON executions(result)";

/// Indexes the executed calls by their time.
pub const INDEX_TIMESTAMP: &'static str =
    "CREATE INDEX IF NOT EXISTS idx_exec_timestamp ON executions(timestamp)";

/// Inserts an executed call: variant, arguments, origin and result.
pub const INSERT_EXECUTION: &'static str =
    "INSERT INTO executions (call_variant, args_json, origin, result) VALUES (?1, ?2, ?3, ?4)";

/// Inserts decode statistics: attempts, successes and filtered calls.
pub const INSERT_DECODE_STATS: &'static str =
    "INSERT INTO decode_stats (total_attempts, successful_decodes, filtered_calls) VALUES (?1, ?2, ?3)";

/// The statements that prepare the database. It is of no use without its tables; indexes only make
/// common queries faster.
pub fn schema() -> (statements: Vec<Statement>)
    ensures
        statements@ == seq![
            Statement { sql: CREATE_EXECUTIONS, required: true },
            Statement { sql: CREATE_DECODE_STATS, required: true },
            Statement { sql: INDEX_CALL_VARIANT, required: false },
            Statement { sql: INDEX_RESULT, required: false },
            Statement { sql: INDEX_TIMESTAMP, required: false },
        ],
{
    vec![
        Statement { sql: CREATE_EXECUTIONS, required: true },
        Statement { sql: CREATE_DECODE_STATS, required: true },
        Statement { sql: INDEX_CALL_VARIANT, required: false },
        Statement { sql: INDEX_RESULT, required: false },
        Statement { sql: INDEX_TIMESTAMP, required: false },
    ]
}

/// When execution records are written.
#[derive(Debug, Clone, Copy, PartialEq, Eq, Structural)]
pub enum ExecutionFlushing {
    /// In batches, to keep the overhead and the contention for the database low. Records wait until
    /// they are committed.
    Batched,
    /// Each at once, to lose none to a crash. A record is dropped when no transaction can be
    /// started for it, as when the database is locked.
    Immediate,
}

impl ExecutionFlushing {
    /// How the buffer of execution records is flushed.
    pub open spec fn policy_view(self) -> Policy {
        match self {
            ExecutionFlushing::Batched => Policy {
                batch: BATCH_SIZE,
                on_insert_failure: InsertFailure::Abandon,
                retention: Retention::UntilCommitted,
            },
            ExecutionFlushing::Immediate => Policy {
                batch: 1,
                on_insert_failure: InsertFailure::Abandon,
                retention: Retention::UntilCommittedOrRefused,
            },
        }
    }

    /// How the buffer of execution records is flushed.
    pub fn policy(&self) -> (policy: Policy)
        ensures
            policy == self.policy_view(),
    {
        match self {
            ExecutionFlushing::Batched => Policy {
                batch: BATCH_SIZE,
                on_insert_failure: InsertFailure::Abandon,
                retention: Retention::UntilCommitted,
            },
            ExecutionFlushing::Immediate => Policy {
                batch: 1,
                on_insert_failure: InsertFailure::Abandon,
                retention: Retention::UntilCommittedOrRefused,
            },
        }
    }
}

/// How the buffer of decode statistics is flushed.
pub open spec fn decode_policy_view() -> Policy {
    Policy {
        batch: DECODE_STATS_BATCH_SIZE,
        on_insert_failure: InsertFailure::Abandon,
        retention: Retention::UntilCommitted,
    }
}

/// How the buffer of decode statistics is flushed.
pub fn decode_policy() -> (policy: Policy)
    ensures
        policy == decode_policy_view(),
{
    Policy {
        batch: DECODE_STATS_BATCH_SIZE,
        on_insert_failure: InsertFailure::Abandon,
        retention: Retention::UntilCommitted,
    }
}

/// The records that wait to be written.
pub struct TelemetryLogger {
    pub exec_buffer: Vec<ExecutionRecord>,
    pub decode_buffer: Vec<DecodeStatsRecord>,
    pub flushing: ExecutionFlushing,
}

impl TelemetryLogger {
    /// A logger for which nothing waits.
    pub fn new(flushing: ExecutionFlushing) -> (logger: TelemetryLogger)
        ensures
            logger.exec_buffer@ == Seq::<ExecutionRecord>::empty(),
            logger.decode_buffer@ == Seq::<DecodeStatsRecord>::empty(),
            logger.flushing == flushing,
    {
        TelemetryLogger {
            exec_buffer: Vec::with_capacity(BATCH_SIZE),
            decode_buffer: Vec::with_capacity(DECODE_STATS_BATCH_SIZE),
            flushing,
        }
    }

    /// Records a call that was executed, and flushes the executed calls if they make a batch.
    pub fn log_execution(
        &mut self,
        call_debug: &str,
        origin: AccountId,
        result: &Result<(), sp_runtime::DispatchError>,
    ) -> (flush: Flush)
        ensures
            final(self).exec_buffer@.len() == old(self).exec_buffer@.len() + 1,
            final(self).exec_buffer@.drop_last() == old(self).exec_buffer@,
            records_execution(final(self).exec_buffer@.last(), call_debug@, origin, *result),
            final(self).decode_buffer@ == old(self).decode_buffer@,
            final(self).flushing == old(self).flushing,
            flush == old(self).flushing.policy_view().flush_of(
                final(self).exec_buffer@.len() as usize,
            ),
            flush.wf(),
    {
        let record: ExecutionRecord = ExecutionRecord::new(call_debug, &origin, result);
        self.exec_buffer.push(record);
        assert(self.exec_buffer@.drop_last() =~= old(self).exec_buffer@);
        self.flushing.policy().flush_logged(self.exec_buffer.len())
    }

    /// Records what an iteration decoded, and flushes the decode statistics if they make a batch.
    pub fn log_decode_stats(
        &mut self,
        total_attempts: usize,
        successful: usize,
        filtered: usize,
    ) -> (flush: Flush)
        ensures
            final(self).decode_buffer@ == old(self).decode_buffer@.push(
                DecodeStatsRecord {
                    total_attempts,
                    successful_decodes: successful,
                    filtered_calls: filtered,
                },
            ),
            final(self).exec_buffer@ == old(self).exec_buffer@,
            final(self).flushing == old(self).flushing,
            flush == decode_policy_view().flush_of(final(self).decode_buffer@.len() as usize),
            flush.wf(),
    {
        let record = DecodeStatsRecord {
            total_attempts,
            successful_decodes: successful,
            filtered_calls: filtered,
        };
        self.decode_buffer.push(record);
        decode_policy().flush_logged(self.decode_buffer.len())
    }

    /// Flushes the executed calls that wait, however many there are.
    pub fn flush_exec_buffer(&self) -> (flush: Flush)
        ensures
            flush == Flush::begun(self.exec_buffer@.len() as usize, InsertFailure::Abandon),
            flush.wf(),
    {
        Flush::begin(self.exec_buffer.len(), InsertFailure::Abandon)
    }

    /// Flushes the decode statistics that wait, however many there are.
    pub fn flush_decode_buffer(&self) -> (flush: Flush)
        ensures
            flush == Flush::begun(self.decode_buffer@.len() as usize, InsertFailure::Abandon),
            flush.wf(),
    {
        Flush::begin(self.decode_buffer.len(), InsertFailure::Abandon)
    }

    /// Ends a flush of the executed calls.
    pub fn settle_exec_buffer(&mut self, flush: &Flush)
        ensures
            final(self).exec_buffer@ == flush.left(
                old(self).exec_buffer@,
                old(self).flushing.policy_view().retention,
            ),
            final(self).decode_buffer@ == old(self).decode_buffer@,
            final(self).flushing == old(self).flushing,
    {
        let retention: Retention = self.flushing.policy().retention;
        settle(&mut self.exec_buffer, flush, retention);
    }

    /// Ends a flush of the decode statistics.
    pub fn settle_decode_buffer(&mut self, flush: &Flush)
        ensures
            final(self).decode_buffer@ == flush.left(
                old(self).decode_buffer@,
                decode_policy_view().retention,
            ),
            final(self).exec_buffer@ == old(self).exec_buffer@,
            final(self).flushing == old(self).flushing,
    {
        let retention: Retention = decode_policy().retention;
        settle(&mut self.decode_buffer, flush, retention);
    }
}

/// A table of the database.
#[derive(Debug, Clone, Copy, PartialEq, Eq, Structural)]
pub enum Table {
    Executions,
    DecodeStats,
}

/// How the report of a failed step starts; `None` for what is not reported. Where execution records
/// are flushed at once, a locked database is nothing unusual, and its report names no table.
pub open spec fn complaint(
    flushing: ExecutionFlushing,
    table: Table,
    event: FlushEvent,
) -> Option<Seq<char>> {
    match (table, event) {
        (Table::Executions, FlushEvent::BeginFailed) => match flushing {
            ExecutionFlushing::Batched => Some(
                "Telemetry: Failed to start transaction for executions: "@,
            ),
            ExecutionFlushing::Immediate => Some("Telemetry: Failed to start transaction: "@),
        },
        (Table::Executions, FlushEvent::InsertFailed) => Some(
            "Telemetry: Failed to insert execution record: "@,
        ),
        (Table::Executions, FlushEvent::CommitFailed) => Some(
            "Telemetry: Failed to commit executions: "@,
        ),
        (Table::DecodeStats, FlushEvent::BeginFailed) => Some(
            "Telemetry: Failed to start transaction for decode stats: "@,
        ),
        (Table::DecodeStats, FlushEvent::InsertFailed) => Some(
            "Telemetry: Failed to insert decode stats: "@,
        ),
        (Table::DecodeStats, FlushEvent::CommitFailed) => Some(
            "Telemetry: Failed to commit decode stats: "@,
        ),
        _ => None,
    }
}

/// The report of a failed step with the text of its error. Other events are not reported.
pub fn failure_message(
    flushing: ExecutionFlushing,
    table: Table,
    event: FlushEvent,
    error: &str,
) -> (message: Option<String>)
    ensures
        message is Some <==> complaint(flushing, table, event) is Some,
        message matches Some(text) ==> text@ == complaint(flushing, table, event)->0 + error@,
{
    let start: &str = match (table, event) {
        (Table::Executions, FlushEvent::BeginFailed) => match flushing {
            ExecutionFlushing::Batched => {
                "Telemetry: Failed to start transaction for executions: "
            },
            ExecutionFlushing::Immediate => "Telemetry: Failed to start transaction: ",
        },
        (Table::Executions, FlushEvent::InsertFailed) => {
            "Telemetry: Failed to insert execution record: "
        },
        (Table::Executions, FlushEvent::CommitFailed) => {
            "Telemetry: Failed to commit executions: "
        },
        (Table::DecodeStats, FlushEvent::BeginFailed) => {
            "Telemetry: Failed to start transaction for decode stats: "
        },
        (Table::DecodeStats, FlushEvent::InsertFailed) => {
            "Telemetry: Failed to insert decode stats: "
        },
        (Table::DecodeStats, FlushEvent::CommitFailed) => {
            "Telemetry: Failed to commit decode stats: "
        },
        _ => {
            return None;
        },
    };
    let mut text: String = start.to_string();
    text.append(error);
    Some(text)
}

/// Whatever the database answers, batched execution records are neither lost nor written twice.
pub proof fn batched_executions_are_not_lost(steps: Seq<(ExecutionRecord, Seq<FlushEvent>)>)
    requires
        steps.len() <= usize::MAX,
    ensures
        ({
            let store = campaign(steps, ExecutionFlushing::Batched.policy_view());
            store.written + store.pending == records_of(steps)
        }),
{
    nothing_is_lost(steps, ExecutionFlushing::Batched.policy_view());
}

/// Execution records that are flushed at once are neither lost nor written twice as long as no
/// transaction is refused, whatever else the database answers.
pub proof fn immediate_executions_are_not_lost(steps: Seq<(ExecutionRecord, Seq<FlushEvent>)>)
    requires
        steps.len() <= usize::MAX,
        never_refused(steps),
    ensures
        ({
            let store = campaign(steps, ExecutionFlushing::Immediate.policy_view());
            store.written + store.pending == records_of(steps)
        }),
{
    nothing_is_lost(steps, ExecutionFlushing::Immediate.policy_view());
}

/// After a graceful end, at which the execution records that wait are flushed to a database that
/// does all that it is asked, there is a row for each logged record, in their order. Whatever the
/// database answered before, none is missing where the records were batched; where they were
/// flushed at once, none is missing unless a transaction was refused.
pub proof fn graceful_end_writes_all_executions(
    steps: Seq<(ExecutionRecord, Seq<FlushEvent>)>,
    flushing: ExecutionFlushing,
)
    requires
        steps.len() <= usize::MAX,
        flushing == ExecutionFlushing::Immediate ==> never_refused(steps),
    ensures
        ({
            let policy = flushing.policy_view();
            let store = campaign(steps, policy);
            let end = store.flushed(policy, all_succeed(store.pending.len()));
            &&& end == (Store { written: records_of(steps), pending: Seq::empty() })
            &&& end.written.len() == steps.len()
        }),
{
    nothing_is_lost(steps, flushing.policy_view());
    final_flush_writes_the_rest(steps, flushing.policy_view());
}

/// Where each flush commits, execution records that are flushed at once are all written.
pub proof fn immediate_executions_are_written(steps: Seq<(ExecutionRecord, Seq<FlushEvent>)>)
    requires
        steps.len() <= usize::MAX,
        forall|i: int|
            0 <= i < steps.len() ==> Flush::begun(1, InsertFailure::Abandon).after_all(
                #[trigger] steps[i].1,
            ).progress == Progress::Committed,
    ensures
        ({
            let store = campaign(steps, ExecutionFlushing::Immediate.policy_view());
            store.written == records_of(steps) && store.pending.len() == 0
        }),
{
    let policy = ExecutionFlushing::Immediate.policy_view();
    assert forall|i: int| 0 <= i < steps.len() implies commits_a_batch(
        policy,
        #[trigger] steps[i].1,
    ) by {
        commit_is_complete(policy, steps[i].1);
    }
    less_than_a_batch_is_pending(steps, policy);
    let store = campaign(steps, policy);
    assert(steps.len() % 1 == 0);
    assert(store.written =~= store.written + store.pending);
}

/// Whatever the database answers, decode statistics are neither lost nor written twice.
pub proof fn decode_stats_are_not_lost(steps: Seq<(DecodeStatsRecord, Seq<FlushEvent>)>)
    requires
        steps.len() <= usize::MAX,
    ensures
        ({
            let store = campaign(steps, decode_policy_view());
            store.written + store.pending == records_of(steps)
        }),
{
    nothing_is_lost(steps, decode_policy_view());
}

/// After a graceful end, at which the decode statistics that wait are flushed to a database that
/// does all that it is asked, there is a row for each iteration, in their order, whatever the
/// database answered before.
pub proof fn graceful_end_writes_all_decode_stats(steps: Seq<(DecodeStatsRecord, Seq<FlushEvent>)>)
    requires
        steps.len() <= usize::MAX,
    ensures
        ({
            let policy = decode_policy_view();
            let store = campaign(steps, policy);
            let end = store.flushed(policy, all_succeed(store.pending.len()));
            &&& end == (Store { written: records_of(steps), pending: Seq::empty() })
            &&& end.written.len() == steps.len()
        }),
{
    nothing_is_lost(steps, decode_policy_view());
    final_flush_writes_the_rest(steps, decode_policy_view());
}

/// Where each flush commits, at most 99 decode statistics wait: a crash loses no more.
pub proof fn few_decode_stats_wait(steps: Seq<(DecodeStatsRecord, Seq<FlushEvent>)>)
    requires
        steps.len() <= usize::MAX,
        forall|i: int|
            0 <= i < steps.len() ==> Flush::begun(
                DECODE_STATS_BATCH_SIZE,
                InsertFailure::Abandon,
            ).after_all(#[trigger] steps[i].1).progress == Progress::Committed,
    ensures
        campaign(steps, decode_policy_view()).pending.len() <= 99,
{
    let policy = decode_policy_view();
    assert forall|i: int| 0 <= i < steps.len() implies commits_a_batch(
        policy,
        #[trigger] steps[i].1,
    ) by {
        commit_is_complete(policy, steps[i].1);
    }
    less_than_a_batch_is_pending(steps, policy);
}

/// Where each flush commits, those executions wait that were logged since the last hundred, if they
/// are batched, and none if they are flushed at once.
pub proof fn executions_are_flushed_by_the_hundred(
    steps: Seq<(ExecutionRecord, Seq<FlushEvent>)>,
    flushing: ExecutionFlushing,
)
    requires
        steps.len() <= usize::MAX,
        forall|i: int|
            0 <= i < steps.len() ==> Flush::begun(
                if flushing == ExecutionFlushing::Batched {
                    100
                } else {
                    1
                },
                InsertFailure::Abandon,
            ).after_all(#[trigger] steps[i].1).progress == Progress::Committed,
    ensures
        campaign(steps, flushing.policy_view()).pending.len() == if flushing
            == ExecutionFlushing::Batched {
            steps.len() % 100
        } else {
            0
        },
{
    let policy = flushing.policy_view();
    assert forall|i: int| 0 <= i < steps.len() implies commits_a_batch(
        policy,
        #[trigger] steps[i].1,
    ) by {
        commit_is_complete(policy, steps[i].1);
    }
    less_than_a_batch_is_pending(steps, policy);
    assert(steps.len() % 1 == 0);
}

/// Where each flush commits, those decode statistics wait that were logged since the last hundred.
pub proof fn decode_stats_are_flushed_by_the_hundred(
    steps: Seq<(DecodeStatsRecord, Seq<FlushEvent>)>,
)
    requires
        steps.len() <= usize::MAX,
        forall|i: int|
            0 <= i < steps.len() ==> Flush::begun(100, InsertFailure::Abandon).after_all(
                #[trigger] steps[i].1,
            ).progress == Progress::Committed,
    ensures
        campaign(steps, decode_policy_view()).pending.len() == steps.len() % 100,
{
    let policy = decode_policy_view();
    assert forall|i: int| 0 <= i < steps.len() implies commits_a_batch(
        policy,
        #[trigger] steps[i].1,
    ) by {
        commit_is_complete(policy, steps[i].1);
    }
    less_than_a_batch_is_pending(steps, policy);
}

/// An execution for which no transaction can be started is dropped where executions are flushed at
/// once, and waits where they are batched; nothing is written either way.
pub proof fn refused_executions(store: Store<ExecutionRecord>, flushing: ExecutionFlushing)
    requires
        0 < store.pending.len() <= usize::MAX,
    ensures
        store.flushed(flushing.policy_view(), seq![FlushEvent::BeginFailed]) == (Store {
            written: store.written,
            pending: if flushing == ExecutionFlushing::Immediate {
                Seq::empty()
            } else {
                store.pending
            },
        }),
{
    let policy = flushing.policy_view();
    flush_that_cannot_start(store.pending, policy.on_insert_failure, policy.retention);
    let after = store.flushed(policy, seq![FlushEvent::BeginFailed]);
    assert(after.written =~= store.written);
}

/// Exactly the failed steps are reported. Only a refused transaction for executions is reported
/// differently where executions are flushed at once.
pub proof fn failures_are_reported(flushing: ExecutionFlushing, table: Table, event: FlushEvent)
    ensures
        complaint(flushing, table, event) is Some <==> event == FlushEvent::BeginFailed || event
            == FlushEvent::InsertFailed || event == FlushEvent::CommitFailed,
        !(table == Table::Executions && event == FlushEvent::BeginFailed) ==> complaint(
            flushing,
            table,
            event,
        ) == complaint(ExecutionFlushing::Batched, table, event),
        flushing == ExecutionFlushing::Immediate ==> complaint(
            flushing,
            Table::Executions,
            FlushEvent::BeginFailed,
        ) == Some("Telemetry: Failed to start transaction: "@),
        flushing == ExecutionFlushing::Batched ==> complaint(
            flushing,
            Table::Executions,
            FlushEvent::BeginFailed,
        ) == Some("Telemetry: Failed to start transaction for executions: "@),
        complaint(flushing, Table::Executions, FlushEvent::InsertFailed) == Some(
            "Telemetry: Failed to insert execution record: "@,
        ),
        complaint(flushing, Table::Executions, FlushEvent::CommitFailed) == Some(
            "Telemetry: Failed to commit executions: "@,
        ),
        complaint(flushing, Table::DecodeStats, FlushEvent::BeginFailed) == Some(
            "Telemetry: Failed to start transaction for decode stats: "@,
        ),
        complaint(flushing, Table::DecodeStats, FlushEvent::InsertFailed) == Some(
            "Telemetry: Failed to insert decode stats: "@,
        ),
        complaint(flushing, Table::DecodeStats, FlushEvent::CommitFailed) == Some(
            "Telemetry: Failed to commit decode stats: "@,
        ),
{
}

/// The statements on the database, word for word: records are kept with the time at which they were
/// written, and what is inserted goes into the columns of the tables in the order of the fields.
pub proof fn statements_are_worded()
    ensures
        CREATE_EXECUTIONS@ == "CREATE TABLE IF NOT EXISTS executions (
    id INTEGER PRIMARY KEY AUTOINCREMENT,
    call_variant TEXT NOT NULL,
    args_json TEXT NOT NULL,
    origin TEXT NOT NULL,
    result TEXT NOT NULL,
    timestamp INTEGER NOT NULL DEFAULT (strftime('%s', 'now'))
)"@,
        CREATE_DECODE_STATS@ == "CREATE TABLE IF NOT EXISTS decode_stats (
    id INTEGER PRIMARY KEY AUTOINCREMENT,
    total_attempts INTEGER NOT NULL,
    successful_decodes INTEGER NOT NULL,
    filtered_calls INTEGER NOT NULL,
    timestamp INTEGER NOT NULL DEFAULT (strftime('%s', 'now'))
)"@,
        INDEX_CALL_VARIANT@ == "CREATE INDEX IF NOT EXISTS idx_call_variant ON executions(call_variant)"@,
        INDEX_RESULT@ == "CREATE INDEX IF NOT EXISTS idx_result ON executions(result)"@,
        INDEX_TIMESTAMP@ == "CREATE INDEX IF NOT EXISTS idx_exec_timestamp ON executions(timestamp)"@,
        INSERT_EXECUTION@ == "INSERT INTO executions (call_variant, args_json, origin, result) VALUES (?1, ?2, ?3, ?4)"@,
        INSERT_DECODE_STATS@ == "INSERT INTO decode_stats (total_attempts, successful_decodes, filtered_calls) VALUES (?1, ?2, ?3)"@,
        BATCH_SIZE == 100,
        DECODE_STATS_BATCH_SIZE == 100,
{
}

} // verus!
