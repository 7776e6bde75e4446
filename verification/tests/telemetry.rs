use runtime_fuzzing::accounts::AccountId;
use runtime_fuzzing::flush::{Flush, FlushAction, FlushEvent};
use runtime_fuzzing::kitchensink;
use runtime_fuzzing::kitchensink::ExecutionFlushing;
use runtime_fuzzing::records::ExecutionRecord;
use runtime_fuzzing::setup::{Setup, Statement};
use runtime_fuzzing::solochain;

fn logged(logger: &mut kitchensink::TelemetryLogger, n: usize) -> Flush {
    logger.log_execution(&format!("Call{}(x)", n), AccountId::from_index(1), &Ok(()))
}

/// Plays a database that fails as told, and hands back the positions it would hold.
fn play(flush: &mut Flush, begin: bool, fail_at: Option<usize>, commit: bool) -> Vec<usize> {
    let mut inserted = Vec::new();
    loop {
        match flush.action() {
            FlushAction::Begin => {
                flush.advance(if begin { FlushEvent::Began } else { FlushEvent::BeginFailed })
            }
            FlushAction::Insert(i) => {
                if fail_at == Some(i) {
                    flush.advance(FlushEvent::InsertFailed);
                } else {
                    inserted.push(i);
                    flush.advance(FlushEvent::Inserted);
                }
            }
            FlushAction::Commit => {
                if commit {
                    flush.advance(FlushEvent::Committed);
                    return inserted;
                }
                flush.advance(FlushEvent::CommitFailed);
            }
            FlushAction::Finished => return Vec::new(),
        }
    }
}

fn names(records: &[ExecutionRecord]) -> Vec<String> {
    records.iter().map(|r| r.call_variant.clone()).collect()
}

#[test]
fn executions_wait_for_a_batch() {
    let mut logger = kitchensink::TelemetryLogger::new(ExecutionFlushing::Batched);
    for n in 0..99 {
        assert_eq!(logged(&mut logger, n).action(), FlushAction::Finished);
    }
    let mut flush = logged(&mut logger, 99);
    let inserted = play(&mut flush, true, None, true);
    assert_eq!(inserted, (0..100).collect::<Vec<usize>>());
    logger.settle_exec_buffer(&flush);
    assert!(logger.exec_buffer.is_empty());
    assert_eq!(logged(&mut logger, 100).action(), FlushAction::Finished);
}

#[test]
fn failed_flushes_keep_their_records() {
    for (begin, fail_at, commit) in [(false, None, true), (true, Some(40), true), (true, None, false)] {
        let mut logger = kitchensink::TelemetryLogger::new(ExecutionFlushing::Batched);
        for n in 0..99 {
            logged(&mut logger, n);
        }
        let mut flush = logged(&mut logger, 99);
        assert!(play(&mut flush, begin, fail_at, commit).is_empty());
        logger.settle_exec_buffer(&flush);
        assert_eq!(logger.exec_buffer.len(), 100);
        let mut flush = logged(&mut logger, 100);
        assert_eq!(play(&mut flush, true, None, true).len(), 101);
        logger.settle_exec_buffer(&flush);
        assert!(logger.exec_buffer.is_empty());
    }
}

#[test]
fn unavailable_connection_keeps_the_records() {
    let mut logger = kitchensink::TelemetryLogger::new(ExecutionFlushing::Batched);
    logged(&mut logger, 0);
    let mut flush = logger.flush_exec_buffer();
    assert_eq!(flush.action(), FlushAction::Begin);
    flush.advance(FlushEvent::Unavailable);
    assert_eq!(flush.action(), FlushAction::Finished);
    logger.settle_exec_buffer(&flush);
    assert_eq!(logger.exec_buffer.len(), 1);
}

#[test]
fn immediate_executions_are_flushed_one_by_one() {
    let mut logger = kitchensink::TelemetryLogger::new(ExecutionFlushing::Immediate);
    let mut flush = logged(&mut logger, 0);
    assert_eq!(play(&mut flush, true, None, true), vec![0]);
    logger.settle_exec_buffer(&flush);
    assert!(logger.exec_buffer.is_empty());
}

#[test]
fn immediate_executions_are_dropped_when_locked_out() {
    let mut logger = kitchensink::TelemetryLogger::new(ExecutionFlushing::Immediate);
    let mut flush = logged(&mut logger, 0);
    assert!(play(&mut flush, false, None, true).is_empty());
    logger.settle_exec_buffer(&flush);
    assert!(logger.exec_buffer.is_empty());
    let mut flush = logged(&mut logger, 1);
    assert!(play(&mut flush, true, Some(0), true).is_empty());
    logger.settle_exec_buffer(&flush);
    assert_eq!(names(&logger.exec_buffer), vec!["Call1".to_string()]);
}

#[test]
fn immediate_executions_wait_for_a_commit() {
    let mut logger = kitchensink::TelemetryLogger::new(ExecutionFlushing::Immediate);
    let mut flush = logged(&mut logger, 0);
    assert!(play(&mut flush, true, None, false).is_empty());
    logger.settle_exec_buffer(&flush);
    let mut flush = logged(&mut logger, 1);
    flush.advance(FlushEvent::Unavailable);
    logger.settle_exec_buffer(&flush);
    let mut flush = logged(&mut logger, 2);
    assert!(play(&mut flush, true, Some(1), true).is_empty());
    logger.settle_exec_buffer(&flush);
    assert_eq!(names(&logger.exec_buffer), vec!["Call0", "Call1", "Call2"]);
    let mut flush = logged(&mut logger, 3);
    assert_eq!(play(&mut flush, true, None, true), vec![0, 1, 2, 3]);
    logger.settle_exec_buffer(&flush);
    assert!(logger.exec_buffer.is_empty());
}

#[test]
fn graceful_end_leaves_a_row_for_each_record() {
    let mut logger = kitchensink::TelemetryLogger::new(ExecutionFlushing::Batched);
    let mut rows = Vec::new();
    for n in 0..250 {
        let mut flush = logged(&mut logger, n);
        for i in play(&mut flush, true, if n == 99 { Some(7) } else { None }, n != 100) {
            rows.push(logger.exec_buffer[i].call_variant.clone());
        }
        logger.settle_exec_buffer(&flush);
    }
    assert_eq!((rows.len(), logger.exec_buffer.len()), (202, 48));
    let mut flush = logger.flush_exec_buffer();
    for i in play(&mut flush, true, None, true) {
        rows.push(logger.exec_buffer[i].call_variant.clone());
    }
    logger.settle_exec_buffer(&flush);
    assert!(logger.exec_buffer.is_empty());
    assert_eq!(rows, (0..250).map(|n| format!("Call{}", n)).collect::<Vec<String>>());

    let mut logger = solochain::TelemetryLogger::new();
    let mut rows = 0;
    for n in 0..130 {
        let mut flush =
            logger.log_execution(&format!("Call{}", n), AccountId::from_index(2), &Ok(()));
        rows += play(&mut flush, true, None, true).len();
        logger.settle_buffer(&flush);
    }
    assert_eq!((rows, logger.buffer.len()), (100, 30));
    let mut flush = logger.flush_buffer();
    rows += play(&mut flush, true, None, true).len();
    logger.settle_buffer(&flush);
    assert_eq!((rows, logger.buffer.len()), (130, 0));
}

#[test]
fn decode_stats_wait_for_a_batch() {
    let mut logger = kitchensink::TelemetryLogger::new(ExecutionFlushing::Immediate);
    for n in 0..99 {
        assert_eq!(logger.log_decode_stats(n, 2, 1).action(), FlushAction::Finished);
    }
    let mut flush = logger.log_decode_stats(99, 2, 1);
    assert_eq!(logger.decode_buffer[99].total_attempts, 99);
    assert_eq!(logger.decode_buffer[99].successful_decodes, 2);
    assert_eq!(logger.decode_buffer[99].filtered_calls, 1);
    assert_eq!(play(&mut flush, true, None, true).len(), 100);
    logger.settle_decode_buffer(&flush);
    assert!(logger.decode_buffer.is_empty());
}

#[test]
fn rest_is_flushed_at_the_end() {
    let mut logger = kitchensink::TelemetryLogger::new(ExecutionFlushing::Batched);
    for n in 0..3 {
        logged(&mut logger, n);
        logger.log_decode_stats(n, 0, 0);
    }
    let mut flush = logger.flush_exec_buffer();
    assert_eq!(play(&mut flush, true, None, true), vec![0, 1, 2]);
    logger.settle_exec_buffer(&flush);
    let mut flush = logger.flush_decode_buffer();
    assert_eq!(play(&mut flush, true, None, true), vec![0, 1, 2]);
    logger.settle_decode_buffer(&flush);
    assert!(logger.exec_buffer.is_empty() && logger.decode_buffer.is_empty());
    assert_eq!(logger.flush_exec_buffer().action(), FlushAction::Finished);
    assert_eq!(logger.flush_decode_buffer().action(), FlushAction::Finished);
}

#[test]
fn inserts_follow_the_buffer() {
    let mut logger = kitchensink::TelemetryLogger::new(ExecutionFlushing::Batched);
    for n in 0..4 {
        logged(&mut logger, n);
    }
    let mut flush = logger.flush_exec_buffer();
    let mut positions = Vec::new();
    for event in [
        FlushEvent::Inserted,
        FlushEvent::Began,
        FlushEvent::Inserted,
        FlushEvent::Committed,
        FlushEvent::Inserted,
        FlushEvent::InsertFailed,
        FlushEvent::Inserted,
    ] {
        if let (FlushAction::Insert(i), FlushEvent::Inserted) = (flush.action(), event) {
            positions.push(i);
        }
        flush.advance(event);
    }
    assert_eq!(positions, vec![0, 1]);
    assert_eq!(flush.action(), FlushAction::Finished);
    logger.settle_exec_buffer(&flush);
    let mut flush = logger.flush_exec_buffer();
    assert_eq!(play(&mut flush, true, None, true), vec![0, 1, 2, 3]);
}

#[test]
fn out_of_turn_events_change_nothing() {
    let mut logger = kitchensink::TelemetryLogger::new(ExecutionFlushing::Batched);
    logged(&mut logger, 0);
    let mut flush = logger.flush_exec_buffer();
    flush.advance(FlushEvent::Committed);
    flush.advance(FlushEvent::Inserted);
    assert_eq!(flush.action(), FlushAction::Begin);
}

#[test]
fn solochain_commits_what_was_inserted() {
    let mut logger = solochain::TelemetryLogger::new();
    for n in 0..99 {
        let flush =
            logger.log_execution(&format!("Call{}(x)", n), AccountId::from_index(2), &Ok(()));
        assert_eq!(flush.action(), FlushAction::Finished);
    }
    let mut flush = logger.log_execution("Call99", AccountId::from_index(2), &Ok(()));
    assert_eq!(play(&mut flush, true, Some(3), true), vec![0, 1, 2]);
    logger.settle_buffer(&flush);
    assert!(logger.buffer.is_empty());
}

#[test]
fn solochain_loses_what_it_cannot_commit() {
    let mut logger = solochain::TelemetryLogger::new();
    logger.log_execution("A", AccountId::from_index(2), &Ok(()));
    let mut flush = logger.flush_buffer();
    assert!(play(&mut flush, false, None, true).is_empty());
    logger.settle_buffer(&flush);
    assert_eq!(names(&logger.buffer), vec!["A".to_string()]);
    let mut flush = logger.flush_buffer();
    assert!(play(&mut flush, true, None, false).is_empty());
    logger.settle_buffer(&flush);
    assert!(logger.buffer.is_empty());
}

#[test]
fn failures_are_reported() {
    let executions = kitchensink::Table::Executions;
    let stats = kitchensink::Table::DecodeStats;
    let message = |table, event| {
        kitchensink::failure_message(ExecutionFlushing::Batched, table, event, "locked")
    };
    assert_eq!(
        message(executions, FlushEvent::BeginFailed).unwrap(),
        "Telemetry: Failed to start transaction for executions: locked"
    );
    assert_eq!(
        message(executions, FlushEvent::InsertFailed).unwrap(),
        "Telemetry: Failed to insert execution record: locked"
    );
    assert_eq!(
        message(executions, FlushEvent::CommitFailed).unwrap(),
        "Telemetry: Failed to commit executions: locked"
    );
    assert_eq!(
        message(stats, FlushEvent::BeginFailed).unwrap(),
        "Telemetry: Failed to start transaction for decode stats: locked"
    );
    assert_eq!(
        message(stats, FlushEvent::InsertFailed).unwrap(),
        "Telemetry: Failed to insert decode stats: locked"
    );
    assert_eq!(
        message(stats, FlushEvent::CommitFailed).unwrap(),
        "Telemetry: Failed to commit decode stats: locked"
    );
    assert_eq!(message(stats, FlushEvent::Unavailable), None);
    let message = |table, event| {
        let flushing = ExecutionFlushing::Immediate;
        kitchensink::failure_message(flushing, table, event, "database is locked")
    };
    assert_eq!(
        message(executions, FlushEvent::BeginFailed).unwrap(),
        "Telemetry: Failed to start transaction: database is locked"
    );
    assert_eq!(
        message(executions, FlushEvent::InsertFailed).unwrap(),
        "Telemetry: Failed to insert execution record: database is locked"
    );
    assert_eq!(
        message(stats, FlushEvent::BeginFailed).unwrap(),
        "Telemetry: Failed to start transaction for decode stats: database is locked"
    );
    assert_eq!(message(executions, FlushEvent::Committed), None);
    assert_eq!(
        solochain::failure_message(FlushEvent::BeginFailed, "database is locked").unwrap(),
        "Telemetry: Failed to start transaction: database is locked"
    );
    assert_eq!(
        solochain::failure_message(FlushEvent::InsertFailed, "x").unwrap(),
        "Telemetry: Failed to insert execution record: x"
    );
    assert_eq!(
        solochain::failure_message(FlushEvent::CommitFailed, "x").unwrap(),
        "Telemetry: Failed to commit executions: x"
    );
    assert_eq!(solochain::failure_message(FlushEvent::Began, "x"), None);
}

fn prepare(statements: Vec<Statement>, failing: &[usize]) -> (bool, usize) {
    let mut setup = Setup::new(statements);
    let mut executed = 0;
    while setup.statement().is_some() {
        setup.advance(!failing.contains(&executed));
        executed += 1;
    }
    (setup.prepared(), executed)
}

#[test]
fn tables_are_required_and_indexes_are_not() {
    assert_eq!(kitchensink::schema().len(), 5);
    assert_eq!(prepare(kitchensink::schema(), &[]), (true, 5));
    assert_eq!(prepare(kitchensink::schema(), &[0]), (false, 1));
    assert_eq!(prepare(kitchensink::schema(), &[1]), (false, 2));
    assert_eq!(prepare(kitchensink::schema(), &[2, 3, 4]), (true, 5));
    assert_eq!(prepare(solochain::schema(), &[]), (true, 1));
    assert_eq!(prepare(solochain::schema(), &[0]), (false, 1));
}
