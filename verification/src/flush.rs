//! Writing a buffer to the database in one transaction.
//!
//! A [`Flush`] says which step is due; whoever owns the connection performs it and reports what
//! came of it. When nothing is due any more, the buffer is settled: see [`Retention`].
use vstd::prelude::*;

verus! {

/// A step that is to be performed on the database.
#[derive(Debug, Clone, Copy, PartialEq, Eq, Structural)]
pub enum FlushAction {
    /// Start a transaction.
    Begin,
    /// Insert the record at this position of the buffer.
    Insert(usize),
    /// Commit the transaction.
    Commit,
    /// Nothing; an open transaction is rolled back.
    Finished,
}

/// What came of a step.
#[derive(Debug, Clone, Copy, PartialEq, Eq, Structural)]
pub enum FlushEvent {
    /// The connection cannot be used at all.
    Unavailable,
    /// The transaction was started.
    Began,
    /// The transaction could not be started.
    BeginFailed,
    /// The record was inserted.
    Inserted,
    /// The record could not be inserted.
    InsertFailed,
    /// The transaction was committed.
    Committed,
    /// The transaction could not be committed.
    CommitFailed,
}

/// What to do once a record could not be inserted.
#[derive(Debug, Clone, Copy, PartialEq, Eq, Structural)]
pub enum InsertFailure {
    /// Give the transaction up.
    Abandon,
    /// Commit the records before it, and insert no further one.
    CommitPrefix,
}

/// How long a buffer keeps its records.
#[derive(Debug, Clone, Copy, PartialEq, Eq, Structural)]
pub enum Retention {
    /// Until they are committed.
    UntilCommitted,
    /// Until a transaction is started for them, whatever comes of it.
    UntilBegun,
    /// Until they are committed, or no transaction can be started for them.
    UntilCommittedOrRefused,
}

/// How far a flush got with its transaction.
#[derive(Debug, Clone, Copy, PartialEq, Eq, Structural)]
pub enum Progress {
    /// There was nothing to write, or the connection cannot be used.
    Idle,
    /// The transaction is to be started.
    Starting,
    /// The transaction could not be started.
    Refused,
    /// Records are being inserted.
    Inserting,
    /// The transaction is to be committed.
    Committing,
    /// The transaction was given up, or could not be committed.
    Failed,
    /// The transaction was committed.
    Committed,
}

/// A buffer on its way to the database.
#[derive(Debug, Clone, Copy, PartialEq, Eq, Structural)]
pub struct Flush {
    /// Number of records in the buffer.
    pub total: usize,
    /// Number of records that were inserted, from the front of the buffer.
    pub inserted: usize,
    pub progress: Progress,
    pub on_insert_failure: InsertFailure,
}

impl Flush {
    /// Whether the counters fit the progress.
    pub open spec fn wf(self) -> bool {
        &&& self.inserted <= self.total
        &&& self.progress == Progress::Inserting ==> self.inserted < self.total
        &&& self.progress == Progress::Starting ==> self.inserted == 0 && self.total > 0
        &&& (self.on_insert_failure == InsertFailure::Abandon && (self.progress
            == Progress::Committing || self.progress == Progress::Committed)) ==> self.inserted
            == self.total
    }

    /// The flush of a buffer of `total` records before its first step.
    pub open spec fn begun(total: usize, on_insert_failure: InsertFailure) -> Flush {
        Flush {
            total,
            inserted: 0,
            progress: if total == 0 {
                Progress::Idle
            } else {
                Progress::Starting
            },
            on_insert_failure,
        }
    }

    /// The flush that leaves a buffer of `total` records alone.
    pub open spec fn postponed(total: usize, on_insert_failure: InsertFailure) -> Flush {
        Flush { total, inserted: 0, progress: Progress::Idle, on_insert_failure }
    }

    /// Starts to write a buffer of `total` records; an empty one needs no step.
    pub fn begin(total: usize, on_insert_failure: InsertFailure) -> (flush: Flush)
        ensures
            flush == Flush::begun(total, on_insert_failure),
            flush.wf(),
    {
        let progress = if total == 0 {
            Progress::Idle
        } else {
            Progress::Starting
        };
        Flush { total, inserted: 0, progress, on_insert_failure }
    }

    /// Leaves a buffer of `total` records alone.
    pub fn postpone(total: usize, on_insert_failure: InsertFailure) -> (flush: Flush)
        ensures
            flush == Flush::postponed(total, on_insert_failure),
            flush.wf(),
    {
        Flush { total, inserted: 0, progress: Progress::Idle, on_insert_failure }
    }

    /// The step that is due.
    pub open spec fn due(self) -> FlushAction {
        match self.progress {
            Progress::Starting => FlushAction::Begin,
            Progress::Inserting => FlushAction::Insert(self.inserted),
            Progress::Committing => FlushAction::Commit,
            _ => FlushAction::Finished,
        }
    }

    /// Whether no step is due any more.
    pub open spec fn finished(self) -> bool {
        self.due() == FlushAction::Finished
    }

    /// The step that is due.
    pub fn action(&self) -> (action: FlushAction)
        ensures
            action == self.due(),
            action == FlushAction::Finished <==> self.finished(),
            self.wf() ==> (action matches FlushAction::Insert(i) ==> i < self.total),
    {
        match self.progress {
            Progress::Starting => FlushAction::Begin,
            Progress::Inserting => FlushAction::Insert(self.inserted),
            Progress::Committing => FlushAction::Commit,
            _ => FlushAction::Finished,
        }
    }

    /// The flush after `event` was reported. An event that does not answer the step that is due
    /// changes nothing.
    pub open spec fn after(self, event: FlushEvent) -> Flush {
        match (self.progress, event) {
            (Progress::Starting, FlushEvent::Unavailable) => {
                Flush { progress: Progress::Idle, ..self }
            },
            (Progress::Starting, FlushEvent::Began) => {
                Flush { progress: Progress::Inserting, ..self }
            },
            (Progress::Starting, FlushEvent::BeginFailed) => {
                Flush { progress: Progress::Refused, ..self }
            },
            (Progress::Inserting, FlushEvent::Inserted) => {
                Flush {
                    inserted: (self.inserted + 1) as usize,
                    progress: if self.inserted + 1 == self.total {
                        Progress::Committing
                    } else {
                        Progress::Inserting
                    },
                    ..self
                }
            },
            (Progress::Inserting, FlushEvent::InsertFailed) => {
                Flush {
                    progress: match self.on_insert_failure {
                        InsertFailure::Abandon => Progress::Failed,
                        InsertFailure::CommitPrefix => Progress::Committing,
                    },
                    ..self
                }
            },
            (Progress::Committing, FlushEvent::Committed) => {
                Flush { progress: Progress::Committed, ..self }
            },
            (Progress::Committing, FlushEvent::CommitFailed) => {
                Flush { progress: Progress::Failed, ..self }
            },
            _ => self,
        }
    }

    /// Takes up what came of the step that was due.
    pub fn advance(&mut self, event: FlushEvent)
        requires
            old(self).wf(),
        ensures
            *final(self) == old(self).after(event),
            final(self).wf(),
    {
        match (self.progress, event) {
            (Progress::Starting, FlushEvent::Unavailable) => {
                self.progress = Progress::Idle;
            },
            (Progress::Starting, FlushEvent::Began) => {
                self.progress = Progress::Inserting;
            },
            (Progress::Starting, FlushEvent::BeginFailed) => {
                self.progress = Progress::Refused;
            },
            (Progress::Inserting, FlushEvent::Inserted) => {
                self.inserted = self.inserted + 1;
                if self.inserted == self.total {
                    self.progress = Progress::Committing;
                }
            },
            (Progress::Inserting, FlushEvent::InsertFailed) => {
                match self.on_insert_failure {
                    InsertFailure::Abandon => {
                        self.progress = Progress::Failed;
                    },
                    InsertFailure::CommitPrefix => {
                        self.progress = Progress::Committing;
                    },
                }
            },
            (Progress::Committing, FlushEvent::Committed) => {
                self.progress = Progress::Committed;
            },
            (Progress::Committing, FlushEvent::CommitFailed) => {
                self.progress = Progress::Failed;
            },
            _ => {},
        }
    }

    /// Whether a buffer keeps its records after this flush.
    pub open spec fn kept_by(self, retention: Retention) -> bool {
        match retention {
            Retention::UntilCommitted => self.progress != Progress::Committed,
            Retention::UntilBegun => {
                ||| self.progress == Progress::Idle
                ||| self.progress == Progress::Starting
                ||| self.progress == Progress::Refused
            },
            Retention::UntilCommittedOrRefused => {
                self.progress != Progress::Committed && self.progress != Progress::Refused
            },
        }
    }

    /// Whether a buffer keeps its records after this flush.
    pub fn keeps(&self, retention: Retention) -> (kept: bool)
        ensures
            kept == self.kept_by(retention),
    {
        match retention {
            Retention::UntilCommitted => self.progress != Progress::Committed,
            Retention::UntilBegun => {
                self.progress == Progress::Idle || self.progress == Progress::Starting
                    || self.progress == Progress::Refused
            },
            Retention::UntilCommittedOrRefused => {
                self.progress != Progress::Committed && self.progress != Progress::Refused
            },
        }
    }

    /// The records of `buffer` that the database holds after this flush: those that were inserted,
    /// if the transaction was committed.
    pub open spec fn written<R>(self, buffer: Seq<R>) -> Seq<R> {
        if self.progress == Progress::Committed {
            buffer.take(self.inserted as int)
        } else {
            Seq::empty()
        }
    }

    /// The records that `buffer` holds after this flush.
    pub open spec fn left<R>(self, buffer: Seq<R>, retention: Retention) -> Seq<R> {
        if self.kept_by(retention) {
            buffer
        } else {
            Seq::empty()
        }
    }

    /// The flush after all of `events` were reported, one after the other.
    pub open spec fn after_all(self, events: Seq<FlushEvent>) -> Flush
        decreases events.len(),
    {
        if events.len() == 0 {
            self
        } else {
            self.after(events.first()).after_all(events.drop_first())
        }
    }
}

/// How a buffer is flushed.
#[derive(Debug, Clone, Copy, PartialEq, Eq, Structural)]
pub struct Policy {
    /// Number of records from which on the buffer is flushed whenever one is logged.
    pub batch: usize,
    pub on_insert_failure: InsertFailure,
    pub retention: Retention,
}

impl Policy {
    /// The flush of a buffer that holds `total` records after one was logged: begun where they make
    /// a batch, and postponed otherwise.
    pub open spec fn flush_of(self, total: usize) -> Flush {
        if total >= self.batch {
            Flush::begun(total, self.on_insert_failure)
        } else {
            Flush::postponed(total, self.on_insert_failure)
        }
    }

    /// Flushes a buffer that holds `total` records after one was logged, if they make a batch.
    pub fn flush_logged(&self, total: usize) -> (flush: Flush)
        ensures
            flush == self.flush_of(total),
            flush.wf(),
    {
        if total >= self.batch {
            Flush::begin(total, self.on_insert_failure)
        } else {
            Flush::postpone(total, self.on_insert_failure)
        }
    }
}

/// Settles a buffer after a flush.
pub fn settle<R>(buffer: &mut Vec<R>, flush: &Flush, retention: Retention)
    ensures
        final(buffer)@ == flush.left(old(buffer)@, retention),
{
    if !flush.keeps(retention) {
        buffer.clear();
    }
}

} // verus!
