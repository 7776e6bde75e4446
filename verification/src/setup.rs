//! Preparing a database, statement by statement.
use vstd::prelude::*;

verus! {

/// A statement that prepares the database.
#[derive(Debug, Clone, Copy, PartialEq, Eq)]
pub struct Statement {
    pub sql: &'static str,
    /// Whether the database is of no use if the statement fails.
    pub required: bool,
}

/// How far the preparation got.
#[verifier::ext_equal]
pub struct SetupState {
    /// Number of statements that were executed and did not end the preparation.
    pub done: nat,
    /// Whether a required statement failed.
    pub failed: bool,
}

impl SetupState {
    /// The state after the statement that is due was executed. Nothing is due once a required
    /// statement has failed or all were executed.
    pub open spec fn after(self, required: Seq<bool>, succeeded: bool) -> SetupState {
        if self.failed || self.done >= required.len() {
            self
        } else if succeeded || !required[self.done as int] {
            SetupState { done: self.done + 1, failed: false }
        } else {
            SetupState { done: self.done, failed: true }
        }
    }

    /// The state after the statements ended as `outcomes` says, one after the other.
    pub open spec fn after_all(self, required: Seq<bool>, outcomes: Seq<bool>) -> SetupState
        decreases outcomes.len(),
    {
        if outcomes.len() == 0 {
            self
        } else {
            self.after_all(required, outcomes.drop_last()).after(required, outcomes.last())
        }
    }
}

/// Which of the statements are required.
pub open spec fn required_of(statements: Seq<Statement>) -> Seq<bool> {
    Seq::new(statements.len(), |i: int| statements[i].required)
}

/// The preparation of a database.
pub struct Setup {
    pub statements: Vec<Statement>,
    pub done: usize,
    pub failed: bool,
}

impl Setup {
    /// Whether no more statements were executed than there are.
    pub open spec fn wf(self) -> bool {
        self.done <= self.statements@.len()
    }

    /// How far the preparation got.
    pub open spec fn state(self) -> SetupState {
        SetupState { done: self.done as nat, failed: self.failed }
    }

    /// Starts with the first of `statements`.
    pub fn new(statements: Vec<Statement>) -> (setup: Setup)
        ensures
            setup.wf(),
            setup.statements@ == statements@,
            setup.state() == (SetupState { done: 0, failed: false }),
    {
        Setup { statements, done: 0, failed: false }
    }

    /// The statement to execute next, if any.
    pub fn statement(&self) -> (statement: Option<Statement>)
        requires
            self.wf(),
        ensures
            statement == if self.failed || self.done == self.statements@.len() {
                None
            } else {
                Some(self.statements@[self.done as int])
            },
    {
        if self.failed || self.done == self.statements.len() {
            None
        } else {
            Some(self.statements[self.done])
        }
    }

    /// Takes up whether the statement succeeded.
    pub fn advance(&mut self, succeeded: bool)
        requires
            old(self).wf(),
        ensures
            final(self).wf(),
            final(self).statements@ == old(self).statements@,
            final(self).state() == old(self).state().after(
                required_of(old(self).statements@),
                succeeded,
            ),
    {
        if !self.failed && self.done < self.statements.len() {
            if succeeded || !self.statements[self.done].required {
                self.done = self.done + 1;
            } else {
                self.failed = true;
            }
        }
    }

    /// Whether the database is prepared: all statements were executed, none of the required ones
    /// failed.
    pub fn prepared(&self) -> (prepared: bool)
        ensures
            prepared == (!self.failed && self.done == self.statements@.len()),
    {
        !self.failed && self.done == self.statements.len()
    }
}

/// The preparation succeeds if and only if all required statements do; the others do not matter.
/// Once a required statement has failed, no further one is due.
pub proof fn required_statements_decide(required: Seq<bool>, outcomes: Seq<bool>)
    requires
        outcomes.len() <= required.len(),
    ensures
        ({
            let start = SetupState { done: 0, failed: false };
            let end = start.after_all(required, outcomes);
            &&& end.failed <==> exists|i: int|
                0 <= i < outcomes.len() && #[trigger] required[i] && !outcomes[i]
            &&& !end.failed ==> end.done == outcomes.len()
            &&& end.failed ==> end.done < outcomes.len() && required[end.done as int]
                && !outcomes[end.done as int] && forall|i: int|
                0 <= i < end.done ==> #[trigger] required[i] ==> outcomes[i]
        }),
    decreases outcomes.len(),
{
    if outcomes.len() > 0 {
        let prefix = outcomes.drop_last();
        required_statements_decide(required, prefix);
        let start = SetupState { done: 0, failed: false };
        let before = start.after_all(required, prefix);
        let end = start.after_all(required, outcomes);
        assert(forall|i: int| 0 <= i < prefix.len() ==> prefix[i] == outcomes[i]);
        if before.failed {
            let i = choose|i: int| 0 <= i < prefix.len() && #[trigger] required[i] && !prefix[i];
            assert(required[i] && !outcomes[i]);
        } else if end.failed {
            assert(required[outcomes.len() - 1]);
        } else {
            assert forall|i: int|
                0 <= i < outcomes.len() && #[trigger] required[i] implies outcomes[i] by {
                if i < prefix.len() {
                    assert(prefix[i] == outcomes[i]);
                }
            }
        }
    }
}

/// The state of a preparation shows its fields.
pub proof fn state_shows_the_fields(setup: Setup)
    ensures
        setup.state().done == setup.done,
        setup.state().failed == setup.failed,
{
}

/// Each executed statement either brings the preparation one statement further or, if it is
/// required and failed, ends it. Once it has ended, or all statements were executed, nothing
/// changes any more.
pub proof fn statements_are_counted(state: SetupState, required: Seq<bool>, succeeded: bool)
    ensures
        ({
            let next = state.after(required, succeeded);
            let due = !state.failed && state.done < required.len();
            let ends = required[state.done as int] && !succeeded;
            &&& !due ==> next == state
            &&& due ==> next.failed == ends && next.done == state.done + if ends {
                0int
            } else {
                1
            }
        }),
{
}

} // verus!
