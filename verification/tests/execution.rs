use runtime_fuzzing::blocks::{MultiBlockCalls, NonEmpty};
use runtime_fuzzing::calls::{ArbitraryRuntimeCall, CallOrigin, RuntimeCall, VestingCall};
use runtime_fuzzing::execution::{Run, RunAction, RunEvent};

fn call() -> ArbitraryRuntimeCall {
    ArbitraryRuntimeCall {
        call: RuntimeCall::Vesting(VestingCall::Vest),
        origin: CallOrigin::Signed(0),
    }
}

#[test]
fn run_visits_every_call_once() {
    let blocks =
        MultiBlockCalls(vec![NonEmpty(vec![call(), call()]), NonEmpty(vec![call()])]);
    let mut run = Run::new(&blocks);
    let mut done = Vec::new();
    loop {
        let action = run.action(&blocks);
        done.push(action);
        let event = match action {
            RunAction::Finished => break,
            RunAction::Finalize { number } => RunEvent::Finalized([number as u8; 32]),
            _ => RunEvent::Performed,
        };
        run.advance(&blocks, event);
    }
    assert_eq!(
        done,
        vec![
            RunAction::Initialize { number: 1, parent_hash: [0; 32] },
            RunAction::Dispatch { block: 0, call: 0 },
            RunAction::Dispatch { block: 0, call: 1 },
            RunAction::Finalize { number: 1 },
            RunAction::CheckState { number: 1 },
            RunAction::Initialize { number: 2, parent_hash: [1; 32] },
            RunAction::Dispatch { block: 1, call: 0 },
            RunAction::Finalize { number: 2 },
            RunAction::CheckState { number: 2 },
            RunAction::Finished,
        ]
    );
}

#[test]
fn wrong_answers_change_nothing() {
    let blocks = MultiBlockCalls(vec![NonEmpty(vec![call()])]);
    let mut run = Run::new(&blocks);
    run.advance(&blocks, RunEvent::Finalized([3; 32]));
    assert_eq!(run, Run::new(&blocks));
}
