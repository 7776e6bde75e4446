//! Executing the blocks of an input, one call after the other.
//!
//! A [`Run`] says what is to be done next with the runtime; whoever owns the runtime does it and
//! reports back.
use crate::accounts::BlockNumber;
use crate::blocks::{all_filled, MultiBlockCalls};
use crate::calls::ArbitraryRuntimeCall;
use crate::chain::{zero_hash, zero_hash_view, BlockHash};
use vstd::prelude::*;

verus! {

/// What is to be done next.
#[derive(Debug, Clone, Copy, PartialEq, Eq)]
pub enum RunAction {
    /// Start the block of this number on top of the block of this hash.
    Initialize { number: BlockNumber, parent_hash: BlockHash },
    /// Dispatch a call, given by the positions of its block and within its block.
    Dispatch { block: usize, call: usize },
    /// Finalize the block of this number.
    Finalize { number: BlockNumber },
    /// Check the state of all pallets at the block of this number.
    CheckState { number: BlockNumber },
    /// Nothing.
    Finished,
}

/// What was done.
#[derive(Debug, Clone, Copy, PartialEq, Eq)]
pub enum RunEvent {
    /// A block was started, a call dispatched (whatever its outcome) or the state found sound.
    Performed,
    /// A block was finalized; this is its hash.
    Finalized(BlockHash),
}

/// How far a block is.
#[derive(Debug, Clone, Copy, PartialEq, Eq, Structural)]
pub enum Stage {
    Initialize,
    Dispatch,
    Finalize,
    CheckState,
    Finished,
}

/// The position in an input that is being executed.
#[derive(Debug, Clone, Copy, PartialEq, Eq)]
pub struct Run {
    pub block: usize,
    pub call: usize,
    pub stage: Stage,
    /// BlockHash of the last block that was finalized; zeros before the first.
    pub parent_hash: BlockHash,
}

/// The number of the block at position `block`. Blocks are numbered from one on, in 32 bits.
pub open spec fn number_of(block: int) -> BlockNumber {
    ((block + 1) % 0x1_0000_0000) as BlockNumber
}

fn block_number(block: usize) -> (number: BlockNumber)
    requires
        block < usize::MAX,
    ensures
        number == number_of(block as int),
{
    let next: u64 = block as u64 + 1;
    assert(next as u32 == next % 0x1_0000_0000) by (bit_vector);
    #[verifier::truncate]
    (next as u32)
}

impl Run {
    /// The run before anything was done.
    pub open spec fn start() -> Run {
        Run { block: 0, call: 0, stage: Stage::Initialize, parent_hash: zero_hash_view() }
    }

    /// Whether the position lies within the input.
    pub open spec fn wf(self, blocks: Seq<Seq<ArbitraryRuntimeCall>>) -> bool {
        &&& self.stage != Stage::Finished ==> self.block < blocks.len()
        &&& self.stage == Stage::Dispatch ==> self.call < blocks[self.block as int].len()
    }

    /// Starts with the first block.
    pub fn new(blocks: &MultiBlockCalls) -> (run: Run)
        requires
            blocks.wf(),
        ensures
            run == Run::start(),
            run.wf(blocks@),
    {
        Run { block: 0, call: 0, stage: Stage::Initialize, parent_hash: zero_hash() }
    }

    /// What is to be done next.
    pub open spec fn due(self) -> RunAction {
        match self.stage {
            Stage::Initialize => RunAction::Initialize {
                number: number_of(self.block as int),
                parent_hash: self.parent_hash,
            },
            Stage::Dispatch => RunAction::Dispatch { block: self.block, call: self.call },
            Stage::Finalize => RunAction::Finalize { number: number_of(self.block as int) },
            Stage::CheckState => RunAction::CheckState { number: number_of(self.block as int) },
            Stage::Finished => RunAction::Finished,
        }
    }

    /// What is to be done next.
    pub fn action(&self, blocks: &MultiBlockCalls) -> (action: RunAction)
        requires
            self.wf(blocks@),
        ensures
            action == self.due(),
            action matches RunAction::Dispatch { block, call } ==> block < blocks@.len() && call
                < blocks@[block as int].len(),
    {
        assert(blocks@.len() == blocks.0@.len());
        match self.stage {
            Stage::Initialize => {
                assert(self.block < blocks.0.len());
                RunAction::Initialize {
                    number: block_number(self.block),
                    parent_hash: self.parent_hash,
                }
            },
            Stage::Dispatch => RunAction::Dispatch { block: self.block, call: self.call },
            Stage::Finalize => {
                assert(self.block < blocks.0.len());
                RunAction::Finalize { number: block_number(self.block) }
            },
            Stage::CheckState => {
                assert(self.block < blocks.0.len());
                RunAction::CheckState { number: block_number(self.block) }
            },
            Stage::Finished => RunAction::Finished,
        }
    }

    /// The run after `event` was reported. An event that does not answer what was to be done
    /// changes nothing.
    pub open spec fn after(self, blocks: Seq<Seq<ArbitraryRuntimeCall>>, event: RunEvent) -> Run {
        match (self.stage, event) {
            (Stage::Initialize, RunEvent::Performed) => {
                Run { call: 0, stage: Stage::Dispatch, ..self }
            },
            (Stage::Dispatch, RunEvent::Performed) => {
                if self.call + 1 < blocks[self.block as int].len() {
                    Run { call: (self.call + 1) as usize, ..self }
                } else {
                    Run { stage: Stage::Finalize, ..self }
                }
            },
            (Stage::Finalize, RunEvent::Finalized(hash)) => {
                Run { stage: Stage::CheckState, parent_hash: hash, ..self }
            },
            (Stage::CheckState, RunEvent::Performed) => {
                if self.block + 1 < blocks.len() {
                    Run { block: (self.block + 1) as usize, stage: Stage::Initialize, ..self }
                } else {
                    Run { stage: Stage::Finished, ..self }
                }
            },
            _ => self,
        }
    }

    /// Takes up what was done.
    pub fn advance(&mut self, blocks: &MultiBlockCalls, event: RunEvent)
        requires
            blocks.wf(),
            old(self).wf(blocks@),
        ensures
            *final(self) == old(self).after(blocks@, event),
            final(self).wf(blocks@),
    {
        assert(blocks@.len() == blocks.0@.len());
        match (self.stage, event) {
            (Stage::Initialize, RunEvent::Performed) => {
                assert(blocks@[self.block as int].len() > 0);
                self.call = 0;
                self.stage = Stage::Dispatch;
            },
            (Stage::Dispatch, RunEvent::Performed) => {
                assert(blocks@[self.block as int] == blocks.0@[self.block as int].0@);
                let calls: &Vec<ArbitraryRuntimeCall> = &blocks.0[self.block].0;
                assert(calls@ == blocks@[self.block as int]);
                if self.call < calls.len() - 1 {
                    self.call = self.call + 1;
                } else {
                    self.stage = Stage::Finalize;
                }
            },
            (Stage::Finalize, RunEvent::Finalized(hash)) => {
                self.stage = Stage::CheckState;
                self.parent_hash = hash;
            },
            (Stage::CheckState, RunEvent::Performed) => {
                if self.block < blocks.0.len() - 1 {
                    self.block = self.block + 1;
                    self.stage = Stage::Initialize;
                } else {
                    self.stage = Stage::Finished;
                }
            },
            _ => {},
        }
    }

    /// The answer to what is to be done next, where the blocks get the given hashes.
    pub open spec fn answer(self, hashes: Seq<BlockHash>) -> RunEvent {
        if self.stage == Stage::Finalize {
            RunEvent::Finalized(hashes[self.block as int])
        } else {
            RunEvent::Performed
        }
    }

    /// The number of actions that are still due for the current block.
    pub open spec fn steps_left(self, blocks: Seq<Seq<ArbitraryRuntimeCall>>) -> int {
        match self.stage {
            Stage::Initialize => (blocks[self.block as int].len() + 3) as int,
            Stage::Dispatch => blocks[self.block as int].len() - self.call + 2,
            Stage::Finalize => 2,
            Stage::CheckState => 1,
            Stage::Finished => 0,
        }
    }
}

/// Whether the input is filled and its positions can be counted.
pub open spec fn executable(blocks: Seq<Seq<ArbitraryRuntimeCall>>) -> bool {
    &&& all_filled(blocks)
    &&& blocks.len() <= usize::MAX
    &&& forall|i: int| 0 <= i < blocks.len() ==> #[trigger] blocks[i].len() <= usize::MAX
}

/// All that is done from `run` on, in order, where the blocks get the given hashes.
pub open spec fn actions(
    run: Run,
    blocks: Seq<Seq<ArbitraryRuntimeCall>>,
    hashes: Seq<BlockHash>,
) -> Seq<RunAction>
    decreases blocks.len() - run.block, run.steps_left(blocks),
    when run.wf(blocks) && executable(blocks)
{
    if run.stage == Stage::Finished {
        Seq::empty()
    } else {
        seq![run.due()] + actions(run.after(blocks, run.answer(hashes)), blocks, hashes)
    }
}

/// What is to be done for the block at position `block`: start it on top of the block before it,
/// dispatch its calls in order, finalize it and check the state.
pub open spec fn block_plan(
    blocks: Seq<Seq<ArbitraryRuntimeCall>>,
    hashes: Seq<BlockHash>,
    block: int,
) -> Seq<RunAction> {
    let number = number_of(block);
    let parent_hash = if block == 0 {
        zero_hash_view()
    } else {
        hashes[block - 1]
    };
    seq![RunAction::Initialize { number, parent_hash }] + Seq::new(
        blocks[block].len(),
        |call: int| RunAction::Dispatch { block: block as usize, call: call as usize },
    ) + seq![RunAction::Finalize { number }, RunAction::CheckState { number }]
}

/// What is to be done for the blocks from position `block` on.
pub open spec fn plan(
    blocks: Seq<Seq<ArbitraryRuntimeCall>>,
    hashes: Seq<BlockHash>,
    block: int,
) -> Seq<RunAction>
    decreases blocks.len() - block,
{
    if 0 <= block < blocks.len() {
        block_plan(blocks, hashes, block) + plan(blocks, hashes, block + 1)
    } else {
        Seq::empty()
    }
}

proof fn dispatches_the_rest(
    run: Run,
    blocks: Seq<Seq<ArbitraryRuntimeCall>>,
    hashes: Seq<BlockHash>,
)
    requires
        run.wf(blocks),
        executable(blocks),
        run.stage == Stage::Dispatch,
    ensures
        actions(run, blocks, hashes) == Seq::new(
            (blocks[run.block as int].len() - run.call) as nat,
            |k: int| RunAction::Dispatch { block: run.block, call: (run.call + k) as usize },
        ) + actions(
            Run {
                stage: Stage::Finalize,
                call: (blocks[run.block as int].len() - 1) as usize,
                ..run
            },
            blocks,
            hashes,
        ),
    decreases blocks[run.block as int].len() - run.call,
{
    let n = blocks[run.block as int].len();
    let next = run.after(blocks, run.answer(hashes));
    let last = Run { stage: Stage::Finalize, call: (n - 1) as usize, ..run };
    let rest = Seq::new(
        (n - run.call) as nat,
        |k: int| RunAction::Dispatch { block: run.block, call: (run.call + k) as usize },
    );
    if run.call + 1 < n {
        dispatches_the_rest(next, blocks, hashes);
        let shorter = Seq::new(
            (n - next.call) as nat,
            |k: int| RunAction::Dispatch { block: next.block, call: (next.call + k) as usize },
        );
        assert(rest =~= seq![run.due()] + shorter);
        assert(actions(run, blocks, hashes) =~= rest + actions(last, blocks, hashes));
    } else {
        assert(next == last);
        assert(rest =~= seq![run.due()]);
    }
}

proof fn runs_a_block(
    run: Run,
    blocks: Seq<Seq<ArbitraryRuntimeCall>>,
    hashes: Seq<BlockHash>,
)
    requires
        run.wf(blocks),
        executable(blocks),
        run.stage == Stage::Initialize,
        run.parent_hash == if run.block == 0 {
            zero_hash_view()
        } else {
            hashes[run.block - 1]
        },
    ensures
        actions(run, blocks, hashes) == plan(blocks, hashes, run.block as int),
    decreases blocks.len() - run.block,
{
    let b = run.block as int;
    let n = blocks[b].len();
    let first = run.after(blocks, run.answer(hashes));
    assert(first.stage == Stage::Dispatch && first.call == 0);
    dispatches_the_rest(first, blocks, hashes);
    let finalize = Run { stage: Stage::Finalize, call: (n - 1) as usize, ..first };
    let check = finalize.after(blocks, finalize.answer(hashes));
    let next = check.after(blocks, check.answer(hashes));
    assert(actions(finalize, blocks, hashes) == seq![finalize.due()] + actions(
        check,
        blocks,
        hashes,
    ));
    assert(actions(check, blocks, hashes) == seq![check.due()] + actions(next, blocks, hashes));
    if b + 1 < blocks.len() {
        runs_a_block(next, blocks, hashes);
    } else {
        assert(actions(next, blocks, hashes) == Seq::<RunAction>::empty());
        assert(plan(blocks, hashes, b + 1) == Seq::<RunAction>::empty());
    }
    let calls = Seq::new(
        n,
        |call: int| RunAction::Dispatch { block: b as usize, call: call as usize },
    );
    assert(calls =~= Seq::new(
        (n - first.call) as nat,
        |k: int| RunAction::Dispatch { block: first.block, call: (first.call + k) as usize },
    ));
    assert(actions(next, blocks, hashes) == plan(blocks, hashes, b + 1));
    assert(actions(run, blocks, hashes) =~= block_plan(blocks, hashes, b) + plan(
        blocks,
        hashes,
        b + 1,
    ));
}

/// A run starts every block of the input on top of the one before it, dispatches each of its calls
/// exactly once and in order, finalizes it and checks the state, and does nothing else.
pub proof fn run_follows_the_plan(blocks: Seq<Seq<ArbitraryRuntimeCall>>, hashes: Seq<BlockHash>)
    requires
        executable(blocks),
        hashes.len() == blocks.len(),
    ensures
        actions(Run::start(), blocks, hashes) == plan(blocks, hashes, 0),
{
    runs_a_block(Run::start(), blocks, hashes);
}

/// The block at position `block` has the number `block + 1`, as far as 32 bits reach; behind that
/// the numbers start again from zero. Starting, finalizing and checking a block all name its
/// number.
pub proof fn blocks_are_numbered_from_one(run: Run)
    ensures
        match run.due() {
            RunAction::Initialize { number, .. } => (number - (run.block + 1)) % 0x1_0000_0000 == 0,
            RunAction::Finalize { number } => (number - (run.block + 1)) % 0x1_0000_0000 == 0,
            RunAction::CheckState { number } => (number - (run.block + 1)) % 0x1_0000_0000 == 0,
            RunAction::Dispatch { block, .. } => block == run.block,
            RunAction::Finished => true,
        },
        run.block < 0xffff_ffff ==> match run.due() {
            RunAction::Initialize { number, .. } => number == run.block + 1,
            RunAction::Finalize { number } => number == run.block + 1,
            RunAction::CheckState { number } => number == run.block + 1,
            _ => true,
        },
{
}

/// Whether `next` is what is to be done right after `action`, where `None` stands for the end of
/// the run: the first call of a block follows its start, each call the one before it, the end of
/// the block its last call, the check of the state the end of the block, and the start of the next
/// block, on top of this one, the check.
pub open spec fn comes_next(
    action: RunAction,
    next: Option<RunAction>,
    blocks: Seq<Seq<ArbitraryRuntimeCall>>,
    hashes: Seq<BlockHash>,
) -> bool {
    match action {
        RunAction::Initialize { number, .. } => next matches Some(RunAction::Dispatch {
            block,
            call,
        }) && block + 1 == number && call == 0,
        RunAction::Dispatch { block, call } => if call + 1 < blocks[block as int].len() {
            next matches Some(RunAction::Dispatch { block: same, call: following }) && same == block
                && following == call + 1
        } else {
            next matches Some(RunAction::Finalize { number }) && number == block + 1
        },
        RunAction::Finalize { number } => next matches Some(RunAction::CheckState { number: same })
            && same == number,
        RunAction::CheckState { number } => if number < blocks.len() {
            next matches Some(RunAction::Initialize { number: following, parent_hash })
                && following == number + 1 && parent_hash == hashes[number - 1]
        } else {
            next is None
        },
        RunAction::Finished => false,
    }
}

proof fn each_step_comes_next(
    run: Run,
    blocks: Seq<Seq<ArbitraryRuntimeCall>>,
    hashes: Seq<BlockHash>,
    k: int,
)
    requires
        run.wf(blocks),
        executable(blocks),
        blocks.len() <= 0xffff_ffff,
        run.stage == Stage::CheckState ==> run.parent_hash == hashes[run.block as int],
        0 <= k < actions(run, blocks, hashes).len(),
    ensures
        ({
            let trace = actions(run, blocks, hashes);
            comes_next(
                trace[k],
                if k + 1 < trace.len() {
                    Some(trace[k + 1])
                } else {
                    None
                },
                blocks,
                hashes,
            )
        }),
    decreases k,
{
    let next = run.after(blocks, run.answer(hashes));
    let rest = actions(next, blocks, hashes);
    let trace = actions(run, blocks, hashes);
    assert(run.stage != Stage::Finished);
    assert(trace == seq![run.due()] + rest);
    if k > 0 {
        each_step_comes_next(next, blocks, hashes, k - 1);
        assert(trace[k] == rest[k - 1]);
        if k + 1 < trace.len() {
            assert(trace[k + 1] == rest[k]);
        }
    } else if next.stage == Stage::Finished {
        assert(rest.len() == 0);
    } else {
        assert(rest == seq![next.due()] + actions(
            next.after(blocks, next.answer(hashes)),
            blocks,
            hashes,
        ));
        assert(trace[1] == next.due());
    }
}

/// The whole run in terms of its steps: it starts block one on top of the hash of zeros, and each
/// step is followed by the one that comes next, up to the check of the last block.
pub proof fn run_goes_from_step_to_step(
    blocks: Seq<Seq<ArbitraryRuntimeCall>>,
    hashes: Seq<BlockHash>,
)
    requires
        executable(blocks),
        blocks.len() <= 0xffff_ffff,
        hashes.len() == blocks.len(),
    ensures
        ({
            let trace = actions(Run::start(), blocks, hashes);
            &&& trace.len() > 0
            &&& trace[0] matches RunAction::Initialize { number, parent_hash } && number == 1
                && forall|i: int| 0 <= i < 32 ==> #[trigger] parent_hash@[i] == 0
            &&& forall|k: int|
                0 <= k < trace.len() ==> comes_next(
                    #[trigger] trace[k],
                    if k + 1 < trace.len() {
                        Some(trace[k + 1])
                    } else {
                        None
                    },
                    blocks,
                    hashes,
                )
        }),
{
    let start = Run::start();
    let trace = actions(start, blocks, hashes);
    assert(trace == seq![start.due()] + actions(
        start.after(blocks, start.answer(hashes)),
        blocks,
        hashes,
    ));
    assert forall|k: int| 0 <= k < trace.len() implies comes_next(
        #[trigger] trace[k],
        if k + 1 < trace.len() {
            Some(trace[k + 1])
        } else {
            None
        },
        blocks,
        hashes,
    ) by {
        each_step_comes_next(start, blocks, hashes, k);
    }
}

/// Each call of the input is dispatched in the run, once.
pub proof fn every_call_is_dispatched_once(
    blocks: Seq<Seq<ArbitraryRuntimeCall>>,
    hashes: Seq<BlockHash>,
    block: usize,
    call: usize,
)
    requires
        executable(blocks),
        hashes.len() == blocks.len(),
        block < blocks.len(),
        call < blocks[block as int].len(),
    ensures
        ({
            let trace = actions(Run::start(), blocks, hashes);
            let dispatch = RunAction::Dispatch { block, call };
            exists|k: int|
                {
                    &&& 0 <= k < trace.len()
                    &&& #[trigger] trace[k] == dispatch
                    &&& forall|j: int|
                        0 <= j < trace.len() && #[trigger] trace[j] == dispatch ==> j == k
                }
        }),
{
    run_follows_the_plan(blocks, hashes);
    dispatched_in_plan(blocks, hashes, 0, block, call);
}

proof fn dispatched_in_plan(
    blocks: Seq<Seq<ArbitraryRuntimeCall>>,
    hashes: Seq<BlockHash>,
    from: int,
    block: usize,
    call: usize,
)
    requires
        executable(blocks),
        0 <= from <= blocks.len(),
        block < blocks.len(),
        call < blocks[block as int].len(),
    ensures
        ({
            let trace = plan(blocks, hashes, from);
            let dispatch = RunAction::Dispatch { block, call };
            if from <= block {
                exists|k: int|
                    {
                        &&& 0 <= k < trace.len()
                        &&& #[trigger] trace[k] == dispatch
                        &&& forall|j: int|
                            0 <= j < trace.len() && #[trigger] trace[j] == dispatch ==> j == k
                    }
            } else {
                forall|j: int| 0 <= j < trace.len() ==> #[trigger] trace[j] != dispatch
            }
        }),
    decreases blocks.len() - from,
{
    if from < blocks.len() {
        let head = block_plan(blocks, hashes, from);
        let tail = plan(blocks, hashes, from + 1);
        let trace = plan(blocks, hashes, from);
        let dispatch = RunAction::Dispatch { block, call };
        dispatched_in_plan(blocks, hashes, from + 1, block, call);
        assert(head.len() == blocks[from].len() + 3);
        assert forall|j: int| 0 <= j < trace.len() implies (#[trigger] trace[j]) == (if j
            < head.len() {
            head[j]
        } else {
            tail[j - head.len()]
        }) by {}
        assert forall|j: int| 0 <= j < head.len() implies ((#[trigger] head[j]) == dispatch <==> (
        from == block && j == call + 1)) by {}
        if from == block {
            assert(trace[call + 1] == dispatch);
        } else if from < block {
            let k = choose|k: int|
                {
                    &&& 0 <= k < tail.len()
                    &&& #[trigger] tail[k] == dispatch
                    &&& forall|j: int|
                        0 <= j < tail.len() && #[trigger] tail[j] == dispatch ==> j == k
                };
            assert(trace[k + head.len()] == dispatch);
        }
    }
}

/// A run moves only when it is told what it waits for: the hash of the block that it finalizes, and
/// for every other step that it was performed. Otherwise it stays where it is, and a finished run
/// stays finished.
pub proof fn run_waits_for_its_answer(
    run: Run,
    blocks: Seq<Seq<ArbitraryRuntimeCall>>,
    hash: BlockHash,
)
    ensures
        run.due() is Finalize ==> run.after(blocks, RunEvent::Performed) == run,
        !(run.due() is Finalize) ==> run.after(blocks, RunEvent::Finalized(hash)) == run,
        run.due() is Finished ==> run.after(blocks, RunEvent::Performed) == run,
        run.due() is Finalize ==> run.after(blocks, RunEvent::Finalized(hash)).parent_hash == hash,
        !(run.due() is Finalize) ==> run.after(blocks, RunEvent::Performed).parent_hash
            == run.parent_hash,
{
}

} // verus!
