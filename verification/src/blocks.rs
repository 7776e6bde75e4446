//! Inputs of several blocks, each with at least one call.
use crate::accounts::Balance;
use crate::calls::{
    generated_calls_are_in_range, is_in_range, representable, ArbitraryRuntimeCall,
};
use crate::input::{
    any_bool, flag, flag_is_the_parity_of_a_byte, from_position, is_suffix, pick, reader, remaining,
    suffixes_chain, InputError,
};
use crate::selection::{
    arbitrary_call, arbitrary_call_leaves_a_suffix, call_specs_view, chosen, every_call_can_be_read,
};
use arbitrary::Unstructured;
use vstd::prelude::*;

verus! {

/// A sequence that is never empty.
#[derive(Debug)]
pub struct NonEmpty<T>(pub Vec<T>);

impl<T> NonEmpty<T> {
    /// Whether there is an item.
    pub open spec fn wf(self) -> bool {
        self.0@.len() > 0
    }
}

/// The calls of several blocks.
#[derive(Debug)]
pub struct MultiBlockCalls(pub Vec<NonEmpty<ArbitraryRuntimeCall>>);

impl View for MultiBlockCalls {
    type V = Seq<Seq<ArbitraryRuntimeCall>>;

    open spec fn view(&self) -> Seq<Seq<ArbitraryRuntimeCall>> {
        blocks_view(self.0@)
    }
}

/// The calls of each block.
pub open spec fn blocks_view(blocks: Seq<NonEmpty<ArbitraryRuntimeCall>>) -> Seq<
    Seq<ArbitraryRuntimeCall>,
> {
    blocks.map_values(|block: NonEmpty<ArbitraryRuntimeCall>| block.0@)
}

/// Whether there is a block, and a call in each block.
pub open spec fn all_filled(blocks: Seq<Seq<ArbitraryRuntimeCall>>) -> bool {
    blocks.len() > 0 && forall|i: int| 0 <= i < blocks.len() ==> #[trigger] blocks[i].len() > 0
}

impl MultiBlockCalls {
    /// Whether there is a block, and a call in each block.
    pub open spec fn wf(self) -> bool {
        all_filled(self@)
    }
}

/// A list of calls read from `data`, and the data left after that: a flag before each call says
/// that it follows, and a flag at the end that none does.
pub open spec fn call_list(data: Seq<u8>, dollars: Balance) -> (
    Seq<ArbitraryRuntimeCall>,
    Seq<u8>,
)
    decreases data.len(),
{
    let (more, rest1) = flag(data);
    if more {
        let (call, rest2) = arbitrary_call(rest1, dollars);
        proof {
            arbitrary_call_leaves_a_suffix(rest1, dollars);
        }
        let (calls, rest3) = call_list(rest2, dollars);
        (seq![call] + calls, rest3)
    } else {
        (Seq::empty(), rest1)
    }
}

/// The calls of a block read from `data`, and the data left after that. Where the list is empty,
/// one more call is read.
pub open spec fn block_calls(data: Seq<u8>, dollars: Balance) -> (
    Seq<ArbitraryRuntimeCall>,
    Seq<u8>,
) {
    let (calls, rest1) = call_list(data, dollars);
    if calls.len() == 0 {
        let (call, rest2) = arbitrary_call(rest1, dollars);
        (seq![call], rest2)
    } else {
        (calls, rest1)
    }
}

proof fn call_list_leaves_a_suffix(data: Seq<u8>, dollars: Balance)
    ensures
        is_suffix(call_list(data, dollars).1, data),
    decreases data.len(),
{
    let (more, rest1) = flag(data);
    if more {
        let (call, rest2) = arbitrary_call(rest1, dollars);
        arbitrary_call_leaves_a_suffix(rest1, dollars);
        suffixes_chain(rest2, rest1, data);
        call_list_leaves_a_suffix(rest2, dollars);
        suffixes_chain(call_list(rest2, dollars).1, rest2, data);
    }
}

/// Reading a block takes bytes from the front of the data and leaves the others as they are.
pub proof fn block_leaves_a_suffix(data: Seq<u8>, dollars: Balance)
    ensures
        is_suffix(block_calls(data, dollars).1, data),
{
    let (calls, rest1) = call_list(data, dollars);
    call_list_leaves_a_suffix(data, dollars);
    arbitrary_call_leaves_a_suffix(rest1, dollars);
    suffixes_chain(arbitrary_call(rest1, dollars).1, rest1, data);
}

/// A list of blocks read from `data`, and the data left after that.
pub open spec fn block_list(data: Seq<u8>, dollars: Balance) -> (
    Seq<Seq<ArbitraryRuntimeCall>>,
    Seq<u8>,
)
    decreases data.len(),
{
    let (more, rest1) = flag(data);
    if more {
        let (block, rest2) = block_calls(rest1, dollars);
        proof {
            block_leaves_a_suffix(rest1, dollars);
        }
        let (blocks, rest3) = block_list(rest2, dollars);
        (seq![block] + blocks, rest3)
    } else {
        (Seq::empty(), rest1)
    }
}

/// The blocks of an input read from `data`, and the data left after that. Where the list is empty,
/// one more block is read.
pub open spec fn input_blocks(data: Seq<u8>, dollars: Balance) -> (
    Seq<Seq<ArbitraryRuntimeCall>>,
    Seq<u8>,
) {
    let (blocks, rest1) = block_list(data, dollars);
    if blocks.len() == 0 {
        let (block, rest2) = block_calls(rest1, dollars);
        (seq![block], rest2)
    } else {
        (blocks, rest1)
    }
}

/// Reads whether one more item follows; none does where this cannot be read.
fn another(u: &mut Unstructured) -> (more: bool)
    ensures
        (more, remaining(*final(u))) == flag(remaining(*old(u))),
{
    match any_bool(u) {
        Ok(more) => more,
        Err(_) => false,
    }
}

fn any_call_list(u: &mut Unstructured, dollars: Balance) -> (res: Result<
    Vec<ArbitraryRuntimeCall>,
    InputError,
>)
    requires
        representable(dollars),
    ensures
        res matches Ok(calls) && calls@ == call_list(remaining(*old(u)), dollars).0,
        remaining(*final(u)) == call_list(remaining(*old(u)), dollars).1,
{
    let ghost data = remaining(*u);
    let mut calls: Vec<ArbitraryRuntimeCall> = Vec::new();
    let mut more: bool = another(u);
    let ghost mut at = data;
    while more
        invariant
            representable(dollars),
            (more, remaining(*u)) == flag(at),
            call_list(data, dollars) == (
                calls@ + call_list(at, dollars).0,
                call_list(at, dollars).1,
            ),
        decreases at.len(),
    {
        let ghost before = calls@;
        let ghost rest1 = remaining(*u);
        let call: ArbitraryRuntimeCall = ArbitraryRuntimeCall::arbitrary(u, dollars)?;
        calls.push(call);
        proof {
            arbitrary_call_leaves_a_suffix(rest1, dollars);
            let next = remaining(*u);
            assert(before + call_list(at, dollars).0 =~= calls@ + call_list(next, dollars).0);
            at = next;
        }
        more = another(u);
    }
    assert(calls@ =~= call_list(data, dollars).0);
    Ok(calls)
}

impl NonEmpty<ArbitraryRuntimeCall> {
    /// Reads the calls of a block.
    pub fn arbitrary(u: &mut Unstructured, dollars: Balance) -> (res: Result<
        NonEmpty<ArbitraryRuntimeCall>,
        InputError,
    >)
        requires
            representable(dollars),
        ensures
            res matches Ok(block) && block.wf() && block.0@ == block_calls(
                remaining(*old(u)),
                dollars,
            ).0,
            remaining(*final(u)) == block_calls(remaining(*old(u)), dollars).1,
    {
        let mut items: Vec<ArbitraryRuntimeCall> = any_call_list(u, dollars)?;
        if items.is_empty() {
            items.push(ArbitraryRuntimeCall::arbitrary(u, dollars)?);
        }
        Ok(NonEmpty(items))
    }
}

fn any_block_list(u: &mut Unstructured, dollars: Balance) -> (res: Result<
    Vec<NonEmpty<ArbitraryRuntimeCall>>,
    InputError,
>)
    requires
        representable(dollars),
    ensures
        res matches Ok(blocks) && blocks_view(blocks@) == block_list(
            remaining(*old(u)),
            dollars,
        ).0,
        remaining(*final(u)) == block_list(remaining(*old(u)), dollars).1,
{
    let ghost data = remaining(*u);
    let mut blocks: Vec<NonEmpty<ArbitraryRuntimeCall>> = Vec::new();
    let mut more: bool = another(u);
    let ghost mut at = data;
    assert(block_list(data, dollars).0 =~= blocks_view(blocks@) + block_list(at, dollars).0);
    while more
        invariant
            representable(dollars),
            (more, remaining(*u)) == flag(at),
            block_list(data, dollars) == (
                blocks_view(blocks@) + block_list(at, dollars).0,
                block_list(at, dollars).1,
            ),
        decreases at.len(),
    {
        let ghost before = blocks@;
        let ghost rest1 = remaining(*u);
        let block: NonEmpty<ArbitraryRuntimeCall> = NonEmpty::<ArbitraryRuntimeCall>::arbitrary(
            u,
            dollars,
        )?;
        blocks.push(block);
        proof {
            block_leaves_a_suffix(rest1, dollars);
            let next = remaining(*u);
            assert(blocks_view(blocks@) =~= blocks_view(before).push(
                block_calls(rest1, dollars).0,
            ));
            assert(blocks_view(before) + block_list(at, dollars).0 =~= blocks_view(blocks@)
                + block_list(next, dollars).0);
            at = next;
        }
        more = another(u);
    }
    assert(blocks_view(blocks@) =~= block_list(data, dollars).0);
    Ok(blocks)
}

impl MultiBlockCalls {
    /// Reads the blocks of an input.
    pub fn arbitrary(u: &mut Unstructured, dollars: Balance) -> (res: Result<
        MultiBlockCalls,
        InputError,
    >)
        requires
            representable(dollars),
        ensures
            res matches Ok(blocks) && blocks.wf() && blocks@ == input_blocks(
                remaining(*old(u)),
                dollars,
            ).0,
            remaining(*final(u)) == input_blocks(remaining(*old(u)), dollars).1,
    {
        let ghost data = remaining(*u);
        let blocks: Vec<NonEmpty<ArbitraryRuntimeCall>> = any_block_list(u, dollars)?;
        proof {
            inputs_are_filled(data, dollars);
        }
        if blocks.is_empty() {
            let single_block: NonEmpty<ArbitraryRuntimeCall> =
                NonEmpty::<ArbitraryRuntimeCall>::arbitrary(u, dollars)?;
            let res = MultiBlockCalls(vec![single_block]);
            assert(res@ =~= seq![single_block.0@]);
            Ok(res)
        } else {
            Ok(MultiBlockCalls(blocks))
        }
    }

    /// Reads the blocks of an input from the bytes of a fuzzer.
    pub fn from_bytes(data: &[u8], dollars: Balance) -> (res: Result<MultiBlockCalls, InputError>)
        requires
            representable(dollars),
        ensures
            res matches Ok(blocks) && blocks.wf() && blocks@ == input_blocks(data@, dollars).0,
    {
        let mut u: Unstructured = reader(data);
        MultiBlockCalls::arbitrary(&mut u, dollars)
    }
}

proof fn listed_blocks_are_filled(data: Seq<u8>, dollars: Balance)
    ensures
        forall|i: int|
            0 <= i < block_list(data, dollars).0.len() ==> #[trigger] block_list(
                data,
                dollars,
            ).0[i].len() > 0,
    decreases data.len(),
{
    let (more, rest1) = flag(data);
    if more {
        let (block, rest2) = block_calls(rest1, dollars);
        block_leaves_a_suffix(rest1, dollars);
        listed_blocks_are_filled(rest2, dollars);
        let blocks = block_list(rest2, dollars).0;
        let all = block_list(data, dollars).0;
        assert forall|i: int| 0 <= i < all.len() implies #[trigger] all[i].len() > 0 by {
            if i > 0 {
                assert(all[i] == blocks[i - 1]);
            }
        }
    }
}

/// Whatever the data, an input has a block, and each of its blocks has a call.
pub proof fn inputs_are_filled(data: Seq<u8>, dollars: Balance)
    ensures
        all_filled(input_blocks(data, dollars).0),
{
    listed_blocks_are_filled(data, dollars);
}

proof fn call_in_range(data: Seq<u8>, dollars: Balance)
    requires
        representable(dollars),
    ensures
        is_in_range(arbitrary_call(data, dollars).0, dollars),
{
    let (rand, rest) = pick(data, 0, u32::MAX as nat);
    generated_calls_are_in_range(chosen(call_specs_view(), rand as u32), rest, dollars);
}

proof fn listed_calls_in_range(data: Seq<u8>, dollars: Balance)
    requires
        representable(dollars),
    ensures
        forall|i: int|
            0 <= i < call_list(data, dollars).0.len() ==> is_in_range(
                #[trigger] call_list(data, dollars).0[i],
                dollars,
            ),
    decreases data.len(),
{
    let (more, rest1) = flag(data);
    if more {
        let rest2 = arbitrary_call(rest1, dollars).1;
        arbitrary_call_leaves_a_suffix(rest1, dollars);
        call_in_range(rest1, dollars);
        listed_calls_in_range(rest2, dollars);
        let calls = call_list(rest2, dollars).0;
        assert forall|i: int| 0 <= i < call_list(data, dollars).0.len() implies is_in_range(
            #[trigger] call_list(data, dollars).0[i],
            dollars,
        ) by {
            if i > 0 {
                assert(call_list(data, dollars).0[i] == calls[i - 1]);
            }
        }
    }
}

proof fn block_calls_in_range(data: Seq<u8>, dollars: Balance)
    requires
        representable(dollars),
    ensures
        forall|i: int|
            0 <= i < block_calls(data, dollars).0.len() ==> is_in_range(
                #[trigger] block_calls(data, dollars).0[i],
                dollars,
            ),
{
    listed_calls_in_range(data, dollars);
    call_in_range(call_list(data, dollars).1, dollars);
}

proof fn listed_blocks_in_range(data: Seq<u8>, dollars: Balance, block: int)
    requires
        representable(dollars),
        0 <= block < block_list(data, dollars).0.len(),
    ensures
        forall|i: int|
            0 <= i < block_list(data, dollars).0[block].len() ==> is_in_range(
                #[trigger] block_list(data, dollars).0[block][i],
                dollars,
            ),
    decreases data.len(),
{
    let (more, rest1) = flag(data);
    if more {
        let rest2 = block_calls(rest1, dollars).1;
        block_leaves_a_suffix(rest1, dollars);
        if block == 0 {
            block_calls_in_range(rest1, dollars);
        } else {
            listed_blocks_in_range(rest2, dollars, block - 1);
            assert(block_list(data, dollars).0[block] == block_list(rest2, dollars).0[block - 1]);
        }
    }
}

/// Whatever the data, every call of an input is in range.
pub proof fn input_calls_are_in_range(data: Seq<u8>, dollars: Balance, block: int, call: int)
    requires
        representable(dollars),
        0 <= block < input_blocks(data, dollars).0.len(),
        0 <= call < input_blocks(data, dollars).0[block].len(),
    ensures
        is_in_range(input_blocks(data, dollars).0[block][call], dollars),
{
    let (blocks, rest) = block_list(data, dollars);
    if blocks.len() == 0 {
        block_calls_in_range(rest, dollars);
    } else {
        listed_blocks_in_range(data, dollars, block);
    }
}

/// The view of an input shows the calls of each of its blocks, all of them and in their order.
pub proof fn view_shows_every_call(blocks: MultiBlockCalls, block: int)
    ensures
        blocks@.len() == blocks.0@.len(),
        0 <= block < blocks.0@.len() ==> blocks@[block] == blocks.0@[block].0@,
{
}

/// Whether `data` announces one more item: its first byte is odd.
pub open spec fn announces(data: Seq<u8>) -> bool {
    data.len() > 0 && data[0] % 2 == 1
}

/// Whether `at` are the data before each item of a list of calls and before its end: an item is
/// announced, and then read.
pub open spec fn calls_lie_at(at: Seq<Seq<u8>>, dollars: Balance) -> bool {
    &&& at.len() > 0
    &&& forall|i: int|
        0 <= i < at.len() - 1 ==> announces(#[trigger] at[i]) && at[i + 1] == arbitrary_call(
            at[i].skip(1),
            dollars,
        ).1
    &&& !announces(at.last())
}

/// Whether `at` are the data before each item of a list of blocks and before its end.
pub open spec fn blocks_lie_at(at: Seq<Seq<u8>>, dollars: Balance) -> bool {
    &&& at.len() > 0
    &&& forall|i: int|
        0 <= i < at.len() - 1 ==> announces(#[trigger] at[i]) && at[i + 1] == block_calls(
            at[i].skip(1),
            dollars,
        ).1
    &&& !announces(at.last())
}

proof fn call_list_step(data: Seq<u8>, dollars: Balance)
    ensures
        announces(data) ==> ({
            let (call, rest) = arbitrary_call(data.skip(1), dollars);
            call_list(data, dollars) == (
                seq![call] + call_list(rest, dollars).0,
                call_list(rest, dollars).1,
            )
        }),
        !announces(data) ==> call_list(data, dollars) == (
            Seq::<ArbitraryRuntimeCall>::empty(),
            from_position(data, 1),
        ),
{
    flag_is_the_parity_of_a_byte(data);
    if announces(data) {
        assert(from_position(data, 1) =~= data.skip(1));
        arbitrary_call_leaves_a_suffix(data.skip(1), dollars);
    }
}

proof fn block_list_step(data: Seq<u8>, dollars: Balance)
    ensures
        announces(data) ==> ({
            let (block, rest) = block_calls(data.skip(1), dollars);
            block_list(data, dollars) == (
                seq![block] + block_list(rest, dollars).0,
                block_list(rest, dollars).1,
            )
        }),
        !announces(data) ==> block_list(data, dollars) == (
            Seq::<Seq<ArbitraryRuntimeCall>>::empty(),
            from_position(data, 1),
        ),
{
    flag_is_the_parity_of_a_byte(data);
    if announces(data) {
        assert(from_position(data, 1) =~= data.skip(1));
        block_leaves_a_suffix(data.skip(1), dollars);
    }
}

/// Lists that each put one item in front of the next list, down to the empty one.
proof fn lists_unroll<T>(items: Seq<T>, lists: Seq<(Seq<T>, Seq<u8>)>)
    requires
        lists.len() == items.len() + 1,
        forall|i: int|
            0 <= i < items.len() ==> #[trigger] lists[i] == (
                seq![items[i]] + lists[i + 1].0,
                lists[i + 1].1,
            ),
        lists.last().0.len() == 0,
    ensures
        lists[0] == (items, lists.last().1),
    decreases items.len(),
{
    if items.len() == 0 {
        assert(lists[0].0 =~= items);
    } else {
        let rest = lists.drop_first();
        let others = items.drop_first();
        assert forall|i: int| 0 <= i < others.len() implies #[trigger] rest[i] == (
            seq![others[i]] + rest[i + 1].0,
            rest[i + 1].1,
        ) by {
            assert(lists[i + 1] == (seq![items[i + 1]] + lists[i + 2].0, lists[i + 2].1));
        }
        lists_unroll(others, rest);
        assert(lists[0] == (seq![items[0]] + lists[1].0, lists[1].1));
        assert(seq![items[0]] + others =~= items);
    }
}

proof fn list_holds_every_call(at: Seq<Seq<u8>>, dollars: Balance)
    requires
        calls_lie_at(at, dollars),
    ensures
        call_list(at[0], dollars) == (
            Seq::new((at.len() - 1) as nat, |i: int| arbitrary_call(at[i].skip(1), dollars).0),
            from_position(at.last(), 1),
        ),
{
    let items = Seq::new(
        (at.len() - 1) as nat,
        |i: int| arbitrary_call(at[i].skip(1), dollars).0,
    );
    let lists = Seq::new(at.len(), |i: int| call_list(at[i], dollars));
    assert forall|i: int| 0 <= i < items.len() implies #[trigger] lists[i] == (
        seq![items[i]] + lists[i + 1].0,
        lists[i + 1].1,
    ) by {
        assert(announces(at[i]));
        call_list_step(at[i], dollars);
    }
    call_list_step(at.last(), dollars);
    lists_unroll(items, lists);
}

/// A block holds every call that its list announces, in order and nothing else. Where the list
/// announces none, it holds the one call that lies behind the list.
pub proof fn block_holds_every_call(at: Seq<Seq<u8>>, dollars: Balance)
    requires
        calls_lie_at(at, dollars),
    ensures
        ({
            let (calls, rest) = block_calls(at[0], dollars);
            let behind = from_position(at.last(), 1);
            if at.len() == 1 {
                calls == seq![arbitrary_call(behind, dollars).0] && rest == arbitrary_call(
                    behind,
                    dollars,
                ).1
            } else {
                &&& calls.len() == at.len() - 1
                &&& forall|i: int|
                    0 <= i < calls.len() ==> #[trigger] calls[i] == arbitrary_call(
                        at[i].skip(1),
                        dollars,
                    ).0
                &&& rest == behind
            }
        }),
{
    list_holds_every_call(at, dollars);
}

proof fn list_holds_every_block(at: Seq<Seq<u8>>, dollars: Balance)
    requires
        blocks_lie_at(at, dollars),
    ensures
        block_list(at[0], dollars) == (
            Seq::new((at.len() - 1) as nat, |i: int| block_calls(at[i].skip(1), dollars).0),
            from_position(at.last(), 1),
        ),
{
    let items = Seq::new((at.len() - 1) as nat, |i: int| block_calls(at[i].skip(1), dollars).0);
    let lists = Seq::new(at.len(), |i: int| block_list(at[i], dollars));
    assert forall|i: int| 0 <= i < items.len() implies #[trigger] lists[i] == (
        seq![items[i]] + lists[i + 1].0,
        lists[i + 1].1,
    ) by {
        assert(announces(at[i]));
        block_list_step(at[i], dollars);
    }
    block_list_step(at.last(), dollars);
    lists_unroll(items, lists);
}

/// An input holds every block that its list announces, in order and nothing else. Where the list
/// announces none, it holds the one block that lies behind the list.
pub proof fn input_holds_every_block(at: Seq<Seq<u8>>, dollars: Balance)
    requires
        blocks_lie_at(at, dollars),
    ensures
        ({
            let (blocks, rest) = input_blocks(at[0], dollars);
            let behind = from_position(at.last(), 1);
            if at.len() == 1 {
                blocks == seq![block_calls(behind, dollars).0] && rest == block_calls(
                    behind,
                    dollars,
                ).1
            } else {
                &&& blocks.len() == at.len() - 1
                &&& forall|i: int|
                    0 <= i < blocks.len() ==> #[trigger] blocks[i] == block_calls(
                        at[i].skip(1),
                        dollars,
                    ).0
                &&& rest == behind
            }
        }),
{
    list_holds_every_block(at, dollars);
}

/// All data is a list of calls: the items end where no further one is announced, at the latest at
/// the end of the data.
pub proof fn all_data_lists_calls(data: Seq<u8>, dollars: Balance) -> (at: Seq<Seq<u8>>)
    ensures
        calls_lie_at(at, dollars),
        at[0] == data,
    decreases data.len(),
{
    if announces(data) {
        let next = arbitrary_call(data.skip(1), dollars).1;
        arbitrary_call_leaves_a_suffix(data.skip(1), dollars);
        let rest = all_data_lists_calls(next, dollars);
        let at = seq![data] + rest;
        assert forall|i: int| 0 <= i < at.len() - 1 implies announces(#[trigger] at[i]) && at[i + 1]
            == arbitrary_call(at[i].skip(1), dollars).1 by {
            if i > 0 {
                assert(at[i] == rest[i - 1] && at[i + 1] == rest[i]);
            }
        }
        at
    } else {
        seq![data]
    }
}

/// All data is a list of blocks.
pub proof fn all_data_lists_blocks(data: Seq<u8>, dollars: Balance) -> (at: Seq<Seq<u8>>)
    ensures
        blocks_lie_at(at, dollars),
        at[0] == data,
    decreases data.len(),
{
    if announces(data) {
        let next = block_calls(data.skip(1), dollars).1;
        block_leaves_a_suffix(data.skip(1), dollars);
        let rest = all_data_lists_blocks(next, dollars);
        let at = seq![data] + rest;
        assert forall|i: int| 0 <= i < at.len() - 1 implies announces(#[trigger] at[i]) && at[i + 1]
            == block_calls(at[i].skip(1), dollars).1 by {
            if i > 0 {
                assert(at[i] == rest[i - 1] && at[i + 1] == rest[i]);
            }
        }
        at
    } else {
        seq![data]
    }
}

proof fn write_item(
    item: ArbitraryRuntimeCall,
    dollars: Balance,
    tail: Seq<u8>,
) -> (data: Seq<u8>)
    requires
        is_in_range(item, dollars),
    ensures
        call_list(data, dollars) == (
            seq![item] + call_list(tail, dollars).0,
            call_list(tail, dollars).1,
        ),
{
    let call = every_call_can_be_read(item, dollars, tail);
    let data = seq![1u8] + call;
    assert(data.skip(1) =~= call);
    call_list_step(data, dollars);
    data
}

proof fn write_calls(calls: Seq<ArbitraryRuntimeCall>, dollars: Balance, rest: Seq<u8>) -> (data:
    Seq<u8>)
    requires
        forall|i: int| 0 <= i < calls.len() ==> is_in_range(#[trigger] calls[i], dollars),
    ensures
        call_list(data, dollars) == (calls, rest),
    decreases calls.len(),
{
    if calls.len() == 0 {
        let data = seq![0u8] + rest;
        call_list_step(data, dollars);
        assert(from_position(data, 1) =~= rest);
        assert(calls =~= Seq::empty());
        data
    } else {
        let tail = write_calls(calls.drop_first(), dollars, rest);
        let data = write_item(calls[0], dollars, tail);
        assert(seq![calls[0]] + calls.drop_first() =~= calls);
        data
    }
}

/// Whether there is a call in the block and all its calls are in range.
pub open spec fn is_block_in_range(block: Seq<ArbitraryRuntimeCall>, dollars: Balance) -> bool {
    &&& block.len() > 0
    &&& forall|i: int| 0 <= i < block.len() ==> is_in_range(#[trigger] block[i], dollars)
}

proof fn write_block(block: Seq<ArbitraryRuntimeCall>, dollars: Balance, rest: Seq<u8>) -> (data:
    Seq<u8>)
    requires
        is_block_in_range(block, dollars),
    ensures
        block_calls(data, dollars) == (block, rest),
{
    write_calls(block, dollars, rest)
}

proof fn write_blocks(
    blocks: Seq<Seq<ArbitraryRuntimeCall>>,
    dollars: Balance,
    rest: Seq<u8>,
) -> (data: Seq<u8>)
    requires
        forall|b: int|
            0 <= b < blocks.len() ==> is_block_in_range(#[trigger] blocks[b], dollars),
    ensures
        block_list(data, dollars) == (blocks, rest),
    decreases blocks.len(),
{
    if blocks.len() == 0 {
        let data = seq![0u8] + rest;
        block_list_step(data, dollars);
        assert(from_position(data, 1) =~= rest);
        assert(blocks =~= Seq::empty());
        data
    } else {
        let others = blocks.drop_first();
        let tail = write_blocks(others, dollars, rest);
        assert(is_block_in_range(blocks[0], dollars));
        let block = write_block(blocks[0], dollars, tail);
        let data = seq![1u8] + block;
        assert(data.skip(1) =~= block);
        block_list_step(data, dollars);
        assert(seq![blocks[0]] + others =~= blocks);
        data
    }
}

/// Every sequence of blocks of calls in range is read from some data: any number of blocks, each
/// with any number of calls from one on.
pub proof fn every_input_can_be_read(
    blocks: Seq<Seq<ArbitraryRuntimeCall>>,
    dollars: Balance,
    rest: Seq<u8>,
) -> (data: Seq<u8>)
    requires
        blocks.len() > 0,
        forall|b: int|
            0 <= b < blocks.len() ==> is_block_in_range(#[trigger] blocks[b], dollars),
    ensures
        input_blocks(data, dollars) == (blocks, rest),
{
    write_blocks(blocks, dollars, rest)
}

} // verus!
