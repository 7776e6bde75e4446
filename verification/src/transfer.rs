//! Inputs of the transfer campaign: a single transfer by one of a few accounts.
use crate::accounts::{AccountId, Balance};
use crate::calls::{repeated_index, repeats, BalancesCall, RuntimeCall};
use crate::chain::{le_bytes, le_bytes_round_trip};
use crate::genesis::{accounts_repeat_their_index, indexed_accounts};
use crate::input::{
    any_u128, any_u8, byte_at, fixed, fixed_is_spelled_backwards, from_position, front,
    little_endian, reader, reading_nothing, remaining, spells_number, InputError,
};
use arbitrary::Unstructured;
use vstd::arithmetic::power::pow;
use vstd::prelude::*;

verus! {

/// Number of accounts that exist at genesis.
pub const TRANSFER_ACCOUNTS: u8 = 5;

/// A call to try.
#[derive(Debug, Clone, Copy, PartialEq, Eq)]
pub struct ArbitraryRuntimeCall(pub RuntimeCall);

/// A call with the index that chooses its sender.
#[derive(Debug, Clone, Copy, PartialEq, Eq)]
pub struct FuzzInput {
    pub origin_idx: u8,
    pub call: ArbitraryRuntimeCall,
}

/// A transfer of any amount to the account of any index.
pub open spec fn transfer_to(dest_idx: u8, value: Balance) -> ArbitraryRuntimeCall {
    ArbitraryRuntimeCall(
        RuntimeCall::Balances(
            BalancesCall::TransferAllowDeath { dest: AccountId::repeating(dest_idx), value },
        ),
    )
}

/// The transfer that is read from `data`, and the data left after that: a byte for the receiver and
/// sixteen for the amount.
pub open spec fn transfer_call(data: Seq<u8>) -> (ArbitraryRuntimeCall, Seq<u8>) {
    let (dest_idx, rest1) = fixed(data, 1);
    let (value, rest2) = fixed(rest1, 16);
    (transfer_to(dest_idx as u8, value as Balance), rest2)
}

/// The input that is read from `data`, and the data left after that: a byte for the sender, then
/// the transfer.
pub open spec fn fuzz_input(data: Seq<u8>) -> (FuzzInput, Seq<u8>) {
    let (origin_idx, rest1) = fixed(data, 1);
    let (call, rest2) = transfer_call(rest1);
    (FuzzInput { origin_idx: origin_idx as u8, call }, rest2)
}

impl ArbitraryRuntimeCall {
    /// Reads a transfer.
    pub fn arbitrary(u: &mut Unstructured) -> (res: Result<ArbitraryRuntimeCall, InputError>)
        ensures
            res == Ok::<ArbitraryRuntimeCall, InputError>(transfer_call(remaining(*old(u))).0),
            remaining(*final(u)) == transfer_call(remaining(*old(u))).1,
    {
        let dest_idx: u8 = any_u8(u)?;
        let amount: Balance = any_u128(u)?;
        let dest: AccountId = AccountId::from_index(dest_idx);
        Ok(
            ArbitraryRuntimeCall(
                RuntimeCall::Balances(BalancesCall::TransferAllowDeath { dest, value: amount }),
            ),
        )
    }
}

impl FuzzInput {
    /// Reads an input.
    pub fn arbitrary(u: &mut Unstructured) -> (res: Result<FuzzInput, InputError>)
        ensures
            res == Ok::<FuzzInput, InputError>(fuzz_input(remaining(*old(u))).0),
            remaining(*final(u)) == fuzz_input(remaining(*old(u))).1,
    {
        let origin_idx: u8 = any_u8(u)?;
        let call: ArbitraryRuntimeCall = ArbitraryRuntimeCall::arbitrary(u)?;
        Ok(FuzzInput { origin_idx, call })
    }

    /// Reads an input from the bytes of a fuzzer.
    pub fn from_bytes(data: &[u8]) -> (res: Result<FuzzInput, InputError>)
        ensures
            res == Ok::<FuzzInput, InputError>(fuzz_input(data@).0),
    {
        let mut u: Unstructured = reader(data);
        FuzzInput::arbitrary(&mut u)
    }

    /// The account that sends the call.
    pub fn origin(&self, accounts: &[AccountId]) -> (account: AccountId)
        requires
            accounts@.len() > 0,
        ensures
            account == accounts@[self.origin_idx as int % accounts@.len() as int],
    {
        accounts[self.origin_idx as usize % accounts.len()]
    }
}

/// Every transfer by every sender is read from some input of eighteen bytes.
pub proof fn every_transfer_can_be_read(origin_idx: u8, dest_idx: u8, value: Balance)
    ensures
        exists|data: Seq<u8>|
            data.len() == 18 && #[trigger] fuzz_input(data).0 == (FuzzInput {
                origin_idx,
                call: transfer_to(dest_idx, value),
            }),
{
    let amount = le_bytes(value as nat, 16);
    assert(pow(256, 16) == 0x1_0000_0000_0000_0000_0000_0000_0000_0000) by {
        reveal(pow);
        reveal_with_fuel(pow, 17);
    }
    le_bytes_round_trip(value as nat, 16);
    let data = seq![origin_idx, dest_idx] + amount;
    let rest1 = fixed(data, 1).1;
    let rest2 = fixed(rest1, 1).1;
    assert(front(data, 1) =~= seq![origin_idx]);
    assert(rest1 =~= seq![dest_idx] + amount);
    assert(front(rest1, 1) =~= seq![dest_idx]);
    assert(rest2 =~= amount);
    assert(front(rest2, 16) =~= amount);
    single_byte(origin_idx);
    single_byte(dest_idx);
    assert(fuzz_input(data).0 == (FuzzInput { origin_idx, call: transfer_to(dest_idx, value) }));
}

proof fn single_byte(b: u8)
    ensures
        little_endian(seq![b]) == b,
{
    assert(seq![b].drop_first() =~= Seq::empty());
    assert(little_endian(Seq::<u8>::empty()) == 0);
}

/// Without data the input is a transfer of nothing to the first account, sent by the first account.
pub proof fn no_data_gives_the_least_transfer()
    ensures
        fuzz_input(Seq::empty()).0 == (FuzzInput { origin_idx: 0, call: transfer_to(0, 0) }),
{
    reading_nothing(0, 0, 1);
    reading_nothing(0, 0, 16);
}

/// A transfer is read off its bytes: the first one is repeated by the identifier of the receiver,
/// and the sixteen behind it spell the amount, the least significant one first. Bytes behind the
/// end count as zero.
pub proof fn transfer_is_read_off_its_bytes(data: Seq<u8>)
    ensures
        ({
            let amount_bytes = from_position(data, 1).take(
                from_position(data, 1).len() - from_position(data, 17).len(),
            );
            &&& transfer_call(data).0.0 matches RuntimeCall::Balances(
                BalancesCall::TransferAllowDeath { dest, value },
            ) && repeats(dest, byte_at(data, 0)) && spells_number(
                amount_bytes.reverse(),
                value as nat,
            )
            &&& transfer_call(data).1 == from_position(data, 17)
        }),
{
    let rest1 = fixed(data, 1).1;
    assert(pow(256, 16) == 0x1_0000_0000_0000_0000_0000_0000_0000_0000) by {
        reveal(pow);
        reveal_with_fuel(pow, 17);
    }
    first_byte(data);
    fixed_is_spelled_backwards(rest1, 16);
    assert(from_position(rest1, 16) =~= from_position(data, 17));
    assert(front(rest1, 16) =~= from_position(data, 1).take(
        from_position(data, 1).len() - from_position(data, 17).len(),
    ));
    repeated_index(byte_at(data, 0));
}

proof fn first_byte(data: Seq<u8>)
    ensures
        fixed(data, 1) == (byte_at(data, 0) as nat, from_position(data, 1)),
{
    fixed_is_spelled_backwards(data, 1);
    if data.len() > 0 {
        assert(front(data, 1) =~= seq![data[0]]);
        single_byte(data[0]);
    } else {
        assert(front(data, 1) =~= Seq::empty());
    }
}

/// An input is read off its bytes: the first one is the index of the sender, and the others are the
/// transfer.
pub proof fn input_is_read_off_its_bytes(data: Seq<u8>)
    ensures
        fuzz_input(data).0.origin_idx == byte_at(data, 0),
        (fuzz_input(data).0.call, fuzz_input(data).1) == transfer_call(from_position(data, 1)),
{
    first_byte(data);
}

/// For every sender, every receiver and every amount, some input is the transfer of this amount to
/// this receiver.
pub proof fn every_amount_can_be_transferred(sender: u8, receiver: u8, amount: Balance) -> (data: Seq<
    u8,
>)
    ensures
        fuzz_input(data).0.origin_idx == sender,
        fuzz_input(data).0.call.0 matches RuntimeCall::Balances(
            BalancesCall::TransferAllowDeath { dest, value },
        ) && repeats(dest, receiver) && value == amount,
{
    every_transfer_can_be_read(sender, receiver, amount);
    repeated_index(receiver);
    choose|data: Seq<u8>|
        data.len() == 18 && #[trigger] fuzz_input(data).0 == (FuzzInput {
            origin_idx: sender,
            call: transfer_to(receiver, amount),
        })
}

/// The sender of an input of the transfer campaign is one of five accounts: the one that repeats
/// the index of the sender, reduced below five.
pub proof fn sender_is_one_of_five(origin_idx: u8)
    ensures
        ({
            let accounts = indexed_accounts(TRANSFER_ACCOUNTS as nat);
            &&& accounts.len() == 5
            &&& repeats(accounts[origin_idx as int % accounts.len() as int], origin_idx % 5)
        }),
{
    accounts_repeat_their_index(5, origin_idx as int % 5);
}

} // verus!
