//! Weighted generation of runtime calls.
//!
//! Amounts are drawn in terms of `dollars`, the number of currency units in a dollar of the
//! runtime under test.
use crate::accounts::{AccountId, Balance, BlockNumber};
use crate::input::{
    any_bool, byte_at, byte_width, every_integer_can_be_picked, flag, flag_is_the_parity_of_a_byte,
    from_position, is_suffix, pick, pick_in_range, pick_leaves_suffix, pick_selects_from_the_front,
    remaining, selection_moves, selects_between, small_pick, suffixes_chain, u128_in_range,
    u32_in_range, u8_in_range, InputError,
};
use arbitrary::Unstructured;
use vstd::prelude::*;

verus! {

/// Number of accounts that exist from genesis on.
pub const GENESIS_ACCOUNTS: u8 = 100;

/// Dollars that each genesis account owns.
pub const ENDOWMENT_DOLLARS: u128 = 10_000_000;

/// Whether all amounts that are generated for this currency fit into a [`Balance`].
pub open spec fn representable(dollars: Balance) -> bool {
    100 * ENDOWMENT_DOLLARS * dollars <= Balance::MAX
}

/// What each genesis account owns.
pub open spec fn endowment_of(dollars: Balance) -> nat {
    (ENDOWMENT_DOLLARS * dollars) as nat
}

/// The amounts that are generated from an endowment fit into a [`Balance`], and the range of the
/// locked amounts is not empty.
pub proof fn endowment_fits(dollars: Balance)
    requires
        representable(dollars),
    ensures
        100 * endowment_of(dollars) <= Balance::MAX,
        100 * dollars <= 50 * endowment_of(dollars),
{
    let unit = ENDOWMENT_DOLLARS as int;
    let amount = unit * dollars;
    assert(0 <= amount && 100 * dollars <= 50 * amount) by (nonlinear_arith)
        requires
            unit == 10_000_000,
            amount == unit * dollars,
            0 <= dollars,
    ;
    assert(100 * amount == 100 * unit * dollars) by (nonlinear_arith)
        requires
            amount == unit * dollars,
    ;
}

/// What each genesis account owns.
pub fn endowment(dollars: Balance) -> (amount: Balance)
    requires
        representable(dollars),
    ensures
        amount == endowment_of(dollars),
{
    proof {
        endowment_fits(dollars);
    }
    ENDOWMENT_DOLLARS * dollars
}

/// Who sends a call.
#[derive(Debug, Clone, Copy, PartialEq, Eq)]
pub enum CallOrigin {
    /// The genesis account of this index.
    Signed(u8),
    /// The root of the runtime.
    Root,
}

impl CallOrigin {
    /// The account that signs the call; `None` for the root.
    pub fn account(&self) -> (account: Option<AccountId>)
        ensures
            account == match *self {
                CallOrigin::Signed(index) => Some(AccountId::repeating(index)),
                CallOrigin::Root => None,
            },
    {
        match self {
            CallOrigin::Signed(index) => Some(AccountId::from_index(*index)),
            CallOrigin::Root => None,
        }
    }
}

/// Schedule on which a vested transfer unlocks.
#[derive(Debug, Clone, Copy, PartialEq, Eq)]
pub struct VestingInfo {
    pub locked: Balance,
    pub per_block: Balance,
    pub starting_block: BlockNumber,
}

/// Calls of the balances pallet.
#[derive(Debug, Clone, Copy, PartialEq, Eq)]
pub enum BalancesCall {
    TransferAllowDeath { dest: AccountId, value: Balance },
    TransferKeepAlive { dest: AccountId, value: Balance },
    TransferAll { dest: AccountId, keep_alive: bool },
    ForceTransfer { source: AccountId, dest: AccountId, value: Balance },
    ForceSetBalance { who: AccountId, new_free: Balance },
}

/// Calls of the vesting pallet.
#[derive(Debug, Clone, Copy, PartialEq, Eq)]
pub enum VestingCall {
    VestedTransfer { target: AccountId, schedule: VestingInfo },
    Vest,
    ForceVestedTransfer { source: AccountId, target: AccountId, schedule: VestingInfo },
}

/// The runtime calls that are generated.
#[derive(Debug, Clone, Copy, PartialEq, Eq)]
pub enum RuntimeCall {
    Balances(BalancesCall),
    Vesting(VestingCall),
}

/// A generated call with its sender.
#[derive(Debug, Clone, Copy, PartialEq, Eq)]
pub struct ArbitraryRuntimeCall {
    pub call: RuntimeCall,
    pub origin: CallOrigin,
}

/// The kinds of calls that are generated.
#[derive(Debug, Clone, Copy, PartialEq, Eq, Structural)]
pub enum Generator {
    TransferAllowDeath,
    TransferKeepAlive,
    TransferAll,
    ForceTransfer,
    ForceSetBalance,
    VestedTransfer,
    Vest,
    ForceVestedTransfer,
}

/// An account index read from `data`, and the data left after that.
pub open spec fn pick_index(data: Seq<u8>) -> (u8, Seq<u8>) {
    let (index, rest) = pick(data, 0, (GENESIS_ACCOUNTS - 1) as nat);
    (index as u8, rest)
}

/// An amount of at most a hundred endowments read from `data`, and the data left after that.
pub open spec fn pick_amount(data: Seq<u8>, dollars: Balance) -> (Balance, Seq<u8>) {
    let (amount, rest) = pick(data, 0, 100 * endowment_of(dollars));
    (amount as Balance, rest)
}

/// A vesting schedule read from `data`, and the data left after that: between a hundred dollars and
/// fifty endowments, unlocked by at least one unit and at most a hundredth per block, from one of
/// the first thousand blocks on.
pub open spec fn pick_schedule(data: Seq<u8>, dollars: Balance) -> (VestingInfo, Seq<u8>) {
    let (locked, rest1) = pick(data, (100 * dollars) as nat, 50 * endowment_of(dollars));
    let (per_block, rest2) = pick(
        rest1,
        1,
        if locked / 100 >= 1 {
            locked / 100
        } else {
            1
        },
    );
    let (starting_block, rest3) = pick(rest2, 1, 1000);
    (
        VestingInfo {
            locked: locked as Balance,
            per_block: per_block as Balance,
            starting_block: starting_block as BlockNumber,
        },
        rest3,
    )
}

/// The call of the given kind that is read from `data`, its sender, and the data left after that.
pub open spec fn generated(generator: Generator, data: Seq<u8>, dollars: Balance) -> (
    RuntimeCall,
    CallOrigin,
    Seq<u8>,
) {
    match generator {
        Generator::TransferAllowDeath => {
            let (origin, rest1) = pick_index(data);
            let (dest, rest2) = pick_index(rest1);
            let (value, rest3) = pick_amount(rest2, dollars);
            let call = BalancesCall::TransferAllowDeath { dest: AccountId::repeating(dest), value };
            (RuntimeCall::Balances(call), CallOrigin::Signed(origin), rest3)
        },
        Generator::TransferKeepAlive => {
            let (origin, rest1) = pick_index(data);
            let (dest, rest2) = pick_index(rest1);
            let (value, rest3) = pick_amount(rest2, dollars);
            let call = BalancesCall::TransferKeepAlive { dest: AccountId::repeating(dest), value };
            (RuntimeCall::Balances(call), CallOrigin::Signed(origin), rest3)
        },
        Generator::TransferAll => {
            let (origin, rest1) = pick_index(data);
            let (dest, rest2) = pick_index(rest1);
            let (keep_alive, rest3) = flag(rest2);
            let call = BalancesCall::TransferAll { dest: AccountId::repeating(dest), keep_alive };
            (RuntimeCall::Balances(call), CallOrigin::Signed(origin), rest3)
        },
        Generator::ForceTransfer => {
            let (source, rest1) = pick_index(data);
            let (dest, rest2) = pick_index(rest1);
            let (value, rest3) = pick_amount(rest2, dollars);
            let call = BalancesCall::ForceTransfer {
                source: AccountId::repeating(source),
                dest: AccountId::repeating(dest),
                value,
            };
            (RuntimeCall::Balances(call), CallOrigin::Root, rest3)
        },
        Generator::ForceSetBalance => {
            let (who, rest1) = pick_index(data);
            let (new_free, rest2) = pick_amount(rest1, dollars);
            let call = BalancesCall::ForceSetBalance { who: AccountId::repeating(who), new_free };
            (RuntimeCall::Balances(call), CallOrigin::Root, rest2)
        },
        Generator::VestedTransfer => {
            let (origin, rest1) = pick_index(data);
            let (target, rest2) = pick_index(rest1);
            let (schedule, rest3) = pick_schedule(rest2, dollars);
            let call = VestingCall::VestedTransfer {
                target: AccountId::repeating(target),
                schedule,
            };
            (RuntimeCall::Vesting(call), CallOrigin::Signed(origin), rest3)
        },
        Generator::Vest => {
            let (origin, rest1) = pick_index(data);
            (RuntimeCall::Vesting(VestingCall::Vest), CallOrigin::Signed(origin), rest1)
        },
        Generator::ForceVestedTransfer => {
            let (source, rest1) = pick_index(data);
            let (target, rest2) = pick_index(rest1);
            let (schedule, rest3) = pick_schedule(rest2, dollars);
            let call = VestingCall::ForceVestedTransfer {
                source: AccountId::repeating(source),
                target: AccountId::repeating(target),
                schedule,
            };
            (RuntimeCall::Vesting(call), CallOrigin::Root, rest3)
        },
    }
}

/// Whether `res` is the call of the given kind that `before` holds, and `after` what is left.
pub open spec fn generates(
    generator: Generator,
    before: Seq<u8>,
    dollars: Balance,
    res: Result<(RuntimeCall, CallOrigin), InputError>,
    after: Seq<u8>,
) -> bool {
    let (call, origin, rest) = generated(generator, before, dollars);
    res == Ok::<(RuntimeCall, CallOrigin), InputError>((call, origin)) && after == rest
}

fn any_index(u: &mut Unstructured) -> (res: Result<u8, InputError>)
    ensures
        res == Ok::<u8, InputError>(pick_index(remaining(*old(u))).0),
        remaining(*final(u)) == pick_index(remaining(*old(u))).1,
{
    proof {
        pick_in_range(remaining(*u), 0, 99);
    }
    u8_in_range(u, 0, GENESIS_ACCOUNTS - 1)
}

fn any_amount(u: &mut Unstructured, dollars: Balance) -> (res: Result<Balance, InputError>)
    requires
        representable(dollars),
    ensures
        res == Ok::<Balance, InputError>(pick_amount(remaining(*old(u)), dollars).0),
        remaining(*final(u)) == pick_amount(remaining(*old(u)), dollars).1,
{
    proof {
        endowment_fits(dollars);
        pick_in_range(remaining(*u), 0, 100 * endowment_of(dollars));
    }
    u128_in_range(u, 0, 100 * endowment(dollars))
}

fn any_schedule(u: &mut Unstructured, dollars: Balance) -> (res: Result<VestingInfo, InputError>)
    requires
        representable(dollars),
    ensures
        res == Ok::<VestingInfo, InputError>(pick_schedule(remaining(*old(u)), dollars).0),
        remaining(*final(u)) == pick_schedule(remaining(*old(u)), dollars).1,
{
    proof {
        endowment_fits(dollars);
        pick_in_range(remaining(*u), (100 * dollars) as nat, 50 * endowment_of(dollars));
    }
    let locked: Balance = u128_in_range(u, 100 * dollars, 50 * endowment(dollars))?;
    let most: Balance = if locked / 100 >= 1 {
        locked / 100
    } else {
        1
    };
    proof {
        pick_in_range(remaining(*u), 1, most as nat);
    }
    let per_block: Balance = u128_in_range(u, 1, most)?;
    proof {
        pick_in_range(remaining(*u), 1, 1000);
    }
    let starting_block: BlockNumber = u32_in_range(u, 1, 1000)?;
    Ok(VestingInfo { locked, per_block, starting_block })
}

/// A transfer that may leave its sender below the existential deposit.
pub fn gen_transfer_allow_death(u: &mut Unstructured, dollars: Balance) -> (res: Result<
    (RuntimeCall, CallOrigin),
    InputError,
>)
    requires
        representable(dollars),
    ensures
        generates(
            Generator::TransferAllowDeath,
            remaining(*old(u)),
            dollars,
            res,
            remaining(*final(u)),
        ),
{
    let origin_idx: u8 = any_index(u)?;
    let dest_idx: u8 = any_index(u)?;
    let amount: Balance = any_amount(u, dollars)?;
    let call = BalancesCall::TransferAllowDeath {
        dest: AccountId::from_index(dest_idx),
        value: amount,
    };
    Ok((RuntimeCall::Balances(call), CallOrigin::Signed(origin_idx)))
}

/// A transfer that keeps its sender alive.
pub fn gen_transfer_keep_alive(u: &mut Unstructured, dollars: Balance) -> (res: Result<
    (RuntimeCall, CallOrigin),
    InputError,
>)
    requires
        representable(dollars),
    ensures
        generates(
            Generator::TransferKeepAlive,
            remaining(*old(u)),
            dollars,
            res,
            remaining(*final(u)),
        ),
{
    let origin_idx: u8 = any_index(u)?;
    let dest_idx: u8 = any_index(u)?;
    let amount: Balance = any_amount(u, dollars)?;
    let call = BalancesCall::TransferKeepAlive {
        dest: AccountId::from_index(dest_idx),
        value: amount,
    };
    Ok((RuntimeCall::Balances(call), CallOrigin::Signed(origin_idx)))
}

/// A transfer of everything that the sender has.
pub fn gen_transfer_all(u: &mut Unstructured) -> (res: Result<
    (RuntimeCall, CallOrigin),
    InputError,
>)
    ensures
        forall|dollars: Balance| #[trigger]
            generates(
                Generator::TransferAll,
                remaining(*old(u)),
                dollars,
                res,
                remaining(*final(u)),
            ),
{
    let origin_idx: u8 = any_index(u)?;
    let dest_idx: u8 = any_index(u)?;
    let keep_alive: bool = any_bool(u)?;
    let call = BalancesCall::TransferAll { dest: AccountId::from_index(dest_idx), keep_alive };
    Ok((RuntimeCall::Balances(call), CallOrigin::Signed(origin_idx)))
}

/// A transfer between two accounts on behalf of the root.
pub fn gen_force_transfer(u: &mut Unstructured, dollars: Balance) -> (res: Result<
    (RuntimeCall, CallOrigin),
    InputError,
>)
    requires
        representable(dollars),
    ensures
        generates(
            Generator::ForceTransfer,
            remaining(*old(u)),
            dollars,
            res,
            remaining(*final(u)),
        ),
{
    let source_idx: u8 = any_index(u)?;
    let dest_idx: u8 = any_index(u)?;
    let amount: Balance = any_amount(u, dollars)?;
    let call = BalancesCall::ForceTransfer {
        source: AccountId::from_index(source_idx),
        dest: AccountId::from_index(dest_idx),
        value: amount,
    };
    Ok((RuntimeCall::Balances(call), CallOrigin::Root))
}

/// A balance set by the root.
pub fn gen_force_set_balance(u: &mut Unstructured, dollars: Balance) -> (res: Result<
    (RuntimeCall, CallOrigin),
    InputError,
>)
    requires
        representable(dollars),
    ensures
        generates(
            Generator::ForceSetBalance,
            remaining(*old(u)),
            dollars,
            res,
            remaining(*final(u)),
        ),
{
    let who_idx: u8 = any_index(u)?;
    let new_free: Balance = any_amount(u, dollars)?;
    let call = BalancesCall::ForceSetBalance { who: AccountId::from_index(who_idx), new_free };
    Ok((RuntimeCall::Balances(call), CallOrigin::Root))
}

/// A transfer that unlocks over time.
pub fn gen_vested_transfer(u: &mut Unstructured, dollars: Balance) -> (res: Result<
    (RuntimeCall, CallOrigin),
    InputError,
>)
    requires
        representable(dollars),
    ensures
        generates(
            Generator::VestedTransfer,
            remaining(*old(u)),
            dollars,
            res,
            remaining(*final(u)),
        ),
{
    let origin_idx: u8 = any_index(u)?;
    let dest_idx: u8 = any_index(u)?;
    let schedule: VestingInfo = any_schedule(u, dollars)?;
    let call = VestingCall::VestedTransfer { target: AccountId::from_index(dest_idx), schedule };
    Ok((RuntimeCall::Vesting(call), CallOrigin::Signed(origin_idx)))
}

/// Unlocks what has vested for the sender.
pub fn gen_vest(u: &mut Unstructured) -> (res: Result<(RuntimeCall, CallOrigin), InputError>)
    ensures
        forall|dollars: Balance| #[trigger]
            generates(Generator::Vest, remaining(*old(u)), dollars, res, remaining(*final(u))),
{
    let origin_idx: u8 = any_index(u)?;
    Ok((RuntimeCall::Vesting(VestingCall::Vest), CallOrigin::Signed(origin_idx)))
}

/// A transfer that unlocks over time, between two accounts on behalf of the root.
pub fn gen_force_vested_transfer(u: &mut Unstructured, dollars: Balance) -> (res: Result<
    (RuntimeCall, CallOrigin),
    InputError,
>)
    requires
        representable(dollars),
    ensures
        generates(
            Generator::ForceVestedTransfer,
            remaining(*old(u)),
            dollars,
            res,
            remaining(*final(u)),
        ),
{
    let source_idx: u8 = any_index(u)?;
    let dest_idx: u8 = any_index(u)?;
    let schedule: VestingInfo = any_schedule(u, dollars)?;
    let call = VestingCall::ForceVestedTransfer {
        source: AccountId::from_index(source_idx),
        target: AccountId::from_index(dest_idx),
        schedule,
    };
    Ok((RuntimeCall::Vesting(call), CallOrigin::Root))
}

/// Whether `account` exists from genesis on.
pub open spec fn is_genesis_account(account: AccountId) -> bool {
    exists|index: u8| index < GENESIS_ACCOUNTS && account == #[trigger] AccountId::repeating(index)
}

/// Whether `amount` is at most a hundred endowments.
pub open spec fn is_generated_amount(amount: Balance, dollars: Balance) -> bool {
    amount <= 100 * endowment_of(dollars)
}

/// Whether `schedule` locks at least a hundred dollars and at most fifty endowments, unlocks at
/// least one unit and, from a hundred units on, at most a hundredth per block, and starts at one of
/// the first thousand blocks.
pub open spec fn is_generated_schedule(schedule: VestingInfo, dollars: Balance) -> bool {
    &&& 100 * dollars <= schedule.locked <= 50 * endowment_of(dollars)
    &&& 1 <= schedule.per_block
    &&& schedule.per_block == 1 || 100 * schedule.per_block <= schedule.locked
    &&& 1 <= schedule.starting_block <= 1000
}

/// Whether all that the call names exists from genesis on and all its amounts are in range.
pub open spec fn is_generated_call(call: RuntimeCall, dollars: Balance) -> bool {
    match call {
        RuntimeCall::Balances(BalancesCall::TransferAllowDeath { dest, value }) => {
            is_genesis_account(dest) && is_generated_amount(value, dollars)
        },
        RuntimeCall::Balances(BalancesCall::TransferKeepAlive { dest, value }) => {
            is_genesis_account(dest) && is_generated_amount(value, dollars)
        },
        RuntimeCall::Balances(BalancesCall::TransferAll { dest, keep_alive }) => {
            is_genesis_account(dest)
        },
        RuntimeCall::Balances(BalancesCall::ForceTransfer { source, dest, value }) => {
            is_genesis_account(source) && is_genesis_account(dest) && is_generated_amount(
                value,
                dollars,
            )
        },
        RuntimeCall::Balances(BalancesCall::ForceSetBalance { who, new_free }) => {
            is_genesis_account(who) && is_generated_amount(new_free, dollars)
        },
        RuntimeCall::Vesting(VestingCall::VestedTransfer { target, schedule }) => {
            is_genesis_account(target) && is_generated_schedule(schedule, dollars)
        },
        RuntimeCall::Vesting(VestingCall::Vest) => true,
        RuntimeCall::Vesting(VestingCall::ForceVestedTransfer { source, target, schedule }) => {
            is_genesis_account(source) && is_genesis_account(target) && is_generated_schedule(
                schedule,
                dollars,
            )
        },
    }
}

/// Whether the call acts on behalf of others and so needs the root.
pub open spec fn is_forced(call: RuntimeCall) -> bool {
    match call {
        RuntimeCall::Balances(BalancesCall::ForceTransfer { .. }) => true,
        RuntimeCall::Balances(BalancesCall::ForceSetBalance { .. }) => true,
        RuntimeCall::Vesting(VestingCall::ForceVestedTransfer { .. }) => true,
        _ => false,
    }
}

/// Whether a call with its sender is in range: the call is, a signing sender exists from genesis
/// on, and the root sends exactly the forced calls.
pub open spec fn is_in_range(item: ArbitraryRuntimeCall, dollars: Balance) -> bool {
    &&& is_generated_call(item.call, dollars)
    &&& is_forced(item.call) <==> item.origin == CallOrigin::Root
    &&& item.origin matches CallOrigin::Signed(index) ==> index < GENESIS_ACCOUNTS
}

proof fn picked_index_is_genesis(data: Seq<u8>)
    ensures
        pick_index(data).0 < GENESIS_ACCOUNTS,
        is_genesis_account(AccountId::repeating(pick_index(data).0)),
{
    pick_in_range(data, 0, 99);
}

proof fn picked_amount_in_range(data: Seq<u8>, dollars: Balance)
    requires
        representable(dollars),
    ensures
        is_generated_amount(pick_amount(data, dollars).0, dollars),
{
    endowment_fits(dollars);
    pick_in_range(data, 0, 100 * endowment_of(dollars));
}

proof fn picked_schedule_in_range(data: Seq<u8>, dollars: Balance)
    requires
        representable(dollars),
    ensures
        is_generated_schedule(pick_schedule(data, dollars).0, dollars),
{
    let (locked, rest1) = pick(data, (100 * dollars) as nat, 50 * endowment_of(dollars));
    let most: nat = if locked / 100 >= 1 {
        locked / 100
    } else {
        1
    };
    let (per_block, rest2) = pick(rest1, 1, most);
    endowment_fits(dollars);
    pick_in_range(data, (100 * dollars) as nat, 50 * endowment_of(dollars));
    pick_in_range(rest1, 1, most);
    pick_in_range(rest2, 1, 1000);
}

/// Whatever the data, a generated call names only genesis accounts and keeps its amounts in range;
/// a signed call comes from a genesis account, and exactly the forced calls come from the root.
pub proof fn generated_calls_are_in_range(generator: Generator, data: Seq<u8>, dollars: Balance)
    requires
        representable(dollars),
    ensures
        ({
            let (call, origin, rest) = generated(generator, data, dollars);
            is_in_range(ArbitraryRuntimeCall { call, origin }, dollars)
        }),
{
    let rest1 = pick_index(data).1;
    let rest2 = pick_index(rest1).1;
    picked_index_is_genesis(data);
    picked_index_is_genesis(rest1);
    picked_amount_in_range(rest1, dollars);
    picked_amount_in_range(rest2, dollars);
    picked_schedule_in_range(rest2, dollars);
}

/// Reading a call takes bytes from the front of the data and leaves the others as they are.
pub proof fn generating_leaves_a_suffix(generator: Generator, data: Seq<u8>, dollars: Balance)
    ensures
        is_suffix(generated(generator, data, dollars).2, data),
{
    let rest1 = pick_index(data).1;
    let rest2 = pick_index(rest1).1;
    pick_leaves_suffix(data, 0, 99);
    pick_leaves_suffix(rest1, 0, 99);
    suffixes_chain(rest2, rest1, data);
    match generator {
        Generator::TransferAllowDeath
        | Generator::TransferKeepAlive
        | Generator::ForceTransfer => {
            pick_leaves_suffix(rest2, 0, 100 * endowment_of(dollars));
            suffixes_chain(pick_amount(rest2, dollars).1, rest2, data);
        },
        Generator::TransferAll => {
            suffixes_chain(flag(rest2).1, rest2, data);
        },
        Generator::ForceSetBalance => {
            pick_leaves_suffix(rest1, 0, 100 * endowment_of(dollars));
            suffixes_chain(pick_amount(rest1, dollars).1, rest1, data);
        },
        Generator::Vest => {},
        Generator::VestedTransfer | Generator::ForceVestedTransfer => {
            let (locked, rest3) = pick(rest2, (100 * dollars) as nat, 50 * endowment_of(dollars));
            let most: nat = if locked / 100 >= 1 {
                locked / 100
            } else {
                1
            };
            let (per_block, rest4) = pick(rest3, 1, most);
            let (starting_block, rest5) = pick(rest4, 1, 1000);
            pick_leaves_suffix(rest2, (100 * dollars) as nat, 50 * endowment_of(dollars));
            pick_leaves_suffix(rest3, 1, most);
            pick_leaves_suffix(rest4, 1, 1000);
            suffixes_chain(rest3, rest2, data);
            suffixes_chain(rest4, rest3, data);
            suffixes_chain(rest5, rest4, data);
        },
    }
}

/// All amounts fit into a balance exactly where a thousand million dollars do; each genesis account
/// owns ten million dollars.
pub proof fn endowment_is_ten_million_dollars(dollars: Balance)
    ensures
        representable(dollars) <==> 1_000_000_000 * dollars
            <= 0xffff_ffff_ffff_ffff_ffff_ffff_ffff_ffff,
        endowment_of(dollars) == 10_000_000 * dollars,
{
}

/// Whether the identifier of `account` repeats the byte `index`.
pub open spec fn repeats(account: AccountId, index: u8) -> bool {
    forall|k: int| 0 <= k < 32 ==> #[trigger] account.bytes@[k] == index
}

/// Whether `value` is the amount that `data` selects from position `from` on, between nothing and a
/// thousand million dollars, and `after` what is left behind it.
pub open spec fn amount_follows(
    data: Seq<u8>,
    from: int,
    dollars: Balance,
    value: Balance,
    after: Seq<u8>,
) -> bool {
    exists|to: int| #[trigger]
        selects_between(data, from, to, 0, (1_000_000_000 * dollars) as nat, value as nat) && after
            == from_position(data, to)
}

/// Whether `schedule` is what `data` selects from position `from` on, one value after the other,
/// and `after` what is left behind it: a hundred to five hundred million dollars, a unit to a
/// hundredth of that per block, and a block from the first to the thousandth.
pub open spec fn schedule_follows(
    data: Seq<u8>,
    from: int,
    dollars: Balance,
    schedule: VestingInfo,
    after: Seq<u8>,
) -> bool {
    exists|second: int, third: int, to: int|
        {
            &&& #[trigger] selects_between(
                data,
                from,
                second,
                (100 * dollars) as nat,
                (500_000_000 * dollars) as nat,
                schedule.locked as nat,
            )
            &&& selects_between(
                data,
                second,
                third,
                1,
                if schedule.locked < 100 {
                    1
                } else {
                    schedule.locked as nat / 100
                },
                schedule.per_block as nat,
            )
            &&& #[trigger] selects_between(
                data,
                third,
                to,
                1,
                1000,
                schedule.starting_block as nat,
            )
            &&& after == from_position(data, to)
        }
}

proof fn indices_are_bytes(data: Seq<u8>)
    ensures
        pick_index(data).0 == byte_at(data, 0) % 100,
        pick_index(data).1 == from_position(data, 1),
        repeats(AccountId::repeating(pick_index(data).0), byte_at(data, 0) % 100),
        pick_index(from_position(data, 1)).0 == byte_at(data, 1) % 100,
        pick_index(from_position(data, 1)).1 == from_position(data, 2),
        repeats(
            AccountId::repeating(pick_index(from_position(data, 1)).0),
            byte_at(data, 1) % 100,
        ),
{
    let rest = from_position(data, 1);
    small_pick(data, 99);
    small_pick(rest, 99);
    assert(from_position(rest, 1) =~= from_position(data, 2));
    assert(byte_at(rest, 0) == byte_at(data, 1));
    repeated_index(pick_index(data).0);
    repeated_index(pick_index(rest).0);
}

/// The account of an index repeats the index, and no other account does.
pub proof fn repeated_index(index: u8)
    ensures
        repeats(AccountId::repeating(index), index),
        forall|account: AccountId| #[trigger]
            repeats(account, index) ==> account == AccountId::repeating(index),
{
    let own = AccountId::repeating(index);
    assert forall|k: int| 0 <= k < 32 implies #[trigger] own.bytes@[k] == index by {}
    assert forall|account: AccountId| #[trigger] repeats(account, index) implies account
        == own by {
        assert(account.bytes@ =~= own.bytes@);
        assert(account.bytes =~= own.bytes);
    }
}

proof fn amount_is_read(data: Seq<u8>, from: int, dollars: Balance)
    requires
        representable(dollars),
        0 <= from,
    ensures
        ({
            let (value, after) = pick_amount(from_position(data, from), dollars);
            amount_follows(data, from, dollars, value, after)
        }),
{
    endowment_fits(dollars);
    let hi = 100 * endowment_of(dollars);
    let rest = from_position(data, from);
    assert(hi == (1_000_000_000 * dollars) as nat);
    let to = from + byte_width(hi) as int;
    pick_selects_from_the_front(rest, 0, hi);
    selection_moves(data, from, to, 0, hi, pick(rest, 0, hi).0);
    let value = pick_amount(rest, dollars).0;
    assert(selects_between(data, from, to, 0, (1_000_000_000 * dollars) as nat, value as nat));
}

proof fn schedule_is_read(data: Seq<u8>, from: int, dollars: Balance)
    requires
        representable(dollars),
        0 <= from,
    ensures
        ({
            let (schedule, after) = pick_schedule(from_position(data, from), dollars);
            schedule_follows(data, from, dollars, schedule, after)
        }),
{
    endowment_fits(dollars);
    let (lo, hi) = ((100 * dollars) as nat, 50 * endowment_of(dollars));
    assert(hi == (500_000_000 * dollars) as nat);
    let rest1 = from_position(data, from);
    let (locked, rest2) = pick(rest1, lo, hi);
    let second = from + byte_width((hi - lo) as nat) as int;
    pick_selects_from_the_front(rest1, lo, hi);
    selection_moves(data, from, second, lo, hi, locked);
    let most: nat = if locked / 100 >= 1 {
        locked / 100
    } else {
        1
    };
    let (per_block, rest3) = pick(rest2, 1, most);
    let third = second + byte_width((most - 1) as nat) as int;
    pick_selects_from_the_front(rest2, 1, most);
    selection_moves(data, second, third, 1, most, per_block);
    let starting_block = pick(rest3, 1, 1000).0;
    let to = third + byte_width(999) as int;
    pick_selects_from_the_front(rest3, 1, 1000);
    selection_moves(data, third, to, 1, 1000, starting_block);
    let schedule = pick_schedule(rest1, dollars).0;
    assert(selects_between(
        data,
        from,
        second,
        lo,
        (500_000_000 * dollars) as nat,
        schedule.locked as nat,
    ));
    assert(selects_between(data, second, third, 1, most, schedule.per_block as nat));
    assert(selects_between(data, third, to, 1, 1000, schedule.starting_block as nat));
}

/// A generated transfer that allows death: the first byte names the sender, the second one the
/// receiver, and the bytes behind them are the amount.
pub proof fn transfer_allow_death_is_read(
    data: Seq<u8>,
    dollars: Balance,
    res: Result<(RuntimeCall, CallOrigin), InputError>,
    after: Seq<u8>,
)
    requires
        representable(dollars),
        generates(Generator::TransferAllowDeath, data, dollars, res, after),
    ensures
        res matches Ok((
            RuntimeCall::Balances(BalancesCall::TransferAllowDeath { dest, value }),
            CallOrigin::Signed(sender),
        )) && {
            &&& sender == byte_at(data, 0) % 100
            &&& repeats(dest, byte_at(data, 1) % 100)
            &&& amount_follows(data, 2, dollars, value, after)
        },
{
    indices_are_bytes(data);
    amount_is_read(data, 2, dollars);
}

/// A generated transfer that keeps its sender alive: the first byte names the sender, the second
/// one the receiver, and the bytes behind them are the amount.
pub proof fn transfer_keep_alive_is_read(
    data: Seq<u8>,
    dollars: Balance,
    res: Result<(RuntimeCall, CallOrigin), InputError>,
    after: Seq<u8>,
)
    requires
        representable(dollars),
        generates(Generator::TransferKeepAlive, data, dollars, res, after),
    ensures
        res matches Ok((
            RuntimeCall::Balances(BalancesCall::TransferKeepAlive { dest, value }),
            CallOrigin::Signed(sender),
        )) && {
            &&& sender == byte_at(data, 0) % 100
            &&& repeats(dest, byte_at(data, 1) % 100)
            &&& amount_follows(data, 2, dollars, value, after)
        },
{
    indices_are_bytes(data);
    amount_is_read(data, 2, dollars);
}

/// A generated transfer of everything: the first byte names the sender, the second one the
/// receiver, and the parity of the third one says whether the sender stays alive.
pub proof fn transfer_all_is_read(
    data: Seq<u8>,
    dollars: Balance,
    res: Result<(RuntimeCall, CallOrigin), InputError>,
    after: Seq<u8>,
)
    requires
        generates(Generator::TransferAll, data, dollars, res, after),
    ensures
        res matches Ok((
            RuntimeCall::Balances(BalancesCall::TransferAll { dest, keep_alive }),
            CallOrigin::Signed(sender),
        )) && {
            &&& sender == byte_at(data, 0) % 100
            &&& repeats(dest, byte_at(data, 1) % 100)
            &&& keep_alive == (byte_at(data, 2) % 2 == 1)
        },
        after == from_position(data, 3),
{
    indices_are_bytes(data);
    let rest = from_position(data, 2);
    flag_is_the_parity_of_a_byte(rest);
    assert(byte_at(rest, 0) == byte_at(data, 2));
    assert(from_position(rest, 1) =~= from_position(data, 3));
}

/// A generated forced transfer comes from the root: the first byte names the account that pays, the
/// second one the receiver, and the bytes behind them are the amount.
pub proof fn force_transfer_is_read(
    data: Seq<u8>,
    dollars: Balance,
    res: Result<(RuntimeCall, CallOrigin), InputError>,
    after: Seq<u8>,
)
    requires
        representable(dollars),
        generates(Generator::ForceTransfer, data, dollars, res, after),
    ensures
        res matches Ok((
            RuntimeCall::Balances(BalancesCall::ForceTransfer { source, dest, value }),
            CallOrigin::Root,
        )) && {
            &&& repeats(source, byte_at(data, 0) % 100)
            &&& repeats(dest, byte_at(data, 1) % 100)
            &&& amount_follows(data, 2, dollars, value, after)
        },
{
    indices_are_bytes(data);
    amount_is_read(data, 2, dollars);
}

/// A generated balance comes from the root: the first byte names the account, and the bytes behind
/// it are the amount.
pub proof fn force_set_balance_is_read(
    data: Seq<u8>,
    dollars: Balance,
    res: Result<(RuntimeCall, CallOrigin), InputError>,
    after: Seq<u8>,
)
    requires
        representable(dollars),
        generates(Generator::ForceSetBalance, data, dollars, res, after),
    ensures
        res matches Ok((
            RuntimeCall::Balances(BalancesCall::ForceSetBalance { who, new_free }),
            CallOrigin::Root,
        )) && {
            &&& repeats(who, byte_at(data, 0) % 100)
            &&& amount_follows(data, 1, dollars, new_free, after)
        },
{
    indices_are_bytes(data);
    amount_is_read(data, 1, dollars);
}

/// A generated vested transfer: the first byte names the sender, the second one the receiver, and
/// the bytes behind them are the schedule.
pub proof fn vested_transfer_is_read(
    data: Seq<u8>,
    dollars: Balance,
    res: Result<(RuntimeCall, CallOrigin), InputError>,
    after: Seq<u8>,
)
    requires
        representable(dollars),
        generates(Generator::VestedTransfer, data, dollars, res, after),
    ensures
        res matches Ok((
            RuntimeCall::Vesting(VestingCall::VestedTransfer { target, schedule }),
            CallOrigin::Signed(sender),
        )) && {
            &&& sender == byte_at(data, 0) % 100
            &&& repeats(target, byte_at(data, 1) % 100)
            &&& schedule_follows(data, 2, dollars, schedule, after)
        },
{
    indices_are_bytes(data);
    schedule_is_read(data, 2, dollars);
}

/// A generated request to unlock: the first byte names the sender, and nothing else is read.
pub proof fn vest_is_read(
    data: Seq<u8>,
    dollars: Balance,
    res: Result<(RuntimeCall, CallOrigin), InputError>,
    after: Seq<u8>,
)
    requires
        generates(Generator::Vest, data, dollars, res, after),
    ensures
        res matches Ok((RuntimeCall::Vesting(VestingCall::Vest), CallOrigin::Signed(sender)))
            && sender == byte_at(data, 0) % 100,
        after == from_position(data, 1),
{
    indices_are_bytes(data);
}

/// A generated forced vested transfer comes from the root: the first byte names the account that
/// pays, the second one the receiver, and the bytes behind them are the schedule.
pub proof fn force_vested_transfer_is_read(
    data: Seq<u8>,
    dollars: Balance,
    res: Result<(RuntimeCall, CallOrigin), InputError>,
    after: Seq<u8>,
)
    requires
        representable(dollars),
        generates(Generator::ForceVestedTransfer, data, dollars, res, after),
    ensures
        res matches Ok((
            RuntimeCall::Vesting(VestingCall::ForceVestedTransfer { source, target, schedule }),
            CallOrigin::Root,
        )) && {
            &&& repeats(source, byte_at(data, 0) % 100)
            &&& repeats(target, byte_at(data, 1) % 100)
            &&& schedule_follows(data, 2, dollars, schedule, after)
        },
{
    indices_are_bytes(data);
    schedule_is_read(data, 2, dollars);
}

/// The kind of a call.
pub open spec fn kind_of(call: RuntimeCall) -> Generator {
    match call {
        RuntimeCall::Balances(BalancesCall::TransferAllowDeath { .. }) => {
            Generator::TransferAllowDeath
        },
        RuntimeCall::Balances(BalancesCall::TransferKeepAlive { .. }) => {
            Generator::TransferKeepAlive
        },
        RuntimeCall::Balances(BalancesCall::TransferAll { .. }) => Generator::TransferAll,
        RuntimeCall::Balances(BalancesCall::ForceTransfer { .. }) => Generator::ForceTransfer,
        RuntimeCall::Balances(BalancesCall::ForceSetBalance { .. }) => Generator::ForceSetBalance,
        RuntimeCall::Vesting(VestingCall::VestedTransfer { .. }) => Generator::VestedTransfer,
        RuntimeCall::Vesting(VestingCall::Vest) => Generator::Vest,
        RuntimeCall::Vesting(VestingCall::ForceVestedTransfer { .. }) => {
            Generator::ForceVestedTransfer
        },
    }
}

proof fn write_index(index: u8, rest: Seq<u8>) -> (data: Seq<u8>)
    requires
        index < 100,
    ensures
        pick_index(data) == (index, rest),
{
    every_integer_can_be_picked(0, 99, index as nat, rest)
}

proof fn write_account(account: AccountId, rest: Seq<u8>) -> (data: Seq<u8>)
    requires
        is_genesis_account(account),
    ensures
        AccountId::repeating(pick_index(data).0) == account,
        pick_index(data).1 == rest,
{
    let index = choose|index: u8|
        index < GENESIS_ACCOUNTS && account == #[trigger] AccountId::repeating(index);
    write_index(index, rest)
}

proof fn write_amount(amount: Balance, dollars: Balance, rest: Seq<u8>) -> (data: Seq<u8>)
    requires
        is_generated_amount(amount, dollars),
    ensures
        pick_amount(data, dollars) == (amount, rest),
{
    every_integer_can_be_picked(0, 100 * endowment_of(dollars), amount as nat, rest)
}

proof fn write_schedule(schedule: VestingInfo, dollars: Balance, rest: Seq<u8>) -> (data: Seq<u8>)
    requires
        is_generated_schedule(schedule, dollars),
    ensures
        pick_schedule(data, dollars) == (schedule, rest),
{
    let most: nat = if schedule.locked as nat / 100 >= 1 {
        schedule.locked as nat / 100
    } else {
        1
    };
    let rest2 = every_integer_can_be_picked(1, 1000, schedule.starting_block as nat, rest);
    let rest1 = every_integer_can_be_picked(1, most, schedule.per_block as nat, rest2);
    every_integer_can_be_picked(
        (100 * dollars) as nat,
        50 * endowment_of(dollars),
        schedule.locked as nat,
        rest1,
    )
}

/// Every call in range is generated from some data, whatever data follows: every sender, every
/// receiver, every amount and every schedule can come up, in every combination.
pub proof fn every_call_in_range_can_be_generated(
    item: ArbitraryRuntimeCall,
    dollars: Balance,
    rest: Seq<u8>,
) -> (data: Seq<u8>)
    requires
        is_in_range(item, dollars),
    ensures
        generates(kind_of(item.call), data, dollars, Ok((item.call, item.origin)), rest),
{
    let sender = match item.origin {
        CallOrigin::Signed(index) => index,
        CallOrigin::Root => 0,
    };
    match item.call {
        RuntimeCall::Balances(BalancesCall::TransferAllowDeath { dest, value }) => {
            let rest2 = write_amount(value, dollars, rest);
            let rest1 = write_account(dest, rest2);
            write_index(sender, rest1)
        },
        RuntimeCall::Balances(BalancesCall::TransferKeepAlive { dest, value }) => {
            let rest2 = write_amount(value, dollars, rest);
            let rest1 = write_account(dest, rest2);
            write_index(sender, rest1)
        },
        RuntimeCall::Balances(BalancesCall::TransferAll { dest, keep_alive }) => {
            let byte: u8 = if keep_alive {
                1
            } else {
                0
            };
            let rest2 = seq![byte] + rest;
            flag_is_the_parity_of_a_byte(rest2);
            assert(from_position(rest2, 1) =~= rest);
            let rest1 = write_account(dest, rest2);
            write_index(sender, rest1)
        },
        RuntimeCall::Balances(BalancesCall::ForceTransfer { source, dest, value }) => {
            let rest2 = write_amount(value, dollars, rest);
            let rest1 = write_account(dest, rest2);
            write_account(source, rest1)
        },
        RuntimeCall::Balances(BalancesCall::ForceSetBalance { who, new_free }) => {
            let rest1 = write_amount(new_free, dollars, rest);
            write_account(who, rest1)
        },
        RuntimeCall::Vesting(VestingCall::VestedTransfer { target, schedule }) => {
            let rest2 = write_schedule(schedule, dollars, rest);
            let rest1 = write_account(target, rest2);
            write_index(sender, rest1)
        },
        RuntimeCall::Vesting(VestingCall::Vest) => write_index(sender, rest),
        RuntimeCall::Vesting(VestingCall::ForceVestedTransfer { source, target, schedule }) => {
            let rest2 = write_schedule(schedule, dollars, rest);
            let rest1 = write_account(target, rest2);
            write_account(source, rest1)
        },
    }
}

} // verus!
