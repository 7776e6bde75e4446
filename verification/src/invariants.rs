//! What must hold of the balances of a chain after a block.
use crate::accounts::{shows_account, AccountId, Balance};
use crate::text::{decimal, push_decimal};
use vstd::prelude::*;
use vstd::string::*;

verus! {

/// What the chain knows of an account.
#[derive(Debug)]
pub struct AccountState {
    pub account: AccountId,
    pub consumers: u32,
    pub providers: u32,
    pub free: Balance,
    pub reserved: Balance,
    pub frozen: Balance,
    /// Amounts of the locks on the account.
    pub locks: Vec<Balance>,
    /// Amounts of the holds on the account.
    pub holds: Vec<Balance>,
}

/// What does not hold.
#[derive(Debug, Clone, Copy, PartialEq, Eq)]
pub enum Violation {
    /// The account has consumers but no provider.
    NoProvider { account: AccountId, consumers: u32, providers: u32 },
    /// The free or the reserved balances up to this account add up to more than a balance can be.
    TotalOverflow { account: AccountId },
    /// The largest lock is not what is frozen.
    FrozenMismatch { account: AccountId, max_lock: Balance, frozen: Balance },
    /// The holds add up to more than a balance can be.
    HoldsOverflow { account: AccountId },
    /// The holds add up to more than what is reserved.
    HoldsExceedReserved { account: AccountId, sum_holds: Balance, reserved: Balance },
    /// All balances add up to more than a balance can be.
    IssuanceOverflow,
    /// All balances do not add up to the total issuance.
    IssuanceMismatch { recorded: Balance, counted: Balance, free: Balance, reserved: Balance },
    /// The total issuance has grown.
    IssuanceIncreased { initial: Balance, total: Balance },
}

/// The largest of `amounts`; zero where there is none.
pub open spec fn greatest(amounts: Seq<Balance>) -> nat
    decreases amounts.len(),
{
    if amounts.len() == 0 {
        0
    } else if amounts.last() as nat >= greatest(amounts.drop_last()) {
        amounts.last() as nat
    } else {
        greatest(amounts.drop_last())
    }
}

/// The sum of `amounts`.
pub open spec fn sum_of(amounts: Seq<Balance>) -> nat
    decreases amounts.len(),
{
    if amounts.len() == 0 {
        0
    } else {
        sum_of(amounts.drop_last()) + amounts.last() as nat
    }
}

/// The free balances of the first `count` accounts, added up.
pub open spec fn free_total(accounts: Seq<AccountState>, count: int) -> nat {
    sum_of(Seq::new(count as nat, |i: int| accounts[i].free))
}

/// The reserved balances of the first `count` accounts, added up.
pub open spec fn reserved_total(accounts: Seq<AccountState>, count: int) -> nat {
    sum_of(Seq::new(count as nat, |i: int| accounts[i].reserved))
}

/// Whether the account has consumers but no provider.
pub open spec fn lacks_provider(state: AccountState) -> bool {
    state.consumers > 0 && state.providers == 0
}

/// Whether the account is referenced properly, its largest lock is what is frozen, and its holds do
/// not exceed what is reserved.
pub open spec fn is_sound(state: AccountState) -> bool {
    &&& !lacks_provider(state)
    &&& greatest(state.locks@) == state.frozen
    &&& sum_of(state.holds@) <= state.reserved
}

/// Whether both totals of the first `count` accounts can be counted.
pub open spec fn totals_fit(accounts: Seq<AccountState>, count: int) -> bool {
    free_total(accounts, count) <= Balance::MAX && reserved_total(accounts, count) <= Balance::MAX
}

/// Whether the first `count` accounts are sound and can be counted.
pub open spec fn clean_up_to(accounts: Seq<AccountState>, count: int) -> bool {
    &&& forall|i: int| 0 <= i < count ==> is_sound(#[trigger] accounts[i])
    &&& totals_fit(accounts, count)
}

/// Whether all accounts are sound, the total issuance is the sum of all balances, and it has not
/// grown.
pub open spec fn invariants_hold(
    accounts: Seq<AccountState>,
    initial_issuance: Balance,
    total_issuance: Balance,
) -> bool {
    let n = accounts.len() as int;
    &&& forall|i: int| 0 <= i < accounts.len() ==> is_sound(#[trigger] accounts[i])
    &&& free_total(accounts, n) + reserved_total(accounts, n) == total_issuance
    &&& total_issuance <= initial_issuance
}

/// Whether `violation` is what is found at the account at position `i`: nothing was found before
/// it, and of what is checked of an account this is the first that fails.
pub open spec fn found_at(accounts: Seq<AccountState>, i: int, violation: Violation) -> bool {
    let state = accounts[i];
    &&& clean_up_to(accounts, i)
    &&& match violation {
        Violation::NoProvider { account, consumers, providers } => {
            &&& lacks_provider(state)
            &&& (account, consumers, providers) == (
                state.account,
                state.consumers,
                state.providers,
            )
        },
        Violation::TotalOverflow { account } => {
            &&& !lacks_provider(state)
            &&& !totals_fit(accounts, i + 1)
            &&& account == state.account
        },
        Violation::FrozenMismatch { account, max_lock, frozen } => {
            &&& !lacks_provider(state)
            &&& totals_fit(accounts, i + 1)
            &&& greatest(state.locks@) != state.frozen
            &&& account == state.account
            &&& max_lock == greatest(state.locks@)
            &&& frozen == state.frozen
        },
        Violation::HoldsOverflow { account } => {
            &&& !lacks_provider(state)
            &&& totals_fit(accounts, i + 1)
            &&& greatest(state.locks@) == state.frozen
            &&& sum_of(state.holds@) > Balance::MAX
            &&& account == state.account
        },
        Violation::HoldsExceedReserved { account, sum_holds, reserved } => {
            &&& !lacks_provider(state)
            &&& totals_fit(accounts, i + 1)
            &&& greatest(state.locks@) == state.frozen
            &&& sum_of(state.holds@) > state.reserved
            &&& account == state.account
            &&& sum_holds == sum_of(state.holds@)
            &&& reserved == state.reserved
        },
        _ => false,
    }
}

/// Whether `violation` is what is found of the issuance, all accounts being sound.
pub open spec fn found_in_total(
    accounts: Seq<AccountState>,
    initial_issuance: Balance,
    total_issuance: Balance,
    violation: Violation,
) -> bool {
    let n = accounts.len() as int;
    let counted_issuance = free_total(accounts, n) + reserved_total(accounts, n);
    &&& clean_up_to(accounts, n)
    &&& match violation {
        Violation::IssuanceOverflow => counted_issuance > Balance::MAX,
        Violation::IssuanceMismatch { recorded, counted, free, reserved } => {
            &&& counted_issuance <= Balance::MAX
            &&& counted_issuance != total_issuance
            &&& recorded == total_issuance
            &&& counted == counted_issuance
            &&& free == free_total(accounts, n)
            &&& reserved == reserved_total(accounts, n)
        },
        Violation::IssuanceIncreased { initial, total } => {
            &&& counted_issuance == total_issuance
            &&& total_issuance > initial_issuance
            &&& initial == initial_issuance
            &&& total == total_issuance
        },
        _ => false,
    }
}

/// Whether `violation` is what a check reports.
pub open spec fn is_reported(
    accounts: Seq<AccountState>,
    initial_issuance: Balance,
    total_issuance: Balance,
    violation: Violation,
) -> bool {
    ||| exists|i: int| 0 <= i < accounts.len() && #[trigger] found_at(accounts, i, violation)
    ||| found_in_total(accounts, initial_issuance, total_issuance, violation)
}

fn max_amount(amounts: &Vec<Balance>) -> (max: Balance)
    ensures
        max == greatest(amounts@),
{
    let mut max: Balance = 0;
    for i in 0..amounts.len()
        invariant
            max == greatest(amounts@.take(i as int)),
    {
        assert(amounts@.take(i + 1).drop_last() =~= amounts@.take(i as int));
        if amounts[i] >= max {
            max = amounts[i];
        }
    }
    assert(amounts@.take(amounts@.len() as int) =~= amounts@);
    max
}

fn checked_sum(amounts: &Vec<Balance>) -> (sum: Option<Balance>)
    ensures
        sum is None <==> sum_of(amounts@) > Balance::MAX,
        sum matches Some(v) ==> v == sum_of(amounts@),
{
    let mut sum: Balance = 0;
    for i in 0..amounts.len()
        invariant
            sum == sum_of(amounts@.take(i as int)),
    {
        assert(amounts@.take(i + 1).drop_last() =~= amounts@.take(i as int));
        match sum.checked_add(amounts[i]) {
            Some(v) => {
                sum = v;
            },
            None => {
                proof {
                    partial_sums_grow(amounts@, i + 1, amounts@.len() as int);
                    assert(amounts@.take(amounts@.len() as int) =~= amounts@);
                }
                return None;
            },
        }
    }
    assert(amounts@.take(amounts@.len() as int) =~= amounts@);
    Some(sum)
}

proof fn partial_sums_grow(amounts: Seq<Balance>, i: int, j: int)
    requires
        0 <= i <= j <= amounts.len(),
    ensures
        sum_of(amounts.take(i)) <= sum_of(amounts.take(j)),
    decreases j - i,
{
    if i < j {
        partial_sums_grow(amounts, i, j - 1);
        assert(amounts.take(j).drop_last() =~= amounts.take(j - 1));
    }
}

proof fn totals_step(accounts: Seq<AccountState>, i: int)
    requires
        0 <= i < accounts.len(),
    ensures
        free_total(accounts, i + 1) == free_total(accounts, i) + accounts[i].free,
        reserved_total(accounts, i + 1) == reserved_total(accounts, i) + accounts[i].reserved,
{
    let free = Seq::new((i + 1) as nat, |k: int| accounts[k].free);
    let reserved = Seq::new((i + 1) as nat, |k: int| accounts[k].reserved);
    assert(free.drop_last() =~= Seq::new(i as nat, |k: int| accounts[k].free));
    assert(reserved.drop_last() =~= Seq::new(i as nat, |k: int| accounts[k].reserved));
}

proof fn totals_grow(accounts: Seq<AccountState>, i: int, j: int)
    requires
        0 <= i <= j <= accounts.len(),
    ensures
        free_total(accounts, i) <= free_total(accounts, j),
        reserved_total(accounts, i) <= reserved_total(accounts, j),
    decreases j - i,
{
    if i < j {
        totals_grow(accounts, i, j - 1);
        totals_step(accounts, j - 1);
    }
}

/// Checks the balances of all accounts and the total issuance, and reports the first violation.
pub fn check_invariants(
    accounts: &Vec<AccountState>,
    initial_issuance: Balance,
    total_issuance: Balance,
) -> (res: Result<(), Violation>)
    ensures
        res is Ok <==> invariants_hold(accounts@, initial_issuance, total_issuance),
        res matches Err(violation) ==> is_reported(
            accounts@,
            initial_issuance,
            total_issuance,
            violation,
        ) && violation.wf(),
{
    let mut counted_free: Balance = 0;
    let mut counted_reserved: Balance = 0;
    for i in 0..accounts.len()
        invariant
            clean_up_to(accounts@, i as int),
            counted_free == free_total(accounts@, i as int),
            counted_reserved == reserved_total(accounts@, i as int),
    {
        let state: &AccountState = &accounts[i];
        proof {
            totals_step(accounts@, i as int);
            totals_grow(accounts@, i + 1, accounts@.len() as int);
        }
        if state.consumers > 0 && state.providers == 0 {
            let violation = Violation::NoProvider {
                account: state.account,
                consumers: state.consumers,
                providers: state.providers,
            };
            assert(found_at(accounts@, i as int, violation));
            assert(!is_sound(accounts@[i as int]));
            return Err(violation);
        }
        let (free, reserved) = match (
            counted_free.checked_add(state.free),
            counted_reserved.checked_add(state.reserved),
        ) {
            (Some(free), Some(reserved)) => (free, reserved),
            _ => {
                let violation = Violation::TotalOverflow { account: state.account };
                assert(found_at(accounts@, i as int, violation));
                return Err(violation);
            },
        };
        counted_free = free;
        counted_reserved = reserved;
        let max_lock: Balance = max_amount(&state.locks);
        if max_lock != state.frozen {
            let violation = Violation::FrozenMismatch {
                account: state.account,
                max_lock,
                frozen: state.frozen,
            };
            assert(found_at(accounts@, i as int, violation));
            assert(!is_sound(accounts@[i as int]));
            return Err(violation);
        }
        match checked_sum(&state.holds) {
            Some(sum_holds) => {
                if sum_holds > state.reserved {
                    let violation = Violation::HoldsExceedReserved {
                        account: state.account,
                        sum_holds,
                        reserved: state.reserved,
                    };
                    assert(found_at(accounts@, i as int, violation));
                    assert(!is_sound(accounts@[i as int]));
                    return Err(violation);
                }
            },
            None => {
                let violation = Violation::HoldsOverflow { account: state.account };
                assert(found_at(accounts@, i as int, violation));
                assert(!is_sound(accounts@[i as int]));
                return Err(violation);
            },
        }
    }
    let counted_issuance: Balance = match counted_free.checked_add(counted_reserved) {
        Some(counted) => counted,
        None => {
            return Err(Violation::IssuanceOverflow);
        },
    };
    if total_issuance != counted_issuance {
        return Err(
            Violation::IssuanceMismatch {
                recorded: total_issuance,
                counted: counted_issuance,
                free: counted_free,
                reserved: counted_reserved,
            },
        );
    }
    if total_issuance > initial_issuance {
        return Err(
            Violation::IssuanceIncreased { initial: initial_issuance, total: total_issuance },
        );
    }
    Ok(())
}

/// The position at which something is found is unique, and so is what is found there.
proof fn found_at_one(accounts: Seq<AccountState>, i: int, j: int, v: Violation, w: Violation)
    requires
        0 <= i <= j < accounts.len(),
        found_at(accounts, i, v),
        found_at(accounts, j, w),
    ensures
        v == w,
{
    if i < j {
        assert(is_sound(accounts[i]));
        totals_grow(accounts, i + 1, j);
    }
}

proof fn found_at_excludes_total(
    accounts: Seq<AccountState>,
    i: int,
    initial_issuance: Balance,
    total_issuance: Balance,
    v: Violation,
    w: Violation,
)
    requires
        0 <= i < accounts.len(),
        found_at(accounts, i, v),
    ensures
        !found_in_total(accounts, initial_issuance, total_issuance, w),
{
    if found_in_total(accounts, initial_issuance, total_issuance, w) {
        assert(is_sound(accounts[i]));
        totals_grow(accounts, i + 1, accounts.len() as int);
    }
}

/// At most one violation can be reported, and none where the invariants hold.
pub proof fn report_is_determined(
    accounts: Seq<AccountState>,
    initial_issuance: Balance,
    total_issuance: Balance,
    v: Violation,
    w: Violation,
)
    requires
        is_reported(accounts, initial_issuance, total_issuance, v),
        is_reported(accounts, initial_issuance, total_issuance, w),
    ensures
        v == w,
        !invariants_hold(accounts, initial_issuance, total_issuance),
{
    if exists|i: int| 0 <= i < accounts.len() && #[trigger] found_at(accounts, i, v) {
        let i = choose|i: int| 0 <= i < accounts.len() && #[trigger] found_at(accounts, i, v);
        totals_grow(accounts, i + 1, accounts.len() as int);
        if exists|j: int| 0 <= j < accounts.len() && #[trigger] found_at(accounts, j, w) {
            let j = choose|j: int| 0 <= j < accounts.len() && #[trigger] found_at(accounts, j, w);
            if i <= j {
                found_at_one(accounts, i, j, v, w);
            } else {
                found_at_one(accounts, j, i, w, v);
            }
        } else {
            found_at_excludes_total(accounts, i, initial_issuance, total_issuance, v, w);
        }
        if invariants_hold(accounts, initial_issuance, total_issuance) {
            assert(is_sound(accounts[i]));
        }
    } else if exists|j: int| 0 <= j < accounts.len() && #[trigger] found_at(accounts, j, w) {
        let j = choose|j: int| 0 <= j < accounts.len() && #[trigger] found_at(accounts, j, w);
        found_at_excludes_total(accounts, j, initial_issuance, total_issuance, w, v);
    }
}

/// The largest amount is at least as large as each amount, and one of them unless there is none.
pub proof fn greatest_is_the_maximum(amounts: Seq<Balance>)
    ensures
        forall|i: int| 0 <= i < amounts.len() ==> #[trigger] amounts[i] <= greatest(amounts),
        amounts.len() > 0 ==> exists|i: int|
            0 <= i < amounts.len() && #[trigger] amounts[i] == greatest(amounts),
    decreases amounts.len(),
{
    if amounts.len() > 0 {
        let shorter = amounts.drop_last();
        greatest_is_the_maximum(shorter);
        assert forall|i: int| 0 <= i < amounts.len() implies #[trigger] amounts[i] <= greatest(
            amounts,
        ) by {
            if i < shorter.len() {
                assert(shorter[i] == amounts[i]);
            }
        }
        if amounts.last() as nat >= greatest(shorter) {
            assert(amounts[amounts.len() - 1] == greatest(amounts));
        } else {
            let i = choose|i: int|
                0 <= i < shorter.len() && #[trigger] shorter[i] == greatest(shorter);
            assert(amounts[i] == greatest(amounts));
        }
    }
}

/// The account that a violation concerns.
pub open spec fn concerned(violation: Violation) -> Option<AccountId> {
    match violation {
        Violation::NoProvider { account, .. } => Some(account),
        Violation::TotalOverflow { account } => Some(account),
        Violation::FrozenMismatch { account, .. } => Some(account),
        Violation::HoldsOverflow { account } => Some(account),
        Violation::HoldsExceedReserved { account, .. } => Some(account),
        _ => None,
    }
}

/// How a violation is reported, where `account` is the text of the account that it concerns.
pub open spec fn message_text(violation: Violation, account: Seq<char>) -> Seq<char> {
    match violation {
        Violation::NoProvider { consumers, providers, .. } => {
            "Invalid consumer/provider state for account "@ + account + ": consumers="@ + decimal(
                consumers as nat,
            ) + ", providers="@ + decimal(providers as nat)
        },
        Violation::FrozenMismatch { max_lock, frozen, .. } => {
            "Max lock should equal frozen balance for "@ + account + ": max_lock="@ + decimal(
                max_lock as nat,
            ) + ", frozen="@ + decimal(frozen as nat)
        },
        Violation::HoldsExceedReserved { sum_holds, reserved, .. } => {
            "Sum of holds ("@ + decimal(sum_holds as nat) + ") exceeds reserved balance ("@
                + decimal(reserved as nat) + ") for "@ + account
        },
        Violation::IssuanceMismatch { recorded, counted, free, reserved } => {
            "Total issuance mismatch: recorded="@ + decimal(recorded as nat) + ", counted="@
                + decimal(counted as nat) + " (free="@ + decimal(free as nat) + ", reserved="@
                + decimal(reserved as nat) + ")"@
        },
        Violation::IssuanceIncreased { initial, total } => {
            "Issuance increased! initial="@ + decimal(initial as nat) + ", final="@ + decimal(
                total as nat,
            ) + ", diff=+"@ + decimal((total - initial) as nat)
        },
        _ => "attempt to add with overflow"@,
    }
}

impl Violation {
    /// Whether an increase is one.
    pub open spec fn wf(self) -> bool {
        self matches Violation::IssuanceIncreased { initial, total } ==> initial < total
    }

    /// The account that the violation concerns.
    pub fn account(&self) -> (account: Option<AccountId>)
        ensures
            account == concerned(*self),
    {
        match self {
            Violation::NoProvider { account, .. } => Some(*account),
            Violation::TotalOverflow { account } => Some(*account),
            Violation::FrozenMismatch { account, .. } => Some(*account),
            Violation::HoldsOverflow { account } => Some(*account),
            Violation::HoldsExceedReserved { account, .. } => Some(*account),
            _ => None,
        }
    }

    /// The report of the violation, with the given text of the account that it concerns.
    pub fn message_for(&self, account: &str) -> (text: String)
        requires
            self.wf(),
        ensures
            text@ == message_text(*self, account@),
    {
        match self {
            Violation::NoProvider { consumers, providers, .. } => {
                let mut text: String = "Invalid consumer/provider state for account ".to_string();
                text.append(account);
                text.append(": consumers=");
                push_decimal(&mut text, *consumers as u128);
                text.append(", providers=");
                push_decimal(&mut text, *providers as u128);
                text
            },
            Violation::FrozenMismatch { max_lock, frozen, .. } => {
                let mut text: String = "Max lock should equal frozen balance for ".to_string();
                text.append(account);
                text.append(": max_lock=");
                push_decimal(&mut text, *max_lock);
                text.append(", frozen=");
                push_decimal(&mut text, *frozen);
                text
            },
            Violation::HoldsExceedReserved { sum_holds, reserved, .. } => {
                let mut text: String = "Sum of holds (".to_string();
                push_decimal(&mut text, *sum_holds);
                text.append(") exceeds reserved balance (");
                push_decimal(&mut text, *reserved);
                text.append(") for ");
                text.append(account);
                text
            },
            Violation::IssuanceMismatch { recorded, counted, free, reserved } => {
                let mut text: String = "Total issuance mismatch: recorded=".to_string();
                push_decimal(&mut text, *recorded);
                text.append(", counted=");
                push_decimal(&mut text, *counted);
                text.append(" (free=");
                push_decimal(&mut text, *free);
                text.append(", reserved=");
                push_decimal(&mut text, *reserved);
                text.append(")");
                text
            },
            Violation::IssuanceIncreased { initial, total } => {
                let mut text: String = "Issuance increased! initial=".to_string();
                push_decimal(&mut text, *initial);
                text.append(", final=");
                push_decimal(&mut text, *total);
                text.append(", diff=+");
                push_decimal(&mut text, *total - *initial);
                text
            },
            _ => "attempt to add with overflow".to_string(),
        }
    }

    /// The report of the violation. The text of the account follows the address format of the
    /// process.
    pub fn message(&self) -> (text: String)
        requires
            self.wf(),
        ensures
            match concerned(*self) {
                Some(account) => exists|shown: Seq<char>|
                    #[trigger] shows_account(account.bytes@, shown) && text@ == message_text(
                        *self,
                        shown,
                    ),
                None => text@ == message_text(*self, Seq::empty()),
            },
    {
        match self.account() {
            Some(account) => {
                let shown: String = account.to_text();
                self.message_for(shown.as_str())
            },
            None => self.message_for(""),
        }
    }
}

/// A step of the transfer campaign after which the total issuance is read.
#[derive(Debug, Clone, Copy, PartialEq, Eq, Structural)]
pub enum Step {
    InitializeBlock,
    TimestampSet,
    Dispatch,
    Finalize,
}

/// The name of a step.
pub open spec fn step_name(step: Step) -> Seq<char> {
    match step {
        Step::InitializeBlock => "initialize_block"@,
        Step::TimestampSet => "timestamp set"@,
        Step::Dispatch => "dispatch"@,
        Step::Finalize => "finalize"@,
    }
}

/// A step that changed the total issuance.
#[derive(Debug, Clone, Copy, PartialEq, Eq, Structural)]
pub struct IssuanceChange {
    pub step: Step,
    pub before: Balance,
    pub after: Balance,
}

impl IssuanceChange {
    /// The report of the change.
    pub fn message(&self) -> (text: String)
        ensures
            text@ == "Issuance changed during "@ + step_name(self.step) + ": "@ + decimal(
                self.before as nat,
            ) + " -> "@ + decimal(self.after as nat),
    {
        let mut text: String = "Issuance changed during ".to_string();
        let name: &str = match self.step {
            Step::InitializeBlock => "initialize_block",
            Step::TimestampSet => "timestamp set",
            Step::Dispatch => "dispatch",
            Step::Finalize => "finalize",
        };
        text.append(name);
        text.append(": ");
        push_decimal(&mut text, self.before);
        text.append(" -> ");
        push_decimal(&mut text, self.after);
        text
    }
}

/// The change at `step`, if the issuance differs before and after it.
pub open spec fn change_at(step: Step, before: Balance, after: Balance) -> Seq<IssuanceChange> {
    if before == after {
        Seq::empty()
    } else {
        seq![IssuanceChange { step, before, after }]
    }
}

/// The steps that changed the total issuance, given what it was at first and after each step.
pub fn issuance_changes(
    initial: Balance,
    after_init: Balance,
    after_timestamp: Balance,
    after_dispatch: Balance,
    after_finalize: Balance,
) -> (changes: Vec<IssuanceChange>)
    ensures
        changes@ == change_at(Step::InitializeBlock, initial, after_init) + change_at(
            Step::TimestampSet,
            after_init,
            after_timestamp,
        ) + change_at(Step::Dispatch, after_timestamp, after_dispatch) + change_at(
            Step::Finalize,
            after_dispatch,
            after_finalize,
        ),
{
    let mut changes: Vec<IssuanceChange> = Vec::new();
    if initial != after_init {
        changes.push(
            IssuanceChange { step: Step::InitializeBlock, before: initial, after: after_init },
        );
    }
    if after_init != after_timestamp {
        changes.push(
            IssuanceChange { step: Step::TimestampSet, before: after_init, after: after_timestamp },
        );
    }
    if after_timestamp != after_dispatch {
        changes.push(
            IssuanceChange { step: Step::Dispatch, before: after_timestamp, after: after_dispatch },
        );
    }
    if after_dispatch != after_finalize {
        changes.push(
            IssuanceChange { step: Step::Finalize, before: after_dispatch, after: after_finalize },
        );
    }
    changes
}

/// All of `amounts` added up, from the first one on.
pub open spec fn added_up(amounts: Seq<Balance>) -> int {
    amounts.fold_left(0int, |sum: int, amount: Balance| sum + amount)
}

/// The free balances of `accounts` added up, from the first one on.
pub open spec fn free_added_up(accounts: Seq<AccountState>) -> int {
    accounts.fold_left(0int, |sum: int, state: AccountState| sum + state.free)
}

/// The reserved balances of `accounts` added up, from the first one on.
pub open spec fn reserved_added_up(accounts: Seq<AccountState>) -> int {
    accounts.fold_left(0int, |sum: int, state: AccountState| sum + state.reserved)
}

/// Whether `amount` is the largest of `amounts`: none is larger, and it is one of them, or zero
/// where there are none.
pub open spec fn tops(amount: int, amounts: Seq<Balance>) -> bool {
    &&& forall|i: int| 0 <= i < amounts.len() ==> #[trigger] amounts[i] <= amount
    &&& amounts.len() > 0 ==> exists|i: int|
        0 <= i < amounts.len() && #[trigger] amounts[i] == amount
    &&& amounts.len() == 0 ==> amount == 0
}

/// Whether an account is in order, said of its fields: it has a provider or no consumer, its
/// largest lock is what is frozen, and its holds do not add up to more than what is reserved.
pub open spec fn in_order(state: AccountState) -> bool {
    &&& state.providers > 0 || state.consumers == 0
    &&& tops(state.frozen as int, state.locks@)
    &&& added_up(state.holds@) <= state.reserved
}

/// Whether the first `count` accounts are in order, and neither their free nor their reserved
/// balances add up to more than a balance can be.
pub open spec fn in_order_up_to(accounts: Seq<AccountState>, count: int) -> bool {
    &&& forall|i: int| 0 <= i < count ==> in_order(#[trigger] accounts[i])
    &&& free_added_up(accounts.take(count)) <= Balance::MAX
    &&& reserved_added_up(accounts.take(count)) <= Balance::MAX
}

proof fn sum_adds_up(amounts: Seq<Balance>)
    ensures
        sum_of(amounts) == added_up(amounts),
    decreases amounts.len(),
{
    if amounts.len() > 0 {
        sum_adds_up(amounts.drop_last());
    }
}

proof fn totals_add_up(accounts: Seq<AccountState>, count: int)
    requires
        0 <= count <= accounts.len(),
    ensures
        free_total(accounts, count) == free_added_up(accounts.take(count)),
        reserved_total(accounts, count) == reserved_added_up(accounts.take(count)),
    decreases count,
{
    if count > 0 {
        totals_add_up(accounts, count - 1);
        totals_step(accounts, count - 1);
        assert(accounts.take(count).drop_last() =~= accounts.take(count - 1));
    }
}

proof fn greatest_tops(amounts: Seq<Balance>, amount: int)
    ensures
        tops(amount, amounts) <==> greatest(amounts) == amount,
{
    greatest_is_the_maximum(amounts);
}

proof fn sound_is_in_order(state: AccountState)
    ensures
        is_sound(state) <==> in_order(state),
{
    greatest_tops(state.locks@, state.frozen as int);
    sum_adds_up(state.holds@);
}

proof fn clean_is_in_order(accounts: Seq<AccountState>, count: int)
    requires
        0 <= count <= accounts.len(),
    ensures
        clean_up_to(accounts, count) <==> in_order_up_to(accounts, count),
{
    totals_add_up(accounts, count);
    assert forall|i: int| 0 <= i < count implies (is_sound(#[trigger] accounts[i]) <==> in_order(
        accounts[i],
    )) by {
        sound_is_in_order(accounts[i]);
    }
}

/// A check passes exactly where every account is in order, the free and the reserved balances of
/// all accounts add up to the total issuance, and this is not above what it was.
pub proof fn check_passes_where_all_is_in_order(
    accounts: Seq<AccountState>,
    initial_issuance: Balance,
    total_issuance: Balance,
)
    ensures
        invariants_hold(accounts, initial_issuance, total_issuance) <==> {
            &&& forall|i: int| 0 <= i < accounts.len() ==> in_order(#[trigger] accounts[i])
            &&& free_added_up(accounts) + reserved_added_up(accounts) == total_issuance
            &&& total_issuance <= initial_issuance
        },
{
    let n = accounts.len() as int;
    assert(accounts.take(n) =~= accounts);
    totals_add_up(accounts, n);
    assert forall|i: int| 0 <= i < n implies (is_sound(#[trigger] accounts[i]) <==> in_order(
        accounts[i],
    )) by {
        sound_is_in_order(accounts[i]);
    }
}

/// An account is reported for its references only if it has a consumer and no provider, and no
/// check passes where there is such an account. One with a provider or without consumers is never
/// reported for that.
pub proof fn only_missing_providers_are_reported(
    accounts: Seq<AccountState>,
    initial_issuance: Balance,
    total_issuance: Balance,
    account: AccountId,
    consumers: u32,
    providers: u32,
)
    ensures
        is_reported(
            accounts,
            initial_issuance,
            total_issuance,
            Violation::NoProvider { account, consumers, providers },
        ) ==> consumers > 0 && providers == 0 && exists|i: int|
            {
                &&& 0 <= i < accounts.len()
                &&& (#[trigger] accounts[i]).account == account
                &&& accounts[i].consumers == consumers
                &&& accounts[i].providers == providers
            },
        invariants_hold(accounts, initial_issuance, total_issuance) ==> forall|i: int|
            0 <= i < accounts.len() ==> (#[trigger] accounts[i]).consumers == 0
                || accounts[i].providers > 0,
{
    let violation = Violation::NoProvider { account, consumers, providers };
    if is_reported(accounts, initial_issuance, total_issuance, violation) {
        let i = choose|i: int|
            0 <= i < accounts.len() && #[trigger] found_at(accounts, i, violation);
        assert(accounts[i].account == account);
    }
    if invariants_hold(accounts, initial_issuance, total_issuance) {
        assert forall|i: int| 0 <= i < accounts.len() implies (#[trigger] accounts[i]).consumers == 0
            || accounts[i].providers > 0 by {
            assert(is_sound(accounts[i]));
        }
    }
}

/// Whether `violation` is the first thing that is wrong with the account at position `i`, said of
/// its fields. Its references are looked at first, then the totals up to it, its locks and its
/// holds.
pub open spec fn is_first_wrong(accounts: Seq<AccountState>, i: int, violation: Violation) -> bool {
    let state = accounts[i];
    let free = free_added_up(accounts.take(i + 1));
    let reserved_so_far = reserved_added_up(accounts.take(i + 1));
    if state.consumers > 0 && state.providers == 0 {
        violation == Violation::NoProvider {
            account: state.account,
            consumers: state.consumers,
            providers: 0,
        }
    } else if free > Balance::MAX || reserved_so_far > Balance::MAX {
        violation == Violation::TotalOverflow { account: state.account }
    } else if !tops(state.frozen as int, state.locks@) {
        violation matches Violation::FrozenMismatch { account, max_lock, frozen } && account
            == state.account && tops(max_lock as int, state.locks@) && frozen == state.frozen
    } else if added_up(state.holds@) > Balance::MAX {
        violation == Violation::HoldsOverflow { account: state.account }
    } else {
        violation matches Violation::HoldsExceedReserved { account, sum_holds, reserved } && account
            == state.account && sum_holds == added_up(state.holds@) && reserved == state.reserved
            && sum_holds > reserved
    }
}

/// What is wrong with the first account that is not in order, or with which the totals can no
/// longer be counted, is what is reported.
pub proof fn first_wrong_account_is_reported(
    accounts: Seq<AccountState>,
    initial_issuance: Balance,
    total_issuance: Balance,
    i: int,
    violation: Violation,
)
    requires
        0 <= i < accounts.len(),
        in_order_up_to(accounts, i),
        !in_order_up_to(accounts, i + 1),
    ensures
        is_reported(accounts, initial_issuance, total_issuance, violation) ==> is_first_wrong(
            accounts,
            i,
            violation,
        ),
        !invariants_hold(accounts, initial_issuance, total_issuance),
{
    let state = accounts[i];
    clean_is_in_order(accounts, i);
    clean_is_in_order(accounts, i + 1);
    totals_add_up(accounts, i + 1);
    totals_grow(accounts, i + 1, accounts.len() as int);
    sound_is_in_order(state);
    sum_adds_up(state.holds@);
    greatest_tops(state.locks@, state.frozen as int);
    greatest_tops(state.locks@, greatest(state.locks@) as int);
    if is_reported(accounts, initial_issuance, total_issuance, violation) {
        if exists|j: int| 0 <= j < accounts.len() && #[trigger] found_at(accounts, j, violation) {
            let j = choose|j: int|
                0 <= j < accounts.len() && #[trigger] found_at(accounts, j, violation);
            if j < i {
                assert(is_sound(accounts[j]));
                totals_grow(accounts, j + 1, i);
            } else if j > i {
                totals_grow(accounts, i + 1, j);
                assert(is_sound(accounts[i]));
                assert forall|k: int| 0 <= k < i + 1 implies is_sound(#[trigger] accounts[k]) by {}
            }
        } else {
            assert(clean_up_to(accounts, accounts.len() as int));
            assert forall|k: int| 0 <= k < i + 1 implies is_sound(#[trigger] accounts[k]) by {}
        }
    }
    if invariants_hold(accounts, initial_issuance, total_issuance) {
        assert forall|k: int| 0 <= k < i + 1 implies is_sound(#[trigger] accounts[k]) by {}
    }
}

/// Where all accounts are in order, what is reported is said of the issuance: that it cannot be
/// counted, that it is not what was counted, or that it has grown, in this order.
pub proof fn wrong_issuance_is_reported(
    accounts: Seq<AccountState>,
    initial_issuance: Balance,
    total_issuance: Balance,
    violation: Violation,
)
    requires
        in_order_up_to(accounts, accounts.len() as int),
    ensures
        ({
            let free = free_added_up(accounts);
            let reserved = reserved_added_up(accounts);
            is_reported(accounts, initial_issuance, total_issuance, violation) <==> if free
                + reserved > Balance::MAX {
                violation == Violation::IssuanceOverflow
            } else if free + reserved != total_issuance {
                violation == Violation::IssuanceMismatch {
                    recorded: total_issuance,
                    counted: (free + reserved) as Balance,
                    free: free as Balance,
                    reserved: reserved as Balance,
                }
            } else {
                total_issuance > initial_issuance && violation == Violation::IssuanceIncreased {
                    initial: initial_issuance,
                    total: total_issuance,
                }
            }
        }),
{
    let n = accounts.len() as int;
    assert(accounts.take(n) =~= accounts);
    clean_is_in_order(accounts, n);
    totals_add_up(accounts, n);
    if exists|j: int| 0 <= j < accounts.len() && #[trigger] found_at(accounts, j, violation) {
        let j = choose|j: int|
            0 <= j < accounts.len() && #[trigger] found_at(accounts, j, violation);
        assert(is_sound(accounts[j]));
        totals_grow(accounts, j + 1, n);
    }
}

/// What is found at an account concerns that account, and what is found of the issuance none. The
/// account that a violation names is the one that it concerns.
pub proof fn violations_concern_their_account(
    accounts: Seq<AccountState>,
    initial_issuance: Balance,
    total_issuance: Balance,
    i: int,
    violation: Violation,
)
    ensures
        violation matches Violation::NoProvider { account, .. } ==> concerned(violation) == Some(
            account,
        ),
        violation matches Violation::TotalOverflow { account } ==> concerned(violation) == Some(
            account,
        ),
        violation matches Violation::FrozenMismatch { account, .. } ==> concerned(violation)
            == Some(account),
        violation matches Violation::HoldsOverflow { account } ==> concerned(violation) == Some(
            account,
        ),
        violation matches Violation::HoldsExceedReserved { account, .. } ==> concerned(violation)
            == Some(account),
        violation is IssuanceOverflow || violation is IssuanceMismatch
            || violation is IssuanceIncreased ==> concerned(violation) is None,
        found_at(accounts, i, violation) ==> concerned(violation) == Some(accounts[i].account),
        found_in_total(accounts, initial_issuance, total_issuance, violation) ==> concerned(
            violation,
        ) is None,
{
}

/// The reports of violations, with the numbers in their places.
pub proof fn messages_name_the_numbers(
    account: AccountId,
    shown: Seq<char>,
    a: Balance,
    b: Balance,
    c: Balance,
    d: Balance,
    consumers: u32,
    providers: u32,
)
    ensures
        message_text(Violation::NoProvider { account, consumers, providers }, shown)
            == "Invalid consumer/provider state for account "@ + shown + ": consumers="@ + decimal(
            consumers as nat,
        ) + ", providers="@ + decimal(providers as nat),
        message_text(Violation::FrozenMismatch { account, max_lock: a, frozen: b }, shown)
            == "Max lock should equal frozen balance for "@ + shown + ": max_lock="@ + decimal(
            a as nat,
        ) + ", frozen="@ + decimal(b as nat),
        message_text(Violation::HoldsExceedReserved { account, sum_holds: a, reserved: b }, shown)
            == "Sum of holds ("@ + decimal(a as nat) + ") exceeds reserved balance ("@ + decimal(
            b as nat,
        ) + ") for "@ + shown,
        message_text(
            Violation::IssuanceMismatch { recorded: a, counted: b, free: c, reserved: d },
            shown,
        ) == "Total issuance mismatch: recorded="@ + decimal(a as nat) + ", counted="@ + decimal(
            b as nat,
        ) + " (free="@ + decimal(c as nat) + ", reserved="@ + decimal(d as nat) + ")"@,
        a <= b ==> message_text(Violation::IssuanceIncreased { initial: a, total: b }, shown)
            == "Issuance increased! initial="@ + decimal(a as nat) + ", final="@ + decimal(b as nat)
            + ", diff=+"@ + decimal((b - a) as nat),
        message_text(Violation::TotalOverflow { account }, shown)
            == "attempt to add with overflow"@,
        message_text(Violation::HoldsOverflow { account }, shown)
            == "attempt to add with overflow"@,
        message_text(Violation::IssuanceOverflow, shown) == "attempt to add with overflow"@,
{
}

/// The changes of the issuance over the four steps: a step is listed exactly if the issuance
/// differs before and after it, and the listed differences make up the whole change.
pub proof fn changes_make_up_the_difference(step: Step, before: Balance, after: Balance)
    ensures
        ({
            let changes = change_at(step, before, after);
            &&& changes.fold_left(
                0int,
                |sum: int, change: IssuanceChange| sum + change.after - change.before,
            ) == after - before
            &&& forall|i: int|
                0 <= i < changes.len() ==> (#[trigger] changes[i]).step == step && changes[i].before
                    == before && changes[i].after == after
            &&& changes.len() == if before == after {
                0nat
            } else {
                1nat
            }
        }),
{
    let changes = change_at(step, before, after);
    reveal_with_fuel(Seq::fold_left, 2);
    if before != after {
        assert(changes.drop_last() =~= Seq::empty());
    }
}

/// The names under which the steps are reported.
pub proof fn steps_are_named(step: Step)
    ensures
        step_name(step) == match step {
            Step::InitializeBlock => "initialize_block"@,
            Step::TimestampSet => "timestamp set"@,
            Step::Dispatch => "dispatch"@,
            Step::Finalize => "finalize"@,
        },
{
}

} // verus!
