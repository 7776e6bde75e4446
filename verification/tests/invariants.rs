use runtime_fuzzing::accounts::AccountId;
use runtime_fuzzing::invariants::{
    check_invariants, issuance_changes, AccountState, IssuanceChange, Step, Violation,
};

fn state(index: u8, free: u128, reserved: u128) -> AccountState {
    AccountState {
        account: AccountId::from_index(index),
        consumers: 0,
        providers: 1,
        free,
        reserved,
        frozen: 0,
        locks: vec![],
        holds: vec![],
    }
}

#[test]
fn sound_chain_passes() {
    let mut second = state(2, 50, 20);
    second.consumers = 1;
    second.frozen = 9;
    second.locks = vec![3, 9, 1];
    second.holds = vec![15, 5];
    let accounts = vec![state(1, 30, 0), second];
    assert_eq!(check_invariants(&accounts, 100, 100), Ok(()));
    assert_eq!(check_invariants(&accounts, 101, 100), Ok(()));
    assert_eq!(check_invariants(&vec![], 0, 0), Ok(()));
}

#[test]
fn consumers_need_a_provider() {
    let mut bad = state(2, 0, 0);
    bad.consumers = 3;
    bad.providers = 0;
    let violation = Violation::NoProvider {
        account: AccountId::from_index(2),
        consumers: 3,
        providers: 0,
    };
    assert_eq!(check_invariants(&vec![state(1, 5, 0), bad], 5, 5), Err(violation));
    assert_eq!(
        violation.message(),
        format!(
            "Invalid consumer/provider state for account {}: consumers=3, providers=0",
            AccountId::from_index(2).to_text()
        )
    );
}

#[test]
fn totals_must_be_countable() {
    let first = AccountId::from_index(2);
    let accounts = vec![state(1, u128::MAX, 0), state(2, 1, 0)];
    assert_eq!(
        check_invariants(&accounts, 0, 0),
        Err(Violation::TotalOverflow { account: first })
    );
    let accounts = vec![state(1, 0, u128::MAX), state(2, 0, 1)];
    assert_eq!(
        check_invariants(&accounts, 0, 0),
        Err(Violation::TotalOverflow { account: first })
    );
    let accounts = vec![state(1, u128::MAX, 1)];
    assert_eq!(check_invariants(&accounts, 0, 0), Err(Violation::IssuanceOverflow));
    assert_eq!(Violation::IssuanceOverflow.message(), "attempt to add with overflow");
}

#[test]
fn largest_lock_is_frozen() {
    let mut bad = state(4, 10, 0);
    bad.locks = vec![2, 7, 5];
    bad.frozen = 8;
    let account = AccountId::from_index(4);
    let violation = Violation::FrozenMismatch { account, max_lock: 7, frozen: 8 };
    assert_eq!(check_invariants(&vec![bad], 10, 10), Err(violation));
    assert_eq!(
        violation.message_for("X"),
        "Max lock should equal frozen balance for X: max_lock=7, frozen=8"
    );
    let mut unlocked = state(4, 10, 0);
    unlocked.frozen = 1;
    assert_eq!(
        check_invariants(&vec![unlocked], 10, 10),
        Err(Violation::FrozenMismatch { account, max_lock: 0, frozen: 1 })
    );
}

#[test]
fn holds_stay_within_reserved() {
    let account = AccountId::from_index(4);
    let mut bad = state(4, 10, 6);
    bad.holds = vec![3, 4];
    let violation = Violation::HoldsExceedReserved { account, sum_holds: 7, reserved: 6 };
    assert_eq!(check_invariants(&vec![bad], 16, 16), Err(violation));
    assert_eq!(
        violation.message_for("X"),
        "Sum of holds (7) exceeds reserved balance (6) for X"
    );
    let mut huge = state(4, 10, 6);
    huge.holds = vec![u128::MAX, 1];
    assert_eq!(
        check_invariants(&vec![huge], 16, 16),
        Err(Violation::HoldsOverflow { account })
    );
}

#[test]
fn issuance_is_the_sum_of_all_balances() {
    let accounts = vec![state(1, 30, 4), state(2, 5, 1)];
    let violation =
        Violation::IssuanceMismatch { recorded: 41, counted: 40, free: 35, reserved: 5 };
    assert_eq!(check_invariants(&accounts, 100, 41), Err(violation));
    assert_eq!(
        violation.message(),
        "Total issuance mismatch: recorded=41, counted=40 (free=35, reserved=5)"
    );
}

#[test]
fn issuance_never_grows() {
    let accounts = vec![state(1, 40, 0)];
    let violation = Violation::IssuanceIncreased { initial: 33, total: 40 };
    assert_eq!(check_invariants(&accounts, 33, 40), Err(violation));
    assert_eq!(violation.message(), "Issuance increased! initial=33, final=40, diff=+7");
}

#[test]
fn first_violation_is_reported() {
    let mut first = state(1, 1, 0);
    first.frozen = 1;
    let mut second = state(2, 1, 0);
    second.consumers = 1;
    second.providers = 0;
    assert_eq!(
        check_invariants(&vec![first, second], 0, 9),
        Err(Violation::FrozenMismatch {
            account: AccountId::from_index(1),
            max_lock: 0,
            frozen: 1,
        })
    );
}

#[test]
fn changes_of_the_issuance_are_listed() {
    assert_eq!(issuance_changes(5, 5, 5, 5, 5), vec![]);
    assert_eq!(
        issuance_changes(5, 6, 6, 4, 3),
        vec![
            IssuanceChange { step: Step::InitializeBlock, before: 5, after: 6 },
            IssuanceChange { step: Step::Dispatch, before: 6, after: 4 },
            IssuanceChange { step: Step::Finalize, before: 4, after: 3 },
        ]
    );
    assert_eq!(
        issuance_changes(0, 0, 340_282_366_920_938_463_463_374_607_431_768_211_455, 1, 1)[0]
            .message(),
        "Issuance changed during timestamp set: 0 -> 340282366920938463463374607431768211455"
    );
    let message = |step| IssuanceChange { step, before: 10, after: 2 }.message();
    assert_eq!(message(Step::InitializeBlock), "Issuance changed during initialize_block: 10 -> 2");
    assert_eq!(message(Step::Dispatch), "Issuance changed during dispatch: 10 -> 2");
    assert_eq!(message(Step::Finalize), "Issuance changed during finalize: 10 -> 2");
}
