use arbitrary::Unstructured;
use runtime_fuzzing::accounts::AccountId;
use runtime_fuzzing::calls::{BalancesCall, RuntimeCall};
use runtime_fuzzing::genesis::first_accounts;
use runtime_fuzzing::transfer::{ArbitraryRuntimeCall, FuzzInput, TRANSFER_ACCOUNTS};

fn transfer(dest: u8, value: u128) -> ArbitraryRuntimeCall {
    ArbitraryRuntimeCall(RuntimeCall::Balances(BalancesCall::TransferAllowDeath {
        dest: AccountId::from_index(dest),
        value,
    }))
}

#[test]
fn input_is_sender_receiver_amount() {
    let mut data = vec![7, 200];
    data.extend_from_slice(&123_456_789_012_345_678_901_234_567_890u128.to_le_bytes());
    assert_eq!(
        FuzzInput::from_bytes(&data),
        Ok(FuzzInput {
            origin_idx: 7,
            call: transfer(200, 123_456_789_012_345_678_901_234_567_890),
        })
    );
}

#[test]
fn missing_bytes_are_zero() {
    assert_eq!(FuzzInput::from_bytes(&[]), Ok(FuzzInput { origin_idx: 0, call: transfer(0, 0) }));
    assert_eq!(
        FuzzInput::from_bytes(&[1, 2, 3]),
        Ok(FuzzInput { origin_idx: 1, call: transfer(2, 3) })
    );
}

#[test]
fn transfer_leaves_the_rest() {
    let mut u = Unstructured::new(&[9, 1, 0, 0, 0, 0, 0, 0, 0, 0, 0, 0, 0, 0, 0, 0, 0, 55]);
    assert_eq!(ArbitraryRuntimeCall::arbitrary(&mut u), Ok(transfer(9, 1)));
    assert_eq!(u.len(), 1);
}

#[test]
fn sender_is_one_of_the_accounts() {
    let accounts = first_accounts(TRANSFER_ACCOUNTS);
    assert_eq!(accounts.len(), 5);
    let input = FuzzInput::from_bytes(&[13]).unwrap();
    assert_eq!(input.origin(&accounts), AccountId::from_index(3));
}
