use arbitrary::Unstructured;
use runtime_fuzzing::accounts::AccountId;
use runtime_fuzzing::calls::{
    endowment, gen_force_set_balance, gen_force_transfer, gen_force_vested_transfer,
    gen_transfer_all, gen_transfer_allow_death, gen_transfer_keep_alive, gen_vest,
    gen_vested_transfer, ArbitraryRuntimeCall, BalancesCall, CallOrigin, Generator, RuntimeCall,
    VestingCall, VestingInfo, GENESIS_ACCOUNTS,
};
use runtime_fuzzing::selection::{call_specs, choose_generator, CallSpec};

const DOLLARS: u128 = 100_000_000_000_000;

fn account(index: u8) -> AccountId {
    AccountId::from_index(index)
}

#[test]
fn endowment_is_ten_million_dollars() {
    assert_eq!(endowment(DOLLARS), 1_000_000_000_000_000_000_000);
}

#[test]
fn indices_repeat_in_accounts() {
    assert_eq!(account(7).bytes, [7u8; 32]);
    assert_ne!(account(7), account(8));
}

#[test]
fn transfer_reads_sender_receiver_and_amount() {
    let data = [7, 150, 0, 0, 0, 0, 0, 0, 0, 0, 1, 2, 99];
    let mut u = Unstructured::new(&data);
    let expected = RuntimeCall::Balances(BalancesCall::TransferAllowDeath {
        dest: account(50),
        value: 0x0102,
    });
    assert_eq!(gen_transfer_allow_death(&mut u, DOLLARS), Ok((expected, CallOrigin::Signed(7))));
    assert_eq!(u.len(), 1);
}

#[test]
fn amounts_are_reduced_to_a_hundred_endowments() {
    let data = [0, 0, 255, 255, 255, 255, 255, 255, 255, 255, 255, 255];
    let mut u = Unstructured::new(&data);
    let most = 100 * endowment(DOLLARS);
    let expected = RuntimeCall::Balances(BalancesCall::TransferKeepAlive {
        dest: account(0),
        value: 0xffff_ffff_ffff_ffff_ffff % (most + 1),
    });
    assert_eq!(gen_transfer_keep_alive(&mut u, DOLLARS), Ok((expected, CallOrigin::Signed(0))));
}

#[test]
fn transfer_all_reads_a_flag() {
    let mut u = Unstructured::new(&[1, 2, 1]);
    let expected =
        RuntimeCall::Balances(BalancesCall::TransferAll { dest: account(2), keep_alive: true });
    assert_eq!(gen_transfer_all(&mut u), Ok((expected, CallOrigin::Signed(1))));
}

#[test]
fn forced_calls_come_from_the_root() {
    let mut u = Unstructured::new(&[1, 2, 0, 0, 0, 0, 0, 0, 0, 0, 0, 3]);
    let expected = RuntimeCall::Balances(BalancesCall::ForceTransfer {
        source: account(1),
        dest: account(2),
        value: 3,
    });
    assert_eq!(gen_force_transfer(&mut u, DOLLARS), Ok((expected, CallOrigin::Root)));
    let mut u = Unstructured::new(&[4, 0, 0, 0, 0, 0, 0, 0, 0, 0, 5]);
    let expected =
        RuntimeCall::Balances(BalancesCall::ForceSetBalance { who: account(4), new_free: 5 });
    assert_eq!(gen_force_set_balance(&mut u, DOLLARS), Ok((expected, CallOrigin::Root)));
}

#[test]
fn schedules_start_at_a_hundred_dollars() {
    let data = [1, 2, 0, 0, 0, 0, 0, 0, 0, 0, 0, 5, 0, 0, 0, 0, 0, 9, 0, 3];
    let mut u = Unstructured::new(&data);
    let schedule =
        VestingInfo { locked: 100 * DOLLARS + 5, per_block: 10, starting_block: 4 };
    let expected =
        RuntimeCall::Vesting(VestingCall::VestedTransfer { target: account(2), schedule });
    assert_eq!(gen_vested_transfer(&mut u, DOLLARS), Ok((expected, CallOrigin::Signed(1))));
    assert_eq!(u.len(), 0);
    let mut u = Unstructured::new(&data);
    let expected = RuntimeCall::Vesting(VestingCall::ForceVestedTransfer {
        source: account(1),
        target: account(2),
        schedule,
    });
    assert_eq!(gen_force_vested_transfer(&mut u, DOLLARS), Ok((expected, CallOrigin::Root)));
}

#[test]
fn worthless_dollars_still_unlock_one_unit() {
    let mut u = Unstructured::new(&[1, 2, 255, 255, 255, 255]);
    let (call, _) = gen_vested_transfer(&mut u, 0).unwrap();
    let schedule = VestingInfo { locked: 0, per_block: 1, starting_block: 1 + 0xffff % 1000 };
    assert_eq!(
        call,
        RuntimeCall::Vesting(VestingCall::VestedTransfer { target: account(2), schedule })
    );
}

#[test]
fn vest_reads_only_its_sender() {
    let mut u = Unstructured::new(&[99, 1]);
    assert_eq!(
        gen_vest(&mut u),
        Ok((RuntimeCall::Vesting(VestingCall::Vest), CallOrigin::Signed(99)))
    );
    assert_eq!(u.len(), 1);
}

#[test]
fn origins_name_their_account() {
    assert_eq!(CallOrigin::Signed(3).account(), Some(account(3)));
    assert_eq!(CallOrigin::Root.account(), None);
}

#[test]
fn weights_divide_the_draws() {
    let specs = call_specs();
    let total: u32 = specs.iter().map(|s| s.weight).sum();
    assert_eq!(total, 43);
    assert_eq!(choose_generator(&specs, 0), Generator::TransferAllowDeath);
    assert_eq!(choose_generator(&specs, 0x5000_0000), Generator::TransferKeepAlive);
    assert_eq!(choose_generator(&specs, 0x8000_0000), Generator::TransferAll);
    assert_eq!(choose_generator(&specs, 0x9800_0000), Generator::ForceTransfer);
    assert_eq!(choose_generator(&specs, 0xa200_0000), Generator::ForceSetBalance);
    assert_eq!(choose_generator(&specs, 0xb000_0000), Generator::VestedTransfer);
    assert_eq!(choose_generator(&specs, 0xd800_0000), Generator::Vest);
    assert_eq!(choose_generator(&specs, 0xf600_0000), Generator::ForceVestedTransfer);
    assert_eq!(choose_generator(&specs, u32::MAX - 1), Generator::ForceVestedTransfer);
    assert_eq!(choose_generator(&specs, u32::MAX), Generator::TransferAllowDeath);
}

#[test]
fn each_kind_gets_its_share() {
    let specs = call_specs();
    let expected = [10, 10, 5, 2, 1, 8, 5, 2];
    let mut counts = [0u32; 8];
    let part = u32::MAX / 43;
    for i in 0..43u32 {
        let generator = choose_generator(&specs, i * part + part / 2);
        let position = specs.iter().position(|s| s.generator == generator).unwrap();
        counts[position] += 1;
    }
    assert_eq!(counts, expected);
}

#[test]
fn other_tables_work_too() {
    let specs = vec![
        CallSpec { weight: 0, generator: Generator::Vest },
        CallSpec { weight: 1, generator: Generator::TransferAll },
    ];
    assert_eq!(choose_generator(&specs, 0), Generator::TransferAll);
    assert_eq!(choose_generator(&specs, u32::MAX), Generator::Vest);
}

#[test]
fn call_is_chosen_then_filled() {
    let mut u = Unstructured::new(&[0xd8, 0, 0, 0, 12]);
    assert_eq!(
        ArbitraryRuntimeCall::arbitrary(&mut u, DOLLARS),
        Ok(ArbitraryRuntimeCall {
            call: RuntimeCall::Vesting(VestingCall::Vest),
            origin: CallOrigin::Signed(12),
        })
    );
    assert_eq!(u.len(), 0);
}

#[test]
fn no_data_transfers_nothing() {
    let mut u = Unstructured::new(&[]);
    assert_eq!(
        ArbitraryRuntimeCall::arbitrary(&mut u, DOLLARS),
        Ok(ArbitraryRuntimeCall {
            call: RuntimeCall::Balances(BalancesCall::TransferAllowDeath {
                dest: account(0),
                value: 0,
            }),
            origin: CallOrigin::Signed(0),
        })
    );
}

#[test]
fn signed_calls_come_from_genesis_accounts() {
    for first in 0..=255u8 {
        let data = [first; 40];
        let mut u = Unstructured::new(&data);
        let generated = ArbitraryRuntimeCall::arbitrary(&mut u, DOLLARS).unwrap();
        if let CallOrigin::Signed(index) = generated.origin {
            assert!(index < GENESIS_ACCOUNTS);
        }
    }
}
