use runtime_fuzzing::accounts::AccountId;
use runtime_fuzzing::chain::{initialize_block, initialize_transfer_block};
use runtime_fuzzing::genesis::{first_accounts, genesis_config, genesis_with_key, minimal_genesis};

const DOLLARS: u128 = 100_000_000_000_000;

#[test]
fn block_claims_the_slot_of_its_number() {
    let start = initialize_block(0x0102_0304, [9; 32], 3000);
    assert_eq!(start.header.number, 0x0102_0304);
    assert_eq!(start.header.parent_hash, [9; 32]);
    assert_eq!(start.header.extrinsics_root, [0; 32]);
    assert_eq!(start.header.state_root, [0; 32]);
    assert_eq!(start.header.digest.len(), 1);
    assert_eq!(&start.header.digest[0].engine, b"BABE");
    assert_eq!(start.header.digest[0].data, vec![2, 0, 0, 0, 0, 4, 3, 2, 1, 0, 0, 0, 0]);
    assert_eq!(start.timestamp, 0x0102_0304 * 3000);
}

#[test]
fn transfer_block_is_the_first() {
    let start = initialize_transfer_block(3000);
    assert_eq!(start.header.number, 1);
    assert_eq!(start.header.parent_hash, [0; 32]);
    assert_eq!(start.header.digest[0].data, vec![2, 42, 0, 0, 0, 1, 0, 0, 0, 0, 0, 0, 0]);
    assert_eq!(start.timestamp, 3000);
}

#[test]
fn genesis_endows_a_hundred_accounts() {
    let config = genesis_config(DOLLARS);
    assert_eq!(config.balances.len(), 100);
    for (i, (account, amount)) in config.balances.iter().enumerate() {
        assert_eq!(account.bytes, [i as u8; 32]);
        assert_eq!(*amount, 10_000_000 * DOLLARS);
    }
    let total: u128 = config.balances.iter().map(|b| b.1).sum();
    assert_eq!(total, 100 * 10_000_000 * DOLLARS);
    assert!(config.dev_accounts.is_none());
    assert!(config.non_authority_keys.is_empty());
}

#[test]
fn genesis_has_one_authority() {
    let key = [7u8; 33];
    let config = genesis_with_key(&first_accounts(2), DOLLARS, key);
    assert_eq!(config.balances.len(), 2);
    assert_eq!(config.session_keys.len(), 1);
    let authority = config.session_keys[0];
    assert_eq!(authority.account, AccountId::from_index(0));
    assert_eq!(authority.stash, AccountId::from_index(0));
    assert_eq!(authority.keys.beefy, key);
    assert_eq!(authority.keys.grandpa, [0; 32]);
    assert_eq!(authority.keys.babe, [0; 32]);
    assert_eq!(authority.keys.im_online, [0; 32]);
    assert_eq!(authority.keys.authority_discovery, [0; 32]);
    assert_eq!(authority.keys.mixnet, [0; 32]);
}

#[test]
fn beefy_keys_are_fresh() {
    let accounts = first_accounts(5);
    let a = minimal_genesis(&accounts, DOLLARS).session_keys[0].keys.beefy;
    let b = minimal_genesis(&accounts, DOLLARS).session_keys[0].keys.beefy;
    assert_ne!(a, b);
    assert!(a[0] == 2 || a[0] == 3);
    assert!(b[0] == 2 || b[0] == 3);
}
