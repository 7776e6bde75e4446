//! The state that a chain under test starts from.
use crate::accounts::{indices_name_distinct_accounts, AccountId, Balance};
use crate::calls::{
    endowment, endowment_fits, endowment_of, is_genesis_account, repeated_index, repeats,
    representable, GENESIS_ACCOUNTS,
};
use vstd::prelude::*;

verus! {

/// Public keys with which an authority takes part in the chain.
#[derive(Debug, Clone, Copy, PartialEq, Eq)]
pub struct SessionKeys {
    pub grandpa: [u8; 32],
    pub babe: [u8; 32],
    pub beefy: [u8; 33],
    pub im_online: [u8; 32],
    pub authority_discovery: [u8; 32],
    pub mixnet: [u8; 32],
}

/// An authority: its account, its stash and its keys.
#[derive(Debug, Clone, Copy, PartialEq, Eq)]
pub struct Authority {
    pub account: AccountId,
    pub stash: AccountId,
    pub keys: SessionKeys,
}

/// What differs from the default genesis of the runtime.
#[derive(Debug)]
pub struct GenesisConfig {
    /// The endowed accounts with what they own.
    pub balances: Vec<(AccountId, Balance)>,
    /// Number and endowment of generated development accounts.
    pub dev_accounts: Option<(u32, Balance)>,
    /// The authorities.
    pub session_keys: Vec<Authority>,
    /// Keys of accounts that are no authorities.
    pub non_authority_keys: Vec<Authority>,
}

/// The only authority: all of its identifiers and keys are zero, except for its BEEFY key.
pub open spec fn sole_authority(beefy: [u8; 33]) -> Authority {
    let zero = vstd::array::spec_array_fill_for_copy_type::<u8, 32>(0);
    Authority {
        account: AccountId::repeating(0),
        stash: AccountId::repeating(0),
        keys: SessionKeys {
            grandpa: zero,
            babe: zero,
            beefy,
            im_online: zero,
            authority_discovery: zero,
            mixnet: zero,
        },
    }
}

/// Whether `config` endows each of `accounts` with `amount`, in their order, and has a single
/// authority, with the given BEEFY key.
pub open spec fn endows(
    config: GenesisConfig,
    accounts: Seq<AccountId>,
    amount: nat,
    beefy: [u8; 33],
) -> bool {
    &&& config.balances@ == Seq::new(accounts.len(), |i: int| (accounts[i], amount as Balance))
    &&& config.dev_accounts is None
    &&& config.session_keys@ == seq![sole_authority(beefy)]
    &&& config.non_authority_keys@ == Seq::<Authority>::empty()
}

/// The accounts of the first `count` indices.
pub open spec fn indexed_accounts(count: nat) -> Seq<AccountId> {
    Seq::new(count, |i: int| AccountId::repeating(i as u8))
}

/// The accounts of the first `count` indices.
pub fn first_accounts(count: u8) -> (accounts: Vec<AccountId>)
    ensures
        accounts@ == indexed_accounts(count as nat),
{
    let mut accounts: Vec<AccountId> = Vec::new();
    let mut i: u8 = 0;
    while i < count
        invariant
            i <= count,
            accounts@ == indexed_accounts(i as nat),
        decreases count - i,
    {
        accounts.push(AccountId::from_index(i));
        i = i + 1;
        assert(accounts@ =~= indexed_accounts(i as nat));
    }
    accounts
}

/// Whether `key` starts as the compressed form of a public key does: with the tag for one of the
/// two points that share the coordinate in the other bytes.
pub open spec fn is_compressed_key(key: [u8; 33]) -> bool {
    key@[0] == 2 || key@[0] == 3
}

/// `sp_consensus_beefy::ecdsa_crypto::Pair::generate`, of which only the public key is kept: a
/// point in compressed form. The pair comes from the random numbers of the operating system, and so
/// nothing more is said of the key.
#[verifier::external_body]
fn generated_beefy_key() -> (key: [u8; 33])
    ensures
        is_compressed_key(key),
{
    let pair = <sp_consensus_beefy::ecdsa_crypto::Pair as sp_core::Pair>::generate().0;
    let mut key = [0u8; 33];
    key.copy_from_slice(sp_core::ByteArray::as_slice(&sp_core::Pair::public(&pair)));
    key
}

/// The genesis in which each of `accounts` owns an endowment and the authority has the given BEEFY
/// key.
pub fn genesis_with_key(accounts: &[AccountId], dollars: Balance, beefy: [u8; 33]) -> (config:
    GenesisConfig)
    requires
        representable(dollars),
    ensures
        endows(config, accounts@, endowment_of(dollars), beefy),
{
    let amount: Balance = endowment(dollars);
    let mut balances: Vec<(AccountId, Balance)> = Vec::new();
    for i in 0..accounts.len()
        invariant
            amount == endowment_of(dollars),
            balances@ == Seq::new(i as nat, |k: int| (accounts@[k], amount)),
    {
        balances.push((accounts[i], amount));
        assert(balances@ =~= Seq::new((i + 1) as nat, |k: int| (accounts@[k], amount)));
    }
    let zero: AccountId = AccountId::from_index(0);
    let keys = SessionKeys {
        grandpa: [0u8; 32],
        babe: [0u8; 32],
        beefy,
        im_online: [0u8; 32],
        authority_discovery: [0u8; 32],
        mixnet: [0u8; 32],
    };
    let session_keys: Vec<Authority> = vec![Authority { account: zero, stash: zero, keys }];
    assert(balances@ =~= Seq::new(
        accounts@.len(),
        |k: int| (accounts@[k], endowment_of(dollars) as Balance),
    ));
    assert(session_keys@ =~= seq![sole_authority(beefy)]);
    GenesisConfig { balances, dev_accounts: None, session_keys, non_authority_keys: Vec::new() }
}

/// The genesis in which each of `accounts` owns an endowment and the authority has a fresh BEEFY
/// key.
pub fn minimal_genesis(accounts: &[AccountId], dollars: Balance) -> (config: GenesisConfig)
    requires
        representable(dollars),
    ensures
        exists|beefy: [u8; 33]|
            is_compressed_key(beefy) && endows(
                config,
                accounts@,
                endowment_of(dollars),
                beefy,
            ),
{
    genesis_with_key(accounts, dollars, generated_beefy_key())
}

/// The genesis of the block campaign, with a fresh BEEFY key.
pub fn genesis_config(dollars: Balance) -> (config: GenesisConfig)
    requires
        representable(dollars),
    ensures
        exists|beefy: [u8; 33]|
            is_compressed_key(beefy) && endows(
                config,
                indexed_accounts(GENESIS_ACCOUNTS as nat),
                endowment_of(dollars),
                beefy,
            ),
{
    let accounts: Vec<AccountId> = first_accounts(GENESIS_ACCOUNTS);
    minimal_genesis(accounts.as_slice(), dollars)
}

/// No account is endowed twice.
pub proof fn indexed_accounts_are_distinct(count: nat, i: int, j: int)
    requires
        count <= 256,
        0 <= i < j < count,
    ensures
        indexed_accounts(count)[i] != indexed_accounts(count)[j],
{
    indices_name_distinct_accounts(i as u8, j as u8);
}

/// Every account that a generated call names is endowed at genesis.
pub proof fn generated_accounts_are_endowed(account: AccountId)
    requires
        is_genesis_account(account),
    ensures
        indexed_accounts(GENESIS_ACCOUNTS as nat).contains(account),
{
    let index = choose|index: u8|
        index < GENESIS_ACCOUNTS && account == #[trigger] AccountId::repeating(index);
    assert(indexed_accounts(GENESIS_ACCOUNTS as nat)[index as int] == account);
}

/// The sum of the balances.
pub open spec fn total_of(balances: Seq<(AccountId, Balance)>) -> nat
    decreases balances.len(),
{
    if balances.len() == 0 {
        0
    } else {
        total_of(balances.drop_last()) + balances.last().1 as nat
    }
}

/// At genesis there is one endowment for each account, and no more.
pub proof fn genesis_issues_the_endowments(
    config: GenesisConfig,
    accounts: Seq<AccountId>,
    dollars: Balance,
    beefy: [u8; 33],
)
    requires
        representable(dollars),
        endows(config, accounts, endowment_of(dollars), beefy),
    ensures
        total_of(config.balances@) == accounts.len() * endowment_of(dollars),
{
    let amount = endowment_of(dollars);
    endowment_fits(dollars);
    assert forall|i: int| 0 <= i < config.balances@.len() implies (
    #[trigger] config.balances@[i]).1 == amount by {
        assert(config.balances@[i] == (accounts[i], amount as Balance));
    }
    equal_balances_add_up(config.balances@, amount);
}

proof fn equal_balances_add_up(balances: Seq<(AccountId, Balance)>, amount: nat)
    requires
        forall|i: int| 0 <= i < balances.len() ==> (#[trigger] balances[i]).1 == amount,
    ensures
        total_of(balances) == balances.len() * amount,
    decreases balances.len(),
{
    if balances.len() > 0 {
        equal_balances_add_up(balances.drop_last(), amount);
        assert(balances.last() == balances[balances.len() - 1]);
        assert((balances.len() - 1) * amount + amount == balances.len() * amount)
            by (nonlinear_arith);
    } else {
        assert(balances.len() * amount == 0) by (nonlinear_arith)
            requires
                balances.len() == 0,
        ;
    }
}

/// The account at a position of the first accounts repeats that position in its identifier.
pub proof fn accounts_repeat_their_index(count: nat, i: int)
    requires
        count <= 256,
        0 <= i < count,
    ensures
        indexed_accounts(count).len() == count,
        repeats(indexed_accounts(count)[i], i as u8),
{
    repeated_index(i as u8);
}

/// A genesis in terms of its fields: each account owns its amount, in their order; there are no
/// development accounts; and the only authority has the account, the stash and all keys of zeros,
/// but for the BEEFY key.
pub proof fn genesis_is_readable(
    config: GenesisConfig,
    accounts: Seq<AccountId>,
    amount: nat,
    beefy: [u8; 33],
    i: int,
)
    requires
        endows(config, accounts, amount, beefy),
        amount <= Balance::MAX,
    ensures
        config.balances@.len() == accounts.len(),
        0 <= i < accounts.len() ==> config.balances@[i].0 == accounts[i] && config.balances@[i].1
            == amount,
        config.dev_accounts is None,
        config.non_authority_keys@.len() == 0,
        config.session_keys@.len() == 1,
        config.session_keys@[0].keys.beefy == beefy,
        repeats(config.session_keys@[0].account, 0),
        repeats(config.session_keys@[0].stash, 0),
        forall|k: int| 0 <= k < 32 ==> #[trigger] config.session_keys@[0].keys.grandpa@[k] == 0,
        forall|k: int| 0 <= k < 32 ==> #[trigger] config.session_keys@[0].keys.babe@[k] == 0,
        forall|k: int| 0 <= k < 32 ==> #[trigger] config.session_keys@[0].keys.im_online@[k] == 0,
        forall|k: int|
            0 <= k < 32 ==> #[trigger] config.session_keys@[0].keys.authority_discovery@[k] == 0,
        forall|k: int| 0 <= k < 32 ==> #[trigger] config.session_keys@[0].keys.mixnet@[k] == 0,
{
    assert(config.session_keys@[0] == sole_authority(beefy));
    repeated_index(0);
}

/// The genesis of the block campaign endows a hundred accounts with ten million dollars each, and
/// so issues a thousand million dollars.
pub proof fn block_genesis_issues_a_thousand_million_dollars(
    config: GenesisConfig,
    dollars: Balance,
    beefy: [u8; 33],
)
    requires
        representable(dollars),
        endows(
            config,
            indexed_accounts(GENESIS_ACCOUNTS as nat),
            endowment_of(dollars),
            beefy,
        ),
    ensures
        config.balances@.len() == 100,
        forall|i: int|
            0 <= i < 100 ==> repeats((#[trigger] config.balances@[i]).0, i as u8)
                && config.balances@[i].1 == 10_000_000 * dollars,
        total_of(config.balances@) == 1_000_000_000 * dollars,
{
    let accounts = indexed_accounts(GENESIS_ACCOUNTS as nat);
    endowment_fits(dollars);
    genesis_issues_the_endowments(config, accounts, dollars, beefy);
    assert forall|i: int| 0 <= i < 100 implies repeats((#[trigger] config.balances@[i]).0, i as u8)
        && config.balances@[i].1 == 10_000_000 * dollars by {
        genesis_is_readable(config, accounts, endowment_of(dollars), beefy, i);
        accounts_repeat_their_index(100, i);
    }
}

} // verus!
