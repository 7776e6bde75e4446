//! Headers with which blocks are started.
use crate::accounts::BlockNumber;
use crate::input::little_endian;
use vstd::arithmetic::power::{lemma_pow0, pow};
use vstd::prelude::*;

verus! {

/// Hash of a block.
pub type BlockHash = [u8; 32];

/// The authority that starts the blocks of the block campaign.
pub const BLOCK_AUTHORITY: u32 = 0;

/// The authority that starts the block of the transfer campaign.
pub const TRANSFER_AUTHORITY: u32 = 42;

/// A message to a consensus engine, known before the block is executed.
#[derive(Debug, PartialEq, Eq)]
pub struct PreRuntime {
    pub engine: [u8; 4],
    pub data: Vec<u8>,
}

/// The header of a block that is yet to be executed.
#[derive(Debug, PartialEq, Eq)]
pub struct BlockHeader {
    pub number: BlockNumber,
    pub extrinsics_root: BlockHash,
    pub state_root: BlockHash,
    pub parent_hash: BlockHash,
    pub digest: Vec<PreRuntime>,
}

/// What a block starts with.
#[derive(Debug, PartialEq, Eq)]
pub struct BlockStart {
    pub header: BlockHeader,
    /// Milliseconds since the start of the chain.
    pub timestamp: u64,
}

/// The hash of zeros.
pub open spec fn zero_hash_view() -> BlockHash {
    vstd::array::spec_array_fill_for_copy_type::<u8, 32>(0)
}

/// The hash of zeros.
pub fn zero_hash() -> (hash: BlockHash)
    ensures
        hash == zero_hash_view(),
        hash@ == Seq::new(32, |i: int| 0u8),
{
    [0u8; 32]
}

/// The `size` lowest bytes of `n`, least significant byte first.
pub open spec fn le_bytes(n: nat, size: nat) -> Seq<u8>
    decreases size,
{
    if size == 0 {
        Seq::empty()
    } else {
        seq![(n % 256) as u8] + le_bytes(n / 256, (size - 1) as nat)
    }
}

/// The encoded claim of a secondary slot: a tag, the authority and the slot.
pub open spec fn slot_claim(authority_index: u32, slot: u64) -> Seq<u8> {
    seq![2u8] + le_bytes(authority_index as nat, 4) + le_bytes(slot as nat, 8)
}

/// The four letters `BABE`.
pub open spec fn babe_engine() -> Seq<u8> {
    seq![0x42u8, 0x41u8, 0x42u8, 0x45u8]
}

/// The constant `sp_consensus_babe::BABE_ENGINE_ID`: the four letters `BABE`.
#[verifier::external_body]
fn babe_engine_id() -> (id: [u8; 4])
    ensures
        id@ == babe_engine(),
{
    sp_consensus_babe::BABE_ENGINE_ID
}

/// `encode` of a `sp_consensus_babe::digests::PreDigest::SecondaryPlain`: the index of the variant,
/// the authority in four and the slot in eight bytes, each least significant byte first.
#[verifier::external_body]
fn encoded_slot_claim(authority_index: u32, slot: u64) -> (bytes: Vec<u8>)
    ensures
        bytes@ == slot_claim(authority_index, slot),
{
    let claim = sp_consensus_babe::digests::SecondaryPlainPreDigest {
        authority_index,
        slot: sp_consensus_babe::Slot::from(slot),
    };
    parity_scale_codec::Encode::encode(
        &sp_consensus_babe::digests::PreDigest::SecondaryPlain(claim),
    )
}

/// Whether `start` starts block `number` on top of `parent_hash`, in the slot of the same number,
/// which `authority_index` claims.
pub open spec fn starts(
    start: BlockStart,
    number: BlockNumber,
    parent_hash: BlockHash,
    authority_index: u32,
    slot_duration: u64,
) -> bool {
    &&& start.header.number == number
    &&& start.header.extrinsics_root == zero_hash_view()
    &&& start.header.state_root == zero_hash_view()
    &&& start.header.parent_hash == parent_hash
    &&& start.header.digest@.len() == 1
    &&& start.header.digest@[0].engine@ == babe_engine()
    &&& start.header.digest@[0].data@ == slot_claim(authority_index, number as u64)
    &&& start.timestamp == number * slot_duration
}

/// Starts block `number` on top of `parent_hash` in the name of `authority_index`.
pub fn start_block(
    number: BlockNumber,
    parent_hash: BlockHash,
    authority_index: u32,
    slot_duration: u64,
) -> (start: BlockStart)
    requires
        number * slot_duration <= u64::MAX,
    ensures
        starts(start, number, parent_hash, authority_index, slot_duration),
{
    let slot: u64 = number as u64;
    let claim = PreRuntime {
        engine: babe_engine_id(),
        data: encoded_slot_claim(authority_index, slot),
    };
    let header = BlockHeader {
        number,
        extrinsics_root: zero_hash(),
        state_root: zero_hash(),
        parent_hash,
        digest: vec![claim],
    };
    BlockStart { header, timestamp: (number as u64) * slot_duration }
}

/// Starts a block of the block campaign.
pub fn initialize_block(number: BlockNumber, parent_hash: BlockHash, slot_duration: u64) -> (start:
    BlockStart)
    requires
        number * slot_duration <= u64::MAX,
    ensures
        starts(start, number, parent_hash, BLOCK_AUTHORITY, slot_duration),
{
    start_block(number, parent_hash, BLOCK_AUTHORITY, slot_duration)
}

/// Starts the only block of the transfer campaign, the first one of its chain.
pub fn initialize_transfer_block(slot_duration: u64) -> (start: BlockStart)
    ensures
        starts(start, 1, zero_hash_view(), TRANSFER_AUTHORITY, slot_duration),
{
    start_block(1, zero_hash(), TRANSFER_AUTHORITY, slot_duration)
}

pub(crate) proof fn le_bytes_round_trip(n: nat, size: nat)
    requires
        n < pow(256, size),
    ensures
        little_endian(le_bytes(n, size)) == n,
        le_bytes(n, size).len() == size,
    decreases size,
{
    if size == 0 {
        lemma_pow0(256);
    } else {
        reveal(pow);
        let rest = (size - 1) as nat;
        assert(pow(256, size) == 256 * pow(256, rest));
        assert(n / 256 < pow(256, rest)) by (nonlinear_arith)
            requires
                n < 256 * pow(256, rest),
        ;
        le_bytes_round_trip(n / 256, rest);
        assert(le_bytes(n, size).drop_first() =~= le_bytes(n / 256, rest));
    }
}

/// The claim of a slot can be read back: it holds the authority and the slot.
pub proof fn slot_claim_is_readable(authority_index: u32, slot: u64)
    ensures
        slot_claim(authority_index, slot).len() == 13,
        little_endian(slot_claim(authority_index, slot).subrange(1, 5)) == authority_index,
        little_endian(slot_claim(authority_index, slot).subrange(5, 13)) == slot,
{
    assert(pow(256, 4) == 0x1_0000_0000 && pow(256, 8) == 0x1_0000_0000_0000_0000) by {
        reveal(pow);
        reveal_with_fuel(pow, 9);
    }
    le_bytes_round_trip(authority_index as nat, 4);
    le_bytes_round_trip(slot as nat, 8);
    let claim = slot_claim(authority_index, slot);
    assert(claim.subrange(1, 5) =~= le_bytes(authority_index as nat, 4));
    assert(claim.subrange(5, 13) =~= le_bytes(slot as nat, 8));
}

/// All bytes of the hash of zeros are zero.
pub proof fn zero_hash_is_zero(i: int)
    requires
        0 <= i < 32,
    ensures
        zero_hash_view()@[i] == 0,
{
}

/// What a block starts with can be read off it: its number, the parent, two roots of zeros, and a
/// single message to the engine `BABE`, by which the given authority claims the slot of the same
/// number in the secondary way. Its time is that many slots after the start of the chain.
pub proof fn block_start_is_readable(
    start: BlockStart,
    number: BlockNumber,
    parent_hash: BlockHash,
    authority_index: u32,
    slot_duration: u64,
)
    requires
        starts(start, number, parent_hash, authority_index, slot_duration),
    ensures
        start.header.number == number,
        start.header.parent_hash@ == parent_hash@,
        forall|i: int| 0 <= i < 32 ==> #[trigger] start.header.extrinsics_root@[i] == 0,
        forall|i: int| 0 <= i < 32 ==> #[trigger] start.header.state_root@[i] == 0,
        start.header.digest@.len() == 1,
        start.header.digest@[0].engine@ == seq![0x42u8, 0x41u8, 0x42u8, 0x45u8],
        start.header.digest@[0].data@.len() == 13,
        start.header.digest@[0].data@[0] == 2,
        little_endian(start.header.digest@[0].data@.subrange(1, 5)) == authority_index,
        little_endian(start.header.digest@[0].data@.subrange(5, 13)) == number,
        start.timestamp == number * slot_duration,
{
    slot_claim_is_readable(authority_index, number as u64);
}

/// From one block to the next, the number and the slot grow by one and the time by the duration of
/// a slot.
pub proof fn blocks_advance_by_a_slot(
    first: BlockStart,
    second: BlockStart,
    number: BlockNumber,
    parent: BlockHash,
    next_parent: BlockHash,
    slot_duration: u64,
)
    requires
        number < BlockNumber::MAX,
        starts(first, number, parent, BLOCK_AUTHORITY, slot_duration),
        starts(second, (number + 1) as BlockNumber, next_parent, BLOCK_AUTHORITY, slot_duration),
    ensures
        second.header.number == first.header.number + 1,
        second.timestamp - first.timestamp == slot_duration,
        little_endian(first.header.digest@[0].data@.subrange(1, 5)) == 0,
        little_endian(second.header.digest@[0].data@.subrange(1, 5)) == 0,
        little_endian(second.header.digest@[0].data@.subrange(5, 13)) == little_endian(
            first.header.digest@[0].data@.subrange(5, 13),
        ) + 1,
{
    let next = (number + 1) as BlockNumber;
    block_start_is_readable(first, number, parent, BLOCK_AUTHORITY, slot_duration);
    block_start_is_readable(second, next, next_parent, BLOCK_AUTHORITY, slot_duration);
    assert((number + 1) * slot_duration == number * slot_duration + slot_duration)
        by (nonlinear_arith);
}

/// The block of the transfer campaign is the first one, on top of the hash of zeros; authority 42
/// claims slot one for it.
pub proof fn transfer_block_is_the_first(start: BlockStart, slot_duration: u64)
    requires
        starts(start, 1, zero_hash_view(), TRANSFER_AUTHORITY, slot_duration),
    ensures
        start.header.number == 1,
        forall|i: int| 0 <= i < 32 ==> #[trigger] start.header.parent_hash@[i] == 0,
        start.timestamp == slot_duration,
        little_endian(start.header.digest@[0].data@.subrange(1, 5)) == 42,
        little_endian(start.header.digest@[0].data@.subrange(5, 13)) == 1,
{
    block_start_is_readable(start, 1, zero_hash_view(), TRANSFER_AUTHORITY, slot_duration);
}

} // verus!
