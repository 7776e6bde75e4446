use arbitrary::Unstructured;
use runtime_fuzzing::blocks::{MultiBlockCalls, NonEmpty};
use runtime_fuzzing::calls::{ArbitraryRuntimeCall, CallOrigin, RuntimeCall, VestingCall};

const DOLLARS: u128 = 100_000_000_000_000;

fn vest(index: u8) -> ArbitraryRuntimeCall {
    ArbitraryRuntimeCall {
        call: RuntimeCall::Vesting(VestingCall::Vest),
        origin: CallOrigin::Signed(index),
    }
}

const VEST: [u8; 4] = [0xd8, 0, 0, 0];

fn with_vests(parts: &[&[u8]]) -> Vec<u8> {
    parts.concat()
}

#[test]
fn flags_separate_calls() {
    let data = with_vests(&[&[1], &VEST, &[5], &[1], &VEST, &[6], &[0], &[77]]);
    let mut u = Unstructured::new(&data);
    let block = NonEmpty::<ArbitraryRuntimeCall>::arbitrary(&mut u, DOLLARS).unwrap();
    assert_eq!(block.0, vec![vest(5), vest(6)]);
    assert_eq!(u.len(), 1);
}

#[test]
fn empty_block_gets_a_call() {
    let data = with_vests(&[&[0], &VEST, &[9]]);
    let mut u = Unstructured::new(&data);
    let block = NonEmpty::<ArbitraryRuntimeCall>::arbitrary(&mut u, DOLLARS).unwrap();
    assert_eq!(block.0, vec![vest(9)]);
}

#[test]
fn flags_separate_blocks() {
    let data = with_vests(&[
        &[1],
        &[1], &VEST, &[5], &[0],
        &[1],
        &[1], &VEST, &[6], &[1], &VEST, &[7], &[0],
        &[0],
    ]);
    let blocks = MultiBlockCalls::from_bytes(&data, DOLLARS).unwrap();
    assert_eq!(blocks.0.len(), 2);
    assert_eq!(blocks.0[0].0, vec![vest(5)]);
    assert_eq!(blocks.0[1].0, vec![vest(6), vest(7)]);
}

#[test]
fn empty_input_gets_a_block() {
    let data = with_vests(&[&[0], &[1], &VEST, &[5], &[0]]);
    let blocks = MultiBlockCalls::from_bytes(&data, DOLLARS).unwrap();
    assert_eq!(blocks.0.len(), 1);
    assert_eq!(blocks.0[0].0, vec![vest(5)]);
    let blocks = MultiBlockCalls::from_bytes(&[], DOLLARS).unwrap();
    assert_eq!(blocks.0.len(), 1);
    assert_eq!(blocks.0[0].0.len(), 1);
}

#[test]
fn every_block_is_filled() {
    for seed in 0..200u32 {
        let data: Vec<u8> = (0..200u32).map(|i| ((i * 7919 + seed * 104_729) >> 3) as u8).collect();
        let blocks = MultiBlockCalls::from_bytes(&data, DOLLARS).unwrap();
        assert!(!blocks.0.is_empty());
        assert!(blocks.0.iter().all(|b| !b.0.is_empty()));
    }
}
