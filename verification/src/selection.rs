//! Weighted choice among the kinds of calls.
use crate::accounts::{AccountId, Balance};
use crate::calls::{
    endowment_of, every_call_in_range_can_be_generated, gen_force_set_balance, gen_force_transfer,
    gen_force_vested_transfer, gen_transfer_all, gen_transfer_allow_death, gen_transfer_keep_alive,
    gen_vest, gen_vested_transfer, generated, generates, generating_leaves_a_suffix, is_in_range,
    kind_of, representable, ArbitraryRuntimeCall, BalancesCall, CallOrigin, Generator, RuntimeCall,
};
use crate::input::{
    big_endian, byte_width, bytes_spell_numbers, every_integer_can_be_picked, from_position, front,
    is_suffix, pick, pick_leaves_suffix, reading_nothing, remaining, spells_number, suffixes_chain,
    u32_in_range, InputError,
};
use arbitrary::Unstructured;
use vstd::arithmetic::power::pow;
use vstd::prelude::*;

verus! {

/// A kind of call and how often it is chosen, relative to the others.
#[derive(Debug, Clone, Copy, PartialEq, Eq, Structural)]
pub struct CallSpec {
    pub weight: u32,
    pub generator: Generator,
}

/// The kinds of calls with their weights, in the order in which they are tried.
pub open spec fn call_specs_view() -> Seq<CallSpec> {
    seq![
        CallSpec { weight: 10, generator: Generator::TransferAllowDeath },
        CallSpec { weight: 10, generator: Generator::TransferKeepAlive },
        CallSpec { weight: 5, generator: Generator::TransferAll },
        CallSpec { weight: 2, generator: Generator::ForceTransfer },
        CallSpec { weight: 1, generator: Generator::ForceSetBalance },
        CallSpec { weight: 8, generator: Generator::VestedTransfer },
        CallSpec { weight: 5, generator: Generator::Vest },
        CallSpec { weight: 2, generator: Generator::ForceVestedTransfer },
    ]
}

/// The kinds of calls with their weights, in the order in which they are tried.
pub fn call_specs() -> (specs: Vec<CallSpec>)
    ensures
        specs@ == call_specs_view(),
{
    vec![
        CallSpec { weight: 10, generator: Generator::TransferAllowDeath },
        CallSpec { weight: 10, generator: Generator::TransferKeepAlive },
        CallSpec { weight: 5, generator: Generator::TransferAll },
        CallSpec { weight: 2, generator: Generator::ForceTransfer },
        CallSpec { weight: 1, generator: Generator::ForceSetBalance },
        CallSpec { weight: 8, generator: Generator::VestedTransfer },
        CallSpec { weight: 5, generator: Generator::Vest },
        CallSpec { weight: 2, generator: Generator::ForceVestedTransfer },
    ]
}

/// The sum of the weights of `specs`.
pub open spec fn total_weight(specs: Seq<CallSpec>) -> nat
    decreases specs.len(),
{
    if specs.len() == 0 {
        0
    } else {
        total_weight(specs.drop_last()) + specs.last().weight as nat
    }
}

/// The weight at which the draw `rand` stands, out of `total`.
pub open spec fn threshold_of(rand: u32, total: nat) -> nat {
    (rand as nat * total) / (u32::MAX as nat)
}

/// Whether the weight `threshold` falls to the spec at `i`: it has passed the weights of all specs
/// before it, but not its own.
pub open spec fn falls_to(specs: Seq<CallSpec>, threshold: nat, i: int) -> bool {
    &&& 0 <= i < specs.len()
    &&& total_weight(specs.take(i)) <= threshold < total_weight(specs.take(i + 1))
}

/// The kind of call that the draw `rand` chooses among `specs`; the first one where the draw has
/// passed all weights.
pub open spec fn chosen(specs: Seq<CallSpec>, rand: u32) -> Generator {
    let threshold = threshold_of(rand, total_weight(specs));
    if threshold < total_weight(specs) {
        specs[choose|i: int| falls_to(specs, threshold, i)].generator
    } else {
        specs[0].generator
    }
}

proof fn prefix_weights_grow(specs: Seq<CallSpec>, i: int, j: int)
    requires
        0 <= i <= j <= specs.len(),
    ensures
        total_weight(specs.take(i)) <= total_weight(specs.take(j)),
    decreases j - i,
{
    if i < j {
        prefix_weights_grow(specs, i, j - 1);
        assert(specs.take(j).drop_last() =~= specs.take(j - 1));
    }
}

proof fn falls_to_one(specs: Seq<CallSpec>, threshold: nat, i: int, j: int)
    requires
        falls_to(specs, threshold, i),
        falls_to(specs, threshold, j),
    ensures
        i == j,
{
    if i < j {
        prefix_weights_grow(specs, i + 1, j);
    } else if j < i {
        prefix_weights_grow(specs, j + 1, i);
    }
}

/// Chooses the kind of call for the draw `rand`.
pub fn choose_generator(specs: &Vec<CallSpec>, rand: u32) -> (generator: Generator)
    requires
        specs@.len() > 0,
        total_weight(specs@) <= u32::MAX,
    ensures
        generator == chosen(specs@, rand),
{
    let mut total: u32 = 0;
    for i in 0..specs.len()
        invariant
            total == total_weight(specs@.take(i as int)),
            total_weight(specs@) <= u32::MAX,
    {
        proof {
            assert(specs@.take(i + 1).drop_last() =~= specs@.take(i as int));
            prefix_weights_grow(specs@, i + 1, specs@.len() as int);
            assert(specs@.take(specs@.len() as int) =~= specs@);
        }
        total = total + specs[i].weight;
    }
    assert(specs@.take(specs@.len() as int) =~= specs@);
    let ghost threshold0 = threshold_of(rand, total as nat);
    assert(rand as nat * total as nat <= u32::MAX * u32::MAX) by (nonlinear_arith)
        requires
            rand <= u32::MAX,
            total <= u32::MAX,
    ;
    assert(threshold0 <= total) by (nonlinear_arith)
        requires
            threshold0 == (rand as nat * total as nat) / (u32::MAX as nat),
            rand <= u32::MAX,
    ;
    let mut threshold: u32 = ((rand as u64 * total as u64) / (u32::MAX as u64)) as u32;
    for i in 0..specs.len()
        invariant
            specs@.len() > 0,
            total == total_weight(specs@),
            threshold0 == threshold_of(rand, total as nat),
            total_weight(specs@.take(i as int)) <= threshold0,
            threshold == threshold0 - total_weight(specs@.take(i as int)),
    {
        assert(specs@.take(i + 1).drop_last() =~= specs@.take(i as int));
        if threshold < specs[i].weight {
            proof {
                assert(falls_to(specs@, threshold0, i as int));
                let k = choose|k: int| falls_to(specs@, threshold0, k);
                falls_to_one(specs@, threshold0, i as int, k);
                prefix_weights_grow(specs@, i + 1, specs@.len() as int);
                assert(specs@.take(specs@.len() as int) =~= specs@);
            }
            return specs[i].generator;
        }
        threshold = threshold - specs[i].weight;
    }
    assert(specs@.take(specs@.len() as int) =~= specs@);
    specs[0].generator
}

/// The generated call, its sender, and the data left after it was read from `data`: the first bytes
/// choose the kind, the following ones fill it.
pub open spec fn arbitrary_call(data: Seq<u8>, dollars: Balance) -> (
    ArbitraryRuntimeCall,
    Seq<u8>,
) {
    let (rand, rest) = pick(data, 0, u32::MAX as nat);
    let (call, origin, left) = generated(chosen(call_specs_view(), rand as u32), rest, dollars);
    (ArbitraryRuntimeCall { call, origin }, left)
}

/// The weights of the first specs, added up.
proof fn prefix_weights()
    ensures
        total_weight(call_specs_view().take(0)) == 0,
        total_weight(call_specs_view().take(1)) == 10,
        total_weight(call_specs_view().take(2)) == 20,
        total_weight(call_specs_view().take(3)) == 25,
        total_weight(call_specs_view().take(4)) == 27,
        total_weight(call_specs_view().take(5)) == 28,
        total_weight(call_specs_view().take(6)) == 36,
        total_weight(call_specs_view().take(7)) == 41,
        total_weight(call_specs_view().take(8)) == 43,
        total_weight(call_specs_view()) == 43,
{
    let s = call_specs_view();
    assert(total_weight(s.take(0)) == 0);
    assert(s.take(1).drop_last() =~= s.take(0) && s.take(1).last() == s[0]);
    assert(total_weight(s.take(1)) == 10);
    assert(s.take(2).drop_last() =~= s.take(1) && s.take(2).last() == s[1]);
    assert(total_weight(s.take(2)) == 20);
    assert(s.take(3).drop_last() =~= s.take(2) && s.take(3).last() == s[2]);
    assert(total_weight(s.take(3)) == 25);
    assert(s.take(4).drop_last() =~= s.take(3) && s.take(4).last() == s[3]);
    assert(total_weight(s.take(4)) == 27);
    assert(s.take(5).drop_last() =~= s.take(4) && s.take(5).last() == s[4]);
    assert(total_weight(s.take(5)) == 28);
    assert(s.take(6).drop_last() =~= s.take(5) && s.take(6).last() == s[5]);
    assert(total_weight(s.take(6)) == 36);
    assert(s.take(7).drop_last() =~= s.take(6) && s.take(7).last() == s[6]);
    assert(total_weight(s.take(7)) == 41);
    assert(s.take(8).drop_last() =~= s.take(7) && s.take(8).last() == s[7]);
    assert(total_weight(s.take(8)) == 43);
    assert(s.take(8) =~= s);
}

impl ArbitraryRuntimeCall {
    /// Reads a call of a kind that is chosen by weight.
    pub fn arbitrary(u: &mut Unstructured, dollars: Balance) -> (res: Result<
        ArbitraryRuntimeCall,
        InputError,
    >)
        requires
            representable(dollars),
        ensures
            res == Ok::<ArbitraryRuntimeCall, InputError>(
                arbitrary_call(remaining(*old(u)), dollars).0,
            ),
            remaining(*final(u)) == arbitrary_call(remaining(*old(u)), dollars).1,
    {
        let specs: Vec<CallSpec> = call_specs();
        proof {
            prefix_weights();
        }
        let rand_value: u32 = u32_in_range(u, 0, u32::MAX)?;
        let ghost rest = remaining(*u);
        let (call, origin) = match choose_generator(&specs, rand_value) {
            Generator::TransferAllowDeath => gen_transfer_allow_death(u, dollars)?,
            Generator::TransferKeepAlive => gen_transfer_keep_alive(u, dollars)?,
            Generator::TransferAll => {
                let res = gen_transfer_all(u);
                assert(generates(Generator::TransferAll, rest, dollars, res, remaining(*u)));
                res?
            },
            Generator::ForceTransfer => gen_force_transfer(u, dollars)?,
            Generator::ForceSetBalance => gen_force_set_balance(u, dollars)?,
            Generator::VestedTransfer => gen_vested_transfer(u, dollars)?,
            Generator::Vest => {
                let res = gen_vest(u);
                assert(generates(Generator::Vest, rest, dollars, res, remaining(*u)));
                res?
            },
            Generator::ForceVestedTransfer => gen_force_vested_transfer(u, dollars)?,
        };
        Ok(ArbitraryRuntimeCall { call, origin })
    }
}

/// A draw chooses the spec to which its threshold falls.
pub proof fn draw_chooses_by_weight(specs: Seq<CallSpec>, rand: u32, i: int)
    requires
        falls_to(specs, threshold_of(rand, total_weight(specs)), i),
    ensures
        chosen(specs, rand) == specs[i].generator,
{
    let threshold = threshold_of(rand, total_weight(specs));
    let k = choose|k: int| falls_to(specs, threshold, k);
    falls_to_one(specs, threshold, i, k);
    prefix_weights_grow(specs, i + 1, specs.len() as int);
    assert(specs.take(specs.len() as int) =~= specs);
}

/// Out of 43 equal parts of the draws the kinds of calls get 10, 10, 5, 2, 1, 8, 5 and 2, in this
/// order. Only the very last draw has passed all weights; it chooses the first kind again.
pub proof fn draws_are_divided_by_weight(rand: u32)
    ensures
        ({
            let threshold = threshold_of(rand, 43);
            &&& chosen(call_specs_view(), rand) == if threshold < 10 {
                Generator::TransferAllowDeath
            } else if threshold < 20 {
                Generator::TransferKeepAlive
            } else if threshold < 25 {
                Generator::TransferAll
            } else if threshold < 27 {
                Generator::ForceTransfer
            } else if threshold < 28 {
                Generator::ForceSetBalance
            } else if threshold < 36 {
                Generator::VestedTransfer
            } else if threshold < 41 {
                Generator::Vest
            } else if threshold < 43 {
                Generator::ForceVestedTransfer
            } else {
                Generator::TransferAllowDeath
            }
            &&& threshold >= 43 <==> rand == u32::MAX
        }),
{
    prefix_weights();
    let specs = call_specs_view();
    let threshold = threshold_of(rand, 43);
    if threshold < 43 {
        let i: int = if threshold < 10 {
            0
        } else if threshold < 20 {
            1
        } else if threshold < 25 {
            2
        } else if threshold < 27 {
            3
        } else if threshold < 28 {
            4
        } else if threshold < 36 {
            5
        } else if threshold < 41 {
            6
        } else {
            7
        };
        assert(falls_to(specs, threshold, i));
        draw_chooses_by_weight(specs, rand, i);
    }
}

/// Each kind of call is chosen by some draw.
pub proof fn every_generator_is_chosen(generator: Generator)
    ensures
        exists|rand: u32| chosen(call_specs_view(), rand) == generator,
{
    let part: nat = u32::MAX as nat / 43 + 1;
    let first: nat = match generator {
        Generator::TransferAllowDeath => 0,
        Generator::TransferKeepAlive => 10,
        Generator::TransferAll => 20,
        Generator::ForceTransfer => 25,
        Generator::ForceSetBalance => 27,
        Generator::VestedTransfer => 28,
        Generator::Vest => 36,
        Generator::ForceVestedTransfer => 41,
    };
    let rand = (first * part) as u32;
    assert(threshold_of(rand, 43) == first);
    draws_are_divided_by_weight(rand);
}

/// Reading a call takes bytes from the front of the data and leaves the others as they are.
pub proof fn arbitrary_call_leaves_a_suffix(data: Seq<u8>, dollars: Balance)
    ensures
        is_suffix(arbitrary_call(data, dollars).1, data),
{
    let (rand, rest) = pick(data, 0, u32::MAX as nat);
    let generator = chosen(call_specs_view(), rand as u32);
    pick_leaves_suffix(data, 0, u32::MAX as nat);
    generating_leaves_a_suffix(generator, rest, dollars);
    suffixes_chain(arbitrary_call(data, dollars).1, rest, data);
}

/// Without data the call is a transfer of nothing from the first account to itself.
pub proof fn no_data_gives_the_least_call(dollars: Balance)
    ensures
        arbitrary_call(Seq::empty(), dollars) == (
            ArbitraryRuntimeCall {
                call: RuntimeCall::Balances(
                    BalancesCall::TransferAllowDeath { dest: AccountId::repeating(0), value: 0 },
                ),
                origin: CallOrigin::Signed(0),
            },
            Seq::<u8>::empty(),
        ),
{
    reading_nothing(0, u32::MAX as nat, 0);
    reading_nothing(0, 99, 0);
    reading_nothing(0, 100 * endowment_of(dollars), 0);
    draws_are_divided_by_weight(0);
}

/// The weights of `specs` added up, from the first one on.
pub open spec fn weights_added(specs: Seq<CallSpec>) -> nat {
    specs.fold_left(0nat, |sum: nat, spec: CallSpec| sum + spec.weight as nat)
}

proof fn total_weight_adds_up(specs: Seq<CallSpec>)
    ensures
        total_weight(specs) == weights_added(specs),
    decreases specs.len(),
{
    if specs.len() > 0 {
        total_weight_adds_up(specs.drop_last());
    }
}

/// A draw is a fraction of the largest possible draw. It chooses the spec for which the same
/// fraction of all weights lies at or above the weights before it, but below these and its own. The
/// largest draw stands for all weights and chooses the first spec, as any draw does where there are
/// no weights.
pub proof fn draw_is_a_fraction_of_the_weights(specs: Seq<CallSpec>, rand: u32, i: int)
    requires
        0 <= i < specs.len(),
    ensures
        weights_added(specs.take(i)) * 0xffff_ffff <= rand * weights_added(specs)
            && rand * weights_added(specs) < weights_added(specs.take(i + 1)) * 0xffff_ffff
            ==> chosen(specs, rand) == specs[i].generator,
        rand == 0xffff_ffff || weights_added(specs) == 0 ==> chosen(specs, rand)
            == specs[0].generator,
{
    total_weight_adds_up(specs);
    total_weight_adds_up(specs.take(i));
    total_weight_adds_up(specs.take(i + 1));
    let total = total_weight(specs);
    let product = rand as nat * total;
    let threshold = threshold_of(rand, total);
    let (below, above) = (total_weight(specs.take(i)), total_weight(specs.take(i + 1)));
    if below * 0xffff_ffff <= product < above * 0xffff_ffff {
        assert(below <= threshold < above);
        draw_chooses_by_weight(specs, rand, i);
    }
    if rand == 0xffff_ffff {
        assert(threshold == total) by {
            assert(product == 0xffff_ffff * total);
        }
    }
}

/// The draws in 43 parts of the largest one: the kinds of calls get 10, 10, 5, 2, 1, 8, 5 and 2 of
/// them, in this order, and the first kind gets the largest draw too.
pub proof fn kinds_share_the_draws(rand: u32)
    ensures
        ({
            let parts = 43 * rand;
            let largest: int = 0xffff_ffff;
            chosen(call_specs_view(), rand) == if parts < 10 * largest || rand == largest {
                Generator::TransferAllowDeath
            } else if parts < 20 * largest {
                Generator::TransferKeepAlive
            } else if parts < 25 * largest {
                Generator::TransferAll
            } else if parts < 27 * largest {
                Generator::ForceTransfer
            } else if parts < 28 * largest {
                Generator::ForceSetBalance
            } else if parts < 36 * largest {
                Generator::VestedTransfer
            } else if parts < 41 * largest {
                Generator::Vest
            } else {
                Generator::ForceVestedTransfer
            }
        }),
{
    draws_are_divided_by_weight(rand);
    assert(rand as nat * 43 == 43 * rand);
}

/// A call is read in two steps: the first four bytes, the most significant one first, are the draw,
/// and the bytes behind them fill a call of the kind that the draw chooses.
pub proof fn call_is_drawn_and_filled(data: Seq<u8>, dollars: Balance)
    ensures
        ({
            let (item, rest) = arbitrary_call(data, dollars);
            exists|rand: u32|
                {
                    &&& data.len() >= 4 ==> rand == 0x100_0000 * data[0] + 0x1_0000 * data[1] + 0x100
                        * data[2] + data[3]
                    &&& data.len() < 4 ==> spells_number(data, rand as nat)
                    &&& generates(
                        #[trigger] chosen(call_specs_view(), rand),
                        from_position(data, 4),
                        dollars,
                        Ok((item.call, item.origin)),
                        rest,
                    )
                }
        }),
{
    let (rand, rest) = pick(data, 0, u32::MAX as nat);
    assert(byte_width(0xffff_ffff) == 4) by {
        reveal_with_fuel(byte_width, 5);
    }
    let bytes = front(data, 4);
    bytes_spell_numbers(bytes);
    assert(pow(256, 4) == 0x1_0000_0000) by {
        reveal(pow);
        reveal_with_fuel(pow, 5);
    }
    vstd::arithmetic::power::lemma_pow_increases(256, bytes.len(), 4);
    vstd::arithmetic::div_mod::lemma_small_mod(big_endian(bytes), 0x1_0000_0000);
    assert(rest =~= from_position(data, 4));
    if data.len() >= 4 {
        assert(bytes =~= seq![data[0], data[1], data[2], data[3]]);
        let b3 = bytes.drop_last();
        let b2 = b3.drop_last();
        let b1 = b2.drop_last();
        assert(b1.drop_last() =~= Seq::empty());
        assert(big_endian(b1.drop_last()) == 0);
        assert(big_endian(b1) == data[0] as nat);
        assert(big_endian(b2) == 256 * data[0] + data[1]);
        assert(big_endian(b3) == 256 * (256 * data[0] + data[1]) + data[2]);
    } else {
        assert(bytes =~= data);
    }
    assert(rand == big_endian(bytes));
    assert(generates(
        chosen(call_specs_view(), rand as u32),
        from_position(data, 4),
        dollars,
        Ok((arbitrary_call(data, dollars).0.call, arbitrary_call(data, dollars).0.origin)),
        arbitrary_call(data, dollars).1,
    ));
}

/// Every call in range is read from some data, whatever data follows.
pub proof fn every_call_can_be_read(item: ArbitraryRuntimeCall, dollars: Balance, rest: Seq<u8>) -> (
    data: Seq<u8>)
    requires
        is_in_range(item, dollars),
    ensures
        arbitrary_call(data, dollars) == (item, rest),
{
    let kind = kind_of(item.call);
    every_generator_is_chosen(kind);
    let rand = choose|rand: u32| chosen(call_specs_view(), rand) == kind;
    let filling = every_call_in_range_can_be_generated(item, dollars, rest);
    every_integer_can_be_picked(0, u32::MAX as nat, rand as nat, filling)
}

} // verus!
