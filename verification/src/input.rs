//! Reading structured values out of the raw bytes that a fuzzer hands over.
//!
//! The bytes live in an [`arbitrary::Unstructured`]. Every read takes bytes from the front; a read
//! that finds too few of them makes do with what is there, so reading never fails for want of data.
use arbitrary::Unstructured;
use vstd::arithmetic::power::pow;
use vstd::prelude::*;

verus! {

/// Declares the reader of the crate `arbitrary`.
#[verifier::external_type_specification]
#[verifier::external_body]
pub struct ExUnstructured<'a>(arbitrary::Unstructured<'a>);

/// Declares the error of the crate `arbitrary`.
#[verifier::external_type_specification]
#[verifier::external_body]
pub struct ExArbitraryError(arbitrary::Error);

/// The bytes that a reader still holds, in the order in which it hands them out.
pub uninterp spec fn remaining(u: Unstructured) -> Seq<u8>;

/// Why a value could not be read.
#[derive(Debug, Clone, Copy, PartialEq, Eq)]
pub enum InputError {
    /// The reader reported an error of its own.
    Rejected,
}

/// The number of base-256 digits of `n`; none for zero.
pub open spec fn byte_width(n: nat) -> nat
    decreases n,
{
    if n == 0 {
        0
    } else {
        1 + byte_width(n / 256)
    }
}

/// The number spelled by `bytes`, most significant byte first.
pub open spec fn big_endian(bytes: Seq<u8>) -> nat
    decreases bytes.len(),
{
    if bytes.len() == 0 {
        0
    } else {
        256 * big_endian(bytes.drop_last()) + bytes.last() as nat
    }
}

/// The number spelled by `bytes`, least significant byte first.
pub open spec fn little_endian(bytes: Seq<u8>) -> nat
    decreases bytes.len(),
{
    if bytes.len() == 0 {
        0
    } else {
        bytes.first() as nat + 256 * little_endian(bytes.drop_first())
    }
}

/// The first `n` bytes of `data`, or all of them where there are fewer.
pub open spec fn front(data: Seq<u8>, n: nat) -> Seq<u8> {
    data.take(if n <= data.len() { n as int } else { data.len() as int })
}

/// What `data` holds behind `front(data, n)`.
pub open spec fn behind(data: Seq<u8>, n: nat) -> Seq<u8> {
    data.skip(if n <= data.len() { n as int } else { data.len() as int })
}

/// The integer of `lo..=hi` that `data` selects, and the data left after that. As many bytes are
/// read as it takes to write the size of the range, and their number is reduced into the range.
pub open spec fn pick(data: Seq<u8>, lo: nat, hi: nat) -> (nat, Seq<u8>) {
    let n = byte_width((hi - lo) as nat);
    (lo + big_endian(front(data, n)) % ((hi - lo + 1) as nat), behind(data, n))
}

/// The flag that `data` starts with, and the data left after that: the lowest bit of the first
/// byte, `false` where there is none.
pub open spec fn flag(data: Seq<u8>) -> (bool, Seq<u8>) {
    (data.len() > 0 && data[0] % 2 == 1, behind(data, 1))
}

/// The integer of `size` bytes that `data` starts with, and the data left after that. Missing
/// bytes count as zero.
pub open spec fn fixed(data: Seq<u8>, size: nat) -> (nat, Seq<u8>) {
    (little_endian(front(data, size)), behind(data, size))
}

/// A picked integer lies in its range.
pub proof fn pick_in_range(data: Seq<u8>, lo: nat, hi: nat)
    requires
        lo <= hi,
    ensures
        lo <= pick(data, lo, hi).0 <= hi,
{
}

/// Reading from no data gives the least value of the range, `false` and zero.
pub proof fn reading_nothing(lo: nat, hi: nat, size: nat)
    requires
        lo <= hi,
    ensures
        pick(Seq::empty(), lo, hi) == (lo, Seq::<u8>::empty()),
        flag(Seq::empty()) == (false, Seq::<u8>::empty()),
        fixed(Seq::empty(), size) == (0nat, Seq::<u8>::empty()),
{
    let none = Seq::<u8>::empty();
    assert(front(none, byte_width((hi - lo) as nat)) =~= none);
    assert(behind(none, byte_width((hi - lo) as nat)) =~= none);
    assert(behind(none, 1) =~= none);
    assert(front(none, size) =~= none);
    assert(behind(none, size) =~= none);
    vstd::arithmetic::div_mod::lemma_small_mod(0, (hi - lo + 1) as nat);
}

/// Whether `rest` is what is left of `data` after some bytes were taken from its front.
pub open spec fn is_suffix(rest: Seq<u8>, data: Seq<u8>) -> bool {
    rest.len() <= data.len() && rest == data.skip(data.len() - rest.len())
}

pub(crate) proof fn pick_leaves_suffix(data: Seq<u8>, lo: nat, hi: nat)
    ensures
        is_suffix(pick(data, lo, hi).1, data),
{
}

pub(crate) proof fn suffixes_chain(short: Seq<u8>, middle: Seq<u8>, data: Seq<u8>)
    requires
        is_suffix(short, middle),
        is_suffix(middle, data),
    ensures
        is_suffix(short, data),
{
    assert(short =~= data.skip(data.len() - short.len()));
}

/// `arbitrary::Unstructured::new`: the reader holds the bytes that it is given.
#[verifier::external_body]
pub(crate) fn reader<'a>(data: &'a [u8]) -> (u: Unstructured<'a>)
    ensures
        remaining(u) == data@,
{
    Unstructured::new(data)
}

/// `arbitrary::Unstructured::int_in_range` on `u8`: never fails, and selects as [`pick`] says.
/// It panics on an empty range.
#[verifier::external_body]
fn outside_u8_in_range(u: &mut Unstructured, lo: u8, hi: u8) -> (res: Result<u8, arbitrary::Error>)
    requires
        lo <= hi,
    ensures
        res matches Ok(v) && v as nat == pick(remaining(*old(u)), lo as nat, hi as nat).0,
        remaining(*final(u)) == pick(remaining(*old(u)), lo as nat, hi as nat).1,
{
    u.int_in_range(lo..=hi)
}

/// `arbitrary::Unstructured::int_in_range` on `u32`: never fails, and selects as [`pick`] says.
/// It panics on an empty range.
#[verifier::external_body]
fn outside_u32_in_range(u: &mut Unstructured, lo: u32, hi: u32) -> (res: Result<
    u32,
    arbitrary::Error,
>)
    requires
        lo <= hi,
    ensures
        res matches Ok(v) && v as nat == pick(remaining(*old(u)), lo as nat, hi as nat).0,
        remaining(*final(u)) == pick(remaining(*old(u)), lo as nat, hi as nat).1,
{
    u.int_in_range(lo..=hi)
}

/// `arbitrary::Unstructured::int_in_range` on `u128`: never fails, and selects as [`pick`] says.
/// It panics on an empty range.
#[verifier::external_body]
fn outside_u128_in_range(u: &mut Unstructured, lo: u128, hi: u128) -> (res: Result<
    u128,
    arbitrary::Error,
>)
    requires
        lo <= hi,
    ensures
        res matches Ok(v) && v as nat == pick(remaining(*old(u)), lo as nat, hi as nat).0,
        remaining(*final(u)) == pick(remaining(*old(u)), lo as nat, hi as nat).1,
{
    u.int_in_range(lo..=hi)
}

/// `arbitrary::Unstructured::arbitrary` on `bool`: never fails, and reads as [`flag`] says.
#[verifier::external_body]
fn outside_bool(u: &mut Unstructured) -> (res: Result<bool, arbitrary::Error>)
    ensures
        res matches Ok(v) && v == flag(remaining(*old(u))).0,
        remaining(*final(u)) == flag(remaining(*old(u))).1,
{
    u.arbitrary()
}

/// `arbitrary::Unstructured::arbitrary` on `u8`: never fails, and reads as [`fixed`] says.
#[verifier::external_body]
fn outside_u8(u: &mut Unstructured) -> (res: Result<u8, arbitrary::Error>)
    ensures
        res matches Ok(v) && v as nat == fixed(remaining(*old(u)), 1).0,
        remaining(*final(u)) == fixed(remaining(*old(u)), 1).1,
{
    u.arbitrary()
}

/// `arbitrary::Unstructured::arbitrary` on `u128`: never fails, and reads as [`fixed`] says.
#[verifier::external_body]
fn outside_u128(u: &mut Unstructured) -> (res: Result<u128, arbitrary::Error>)
    ensures
        res matches Ok(v) && v as nat == fixed(remaining(*old(u)), 16).0,
        remaining(*final(u)) == fixed(remaining(*old(u)), 16).1,
{
    u.arbitrary()
}

/// Reads an integer of `lo..=hi`.
pub fn u8_in_range(u: &mut Unstructured, lo: u8, hi: u8) -> (res: Result<u8, InputError>)
    requires
        lo <= hi,
    ensures
        res matches Ok(v) && v as nat == pick(remaining(*old(u)), lo as nat, hi as nat).0,
        remaining(*final(u)) == pick(remaining(*old(u)), lo as nat, hi as nat).1,
{
    match outside_u8_in_range(u, lo, hi) {
        Ok(v) => Ok(v),
        Err(_) => Err(InputError::Rejected),
    }
}

/// Reads an integer of `lo..=hi`.
pub fn u32_in_range(u: &mut Unstructured, lo: u32, hi: u32) -> (res: Result<u32, InputError>)
    requires
        lo <= hi,
    ensures
        res matches Ok(v) && v as nat == pick(remaining(*old(u)), lo as nat, hi as nat).0,
        remaining(*final(u)) == pick(remaining(*old(u)), lo as nat, hi as nat).1,
{
    match outside_u32_in_range(u, lo, hi) {
        Ok(v) => Ok(v),
        Err(_) => Err(InputError::Rejected),
    }
}

/// Reads an integer of `lo..=hi`.
pub fn u128_in_range(u: &mut Unstructured, lo: u128, hi: u128) -> (res: Result<u128, InputError>)
    requires
        lo <= hi,
    ensures
        res matches Ok(v) && v as nat == pick(remaining(*old(u)), lo as nat, hi as nat).0,
        remaining(*final(u)) == pick(remaining(*old(u)), lo as nat, hi as nat).1,
{
    match outside_u128_in_range(u, lo, hi) {
        Ok(v) => Ok(v),
        Err(_) => Err(InputError::Rejected),
    }
}

/// Reads a flag.
pub fn any_bool(u: &mut Unstructured) -> (res: Result<bool, InputError>)
    ensures
        res == Ok::<bool, InputError>(flag(remaining(*old(u))).0),
        remaining(*final(u)) == flag(remaining(*old(u))).1,
{
    match outside_bool(u) {
        Ok(v) => Ok(v),
        Err(_) => Err(InputError::Rejected),
    }
}

/// Reads a byte.
pub fn any_u8(u: &mut Unstructured) -> (res: Result<u8, InputError>)
    ensures
        res matches Ok(v) && v as nat == fixed(remaining(*old(u)), 1).0,
        remaining(*final(u)) == fixed(remaining(*old(u)), 1).1,
{
    match outside_u8(u) {
        Ok(v) => Ok(v),
        Err(_) => Err(InputError::Rejected),
    }
}

/// Reads an integer of 16 bytes.
pub fn any_u128(u: &mut Unstructured) -> (res: Result<u128, InputError>)
    ensures
        res matches Ok(v) && v as nat == fixed(remaining(*old(u)), 16).0,
        remaining(*final(u)) == fixed(remaining(*old(u)), 16).1,
{
    match outside_u128(u) {
        Ok(v) => Ok(v),
        Err(_) => Err(InputError::Rejected),
    }
}

/// The byte of `data` at position `i`, counted as zero behind the end.
pub open spec fn byte_at(data: Seq<u8>, i: int) -> u8 {
    if 0 <= i < data.len() {
        data[i]
    } else {
        0
    }
}

/// The bytes of `data` from position `from` on; none behind the end.
pub open spec fn from_position(data: Seq<u8>, from: int) -> Seq<u8> {
    if 0 <= from <= data.len() {
        data.skip(from)
    } else {
        Seq::empty()
    }
}

/// Whether `bytes` spell `n`: each byte adds one digit of base 256, the most significant one first.
pub open spec fn spells_number(bytes: Seq<u8>, n: nat) -> bool {
    n == bytes.fold_left(0nat, |high: nat, low: u8| 256 * high + low as nat)
}

/// Whether `v` is what the bytes of `data` between two positions select among `lo..=hi`: it lies in
/// the range, and counted from its start it differs from the number of the bytes by a multiple of
/// the size of the range. As many bytes are read as the largest such count has digits of base 256,
/// or as there are.
pub open spec fn selects_between(
    data: Seq<u8>,
    from: int,
    to: int,
    lo: nat,
    hi: nat,
    v: nat,
) -> bool {
    &&& from <= to
    &&& hi - lo < pow(256, (to - from) as nat)
    &&& to > from ==> pow(256, (to - from - 1) as nat) <= hi - lo
    &&& lo <= v <= hi
    &&& exists|n: nat|
        #[trigger] spells_number(
            from_position(data, from).take(
                from_position(data, from).len() - from_position(data, to).len(),
            ),
            n,
        ) && (n - (v - lo)) % (hi - lo + 1) == 0
}

/// The number of digits of `n` is the least with which `n` can be written.
pub proof fn byte_width_is_least(n: nat)
    ensures
        n < pow(256, byte_width(n)),
        byte_width(n) > 0 ==> pow(256, (byte_width(n) - 1) as nat) <= n,
    decreases n,
{
    reveal(pow);
    if n > 0 {
        let w = byte_width(n / 256);
        byte_width_is_least(n / 256);
        assert(pow(256, w + 1) == 256 * pow(256, w));
        assert(n < 256 * (n / 256 + 1));
        if w > 0 {
            assert(pow(256, w) == 256 * pow(256, (w - 1) as nat));
            assert(256 * (n / 256) <= n);
        } else {
            assert(pow(256, 0) == 1);
        }
    } else {
        assert(pow(256, 0) == 1);
    }
}

/// The number of some bytes is what they spell in base 256: from the front with the most
/// significant byte first, from the back with the least significant byte first.
pub proof fn bytes_spell_numbers(bytes: Seq<u8>)
    ensures
        spells_number(bytes, big_endian(bytes)),
        spells_number(bytes.reverse(), little_endian(bytes)),
        big_endian(bytes) < pow(256, bytes.len()),
        little_endian(bytes) < pow(256, bytes.len()),
    decreases bytes.len(),
{
    let f = |high: nat, low: u8| 256 * high + low as nat;
    reveal(pow);
    if bytes.len() > 0 {
        bytes_spell_numbers(bytes.drop_last());
        bytes_spell_numbers(bytes.drop_first());
        assert(bytes.reverse().drop_last() =~= bytes.drop_first().reverse());
        assert(bytes.reverse().last() == bytes.first());
        let n = (bytes.len() - 1) as nat;
        assert(pow(256, bytes.len()) == 256 * pow(256, n));
    } else {
        assert(pow(256, 0) == 1);
        assert(bytes.reverse() =~= bytes);
    }
}

/// An integer is picked from the front of the data, and what is behind the bytes that were read is
/// left.
pub proof fn pick_selects_from_the_front(data: Seq<u8>, lo: nat, hi: nat)
    requires
        lo <= hi,
    ensures
        selects_between(
            data,
            0,
            byte_width((hi - lo) as nat) as int,
            lo,
            hi,
            pick(data, lo, hi).0,
        ),
        pick(data, lo, hi).1 == from_position(data, byte_width((hi - lo) as nat) as int),
{
    let w = byte_width((hi - lo) as nat);
    let bytes = front(data, w);
    let size = (hi - lo + 1) as nat;
    let n = big_endian(bytes);
    byte_width_is_least((hi - lo) as nat);
    bytes_spell_numbers(bytes);
    assert(behind(data, w) =~= from_position(data, w as int));
    assert(from_position(data, 0) =~= data);
    assert(data.take(data.len() - from_position(data, w as int).len()) =~= bytes);
    vstd::arithmetic::div_mod::lemma_fundamental_div_mod(n as int, size as int);
    let q = n as int / size as int;
    assert((n - n % size) == size * q);
    assert((size * q) % (size as int) == 0) by {
        vstd::arithmetic::div_mod::lemma_mod_multiples_basic(q, size as int);
        assert(size * q == q * size) by (nonlinear_arith);
    }
    assert(spells_number(
        from_position(data, 0).take(
            from_position(data, 0).len() - from_position(data, w as int).len(),
        ),
        n,
    ));
}

/// A selection that starts behind some bytes.
pub(crate) proof fn selection_moves(
    data: Seq<u8>,
    from: int,
    to: int,
    lo: nat,
    hi: nat,
    v: nat,
)
    requires
        0 <= from,
        selects_between(from_position(data, from), 0, to - from, lo, hi, v),
    ensures
        selects_between(data, from, to, lo, hi, v),
        from_position(from_position(data, from), to - from) == from_position(data, to),
{
    let rest = from_position(data, from);
    assert(from_position(rest, 0) =~= rest);
    assert(from_position(rest, to - from) =~= from_position(data, to));
}

/// The least bytes that spell `n` in `size` digits, the most significant one first.
spec fn be_bytes(n: nat, size: nat) -> Seq<u8>
    decreases size,
{
    if size == 0 {
        Seq::empty()
    } else {
        be_bytes(n / 256, (size - 1) as nat).push((n % 256) as u8)
    }
}

proof fn be_bytes_round_trip(n: nat, size: nat)
    requires
        n < pow(256, size),
    ensures
        big_endian(be_bytes(n, size)) == n,
        be_bytes(n, size).len() == size,
    decreases size,
{
    reveal(pow);
    if size > 0 {
        let rest = (size - 1) as nat;
        assert(pow(256, size) == 256 * pow(256, rest));
        assert(n / 256 < pow(256, rest)) by (nonlinear_arith)
            requires
                n < 256 * pow(256, rest),
        ;
        be_bytes_round_trip(n / 256, rest);
        assert(be_bytes(n, size).drop_last() =~= be_bytes(n / 256, rest));
    } else {
        assert(pow(256, 0) == 1);
    }
}

/// Every integer of a range is picked from some data, whatever data follows.
pub proof fn every_integer_can_be_picked(lo: nat, hi: nat, v: nat, rest: Seq<u8>) -> (data: Seq<u8>)
    requires
        lo <= v <= hi,
    ensures
        pick(data, lo, hi) == (v, rest),
{
    let w = byte_width((hi - lo) as nat);
    let n = (v - lo) as nat;
    let bytes = be_bytes(n, w);
    byte_width_is_least((hi - lo) as nat);
    be_bytes_round_trip(n, w);
    let data = bytes + rest;
    assert(front(data, w) =~= bytes);
    assert(behind(data, w) =~= rest);
    vstd::arithmetic::div_mod::lemma_small_mod(n, (hi - lo + 1) as nat);
    data
}

/// A flag is the parity of the first byte; nothing but that byte is read.
pub proof fn flag_is_the_parity_of_a_byte(data: Seq<u8>)
    ensures
        flag(data).0 <==> byte_at(data, 0) % 2 == 1,
        flag(data).1 == from_position(data, 1),
{
    assert(behind(data, 1) =~= from_position(data, 1));
}

/// An integer of a fixed size is spelled by that many bytes, the least significant one first; bytes
/// behind the end count as zero.
pub proof fn fixed_is_spelled_backwards(data: Seq<u8>, size: nat)
    ensures
        spells_number(
            data.take(if size <= data.len() { size as int } else { data.len() as int }).reverse(),
            fixed(data, size).0,
        ),
        fixed(data, size).1 == from_position(data, size as int),
        fixed(data, size).0 < pow(256, size),
{
    bytes_spell_numbers(front(data, size));
    assert(behind(data, size) =~= from_position(data, size as int));
    vstd::arithmetic::power::lemma_pow_increases(256, front(data, size).len(), size);
}

/// A picked account index is the first byte, reduced below the number of accounts.
pub(crate) proof fn small_pick(data: Seq<u8>, hi: nat)
    requires
        0 < hi < 256,
    ensures
        pick(data, 0, hi).0 == byte_at(data, 0) as nat % (hi + 1),
        pick(data, 0, hi).1 == from_position(data, 1),
{
    reveal_with_fuel(byte_width, 2);
    assert(byte_width(hi) == 1);
    assert(behind(data, 1) =~= from_position(data, 1));
    if data.len() > 0 {
        assert(front(data, 1) =~= seq![data[0]]);
        assert(seq![data[0]].drop_last() =~= Seq::empty());
        reveal_with_fuel(big_endian, 2);
    } else {
        assert(front(data, 1) =~= Seq::empty());
    }
}

} // verus!
