//! The byte order of the target, as a mathematical model, and the calls that
//! read and write fixed-width integers in that order.

use byteorder::{ByteOrder, NativeEndian};
use vstd::prelude::*;

verus! {

/// What `byteorder::NativeEndian::read_u16` returns for a buffer of these two
/// bytes. `NativeEndian` is `LittleEndian` on some targets and `BigEndian` on
/// the others, so the number depends on the target, and on the bytes alone
/// once the target is chosen.
pub uninterp spec fn native_u16(bytes: Seq<u8>) -> u16;

/// Whether the target stores the least significant byte of an integer
/// first: whether the bytes 1, 0 read as the number 1.
pub open spec fn little_endian() -> bool {
    native_u16(seq![1u8, 0u8]) == 1u16
}

/// The number whose digits in base 256 are `bytes`, least significant first.
pub open spec fn le_value(bytes: Seq<u8>) -> nat
    decreases bytes.len(),
{
    if bytes.len() == 0 {
        0
    } else {
        bytes[0] as nat + 256 * le_value(bytes.drop_first())
    }
}

/// The `width` lowest digits of `value` in base 256, least significant first.
pub open spec fn le_bytes(value: nat, width: nat) -> Seq<u8>
    decreases width,
{
    if width == 0 {
        Seq::empty()
    } else {
        seq![(value % 256) as u8] + le_bytes(value / 256, (width - 1) as nat)
    }
}

/// The number that `bytes` hold in the target's byte order.
pub open spec fn native_value(bytes: Seq<u8>) -> nat {
    if little_endian() {
        le_value(bytes)
    } else {
        le_value(bytes.reverse())
    }
}

/// The `width` bytes that hold `value` in the target's byte order.
pub open spec fn native_bytes(value: nat, width: nat) -> Seq<u8> {
    if little_endian() {
        le_bytes(value, width)
    } else {
        le_bytes(value, width).reverse()
    }
}

/// 256 to the power of `width`.
pub open spec fn radix(width: nat) -> nat
    decreases width,
{
    if width == 0 {
        1
    } else {
        256 * radix((width - 1) as nat)
    }
}

/// The signed reading of an unsigned number of `width` bytes (two's complement).
pub open spec fn signed_value(value: nat, width: nat) -> int {
    if 2 * value < radix(width) {
        value as int
    } else {
        value - radix(width)
    }
}

/// The unsigned number of `width` bytes that stands for `value` (two's complement).
pub open spec fn unsigned_value(value: int, width: nat) -> nat {
    if value >= 0 {
        value as nat
    } else {
        (value + radix(width)) as nat
    }
}

pub proof fn lemma_radix()
    ensures
        radix(0) == 1,
        radix(1) == 0x100,
        radix(2) == 0x1_0000,
        radix(4) == 0x1_0000_0000,
        radix(8) == 0x1_0000_0000_0000_0000,
{
    reveal_with_fuel(radix, 9);
}

/// `le_bytes` yields exactly `width` bytes.
pub proof fn lemma_le_bytes_len(value: nat, width: nat)
    ensures
        le_bytes(value, width).len() == width,
    decreases width,
{
    if width > 0 {
        lemma_le_bytes_len(value / 256, (width - 1) as nat);
    }
}

/// A number of `bytes.len()` digits is below the matching power of 256.
pub proof fn lemma_le_value_bound(bytes: Seq<u8>)
    ensures
        le_value(bytes) < radix(bytes.len()),
    decreases bytes.len(),
{
    if bytes.len() > 0 {
        lemma_le_value_bound(bytes.drop_first());
    }
}

/// Reading back the digits of a number that fits gives the number.
pub proof fn lemma_le_value_of_bytes(value: nat, width: nat)
    requires
        value < radix(width),
    ensures
        le_value(le_bytes(value, width)) == value,
    decreases width,
{
    if width > 0 {
        let rest = le_bytes(value / 256, (width - 1) as nat);
        lemma_le_value_of_bytes(value / 256, (width - 1) as nat);
        assert(le_bytes(value, width).drop_first() =~= rest);
    }
}

/// Writing out the number that some digits hold gives the digits.
pub proof fn lemma_le_bytes_of_value(bytes: Seq<u8>)
    ensures
        le_bytes(le_value(bytes), bytes.len()) =~= bytes,
    decreases bytes.len(),
{
    if bytes.len() > 0 {
        lemma_le_bytes_of_value(bytes.drop_first());
        let value = le_value(bytes);
        assert(value % 256 == bytes[0] as nat);
        assert(value / 256 == le_value(bytes.drop_first()));
    }
}

/// The bytes written for a number are as many as asked for.
pub proof fn lemma_native_bytes_len(value: nat, width: nat)
    ensures
        native_bytes(value, width).len() == width,
{
    lemma_le_bytes_len(value, width);
}

/// In the target's byte order, a number that fits in `width` bytes is read
/// back from the bytes written for it.
pub proof fn lemma_native_value_of_bytes(value: nat, width: nat)
    requires
        value < radix(width),
    ensures
        native_bytes(value, width).len() == width,
        native_value(native_bytes(value, width)) == value,
{
    lemma_le_bytes_len(value, width);
    lemma_le_value_of_bytes(value, width);
    let digits = le_bytes(value, width);
    assert(digits.reverse().reverse() =~= digits);
}

/// In the target's byte order, the bytes written for the number that `bytes`
/// hold are `bytes`.
pub proof fn lemma_native_bytes_of_value(bytes: Seq<u8>)
    ensures
        native_value(bytes) < radix(bytes.len()),
        native_bytes(native_value(bytes), bytes.len()) =~= bytes,
{
    lemma_le_value_bound(bytes);
    lemma_le_value_bound(bytes.reverse());
    lemma_le_bytes_of_value(bytes);
    lemma_le_bytes_of_value(bytes.reverse());
    assert(bytes.reverse().reverse() =~= bytes);
}

/// Two's complement loses nothing: a signed number within `width` bytes is
/// read back from its unsigned stand-in.
pub proof fn lemma_signed_of_unsigned(value: int, width: nat)
    requires
        -radix(width) <= 2 * value < radix(width),
    ensures
        unsigned_value(value, width) < radix(width),
        signed_value(unsigned_value(value, width), width) == value,
{
}

/// `byteorder::NativeEndian::read_u16`. It panics on a buffer of fewer than
/// two bytes; otherwise it returns the number that the first two bytes hold in
/// the target's byte order.
#[verifier::external_body]
pub(crate) fn read_u16(buffer: &[u8]) -> (value: u16)
    requires
        buffer@.len() >= 2,
    ensures
        value == native_u16(buffer@.subrange(0, 2)),
        value == native_value(buffer@.subrange(0, 2)),
{
    NativeEndian::read_u16(buffer)
}

/// `byteorder::NativeEndian::read_i16`: the signed reading of what
/// `read_u16` returns.
#[verifier::external_body]
pub(crate) fn read_i16(buffer: &[u8]) -> (value: i16)
    requires
        buffer@.len() >= 2,
    ensures
        value == signed_value(native_value(buffer@.subrange(0, 2)), 2),
{
    NativeEndian::read_i16(buffer)
}

/// `byteorder::NativeEndian::read_u32`. It panics on a buffer of fewer than
/// four bytes; otherwise it returns the number that the first four bytes hold
/// in the target's byte order.
#[verifier::external_body]
pub(crate) fn read_u32(buffer: &[u8]) -> (value: u32)
    requires
        buffer@.len() >= 4,
    ensures
        value == native_value(buffer@.subrange(0, 4)),
{
    NativeEndian::read_u32(buffer)
}

/// `byteorder::NativeEndian::read_i32`: the signed reading of what
/// `read_u32` returns.
#[verifier::external_body]
pub(crate) fn read_i32(buffer: &[u8]) -> (value: i32)
    requires
        buffer@.len() >= 4,
    ensures
        value == signed_value(native_value(buffer@.subrange(0, 4)), 4),
{
    NativeEndian::read_i32(buffer)
}

/// `byteorder::NativeEndian::read_u64`. It panics on a buffer of fewer than
/// eight bytes; otherwise it returns the number that the first eight bytes
/// hold in the target's byte order.
#[verifier::external_body]
pub(crate) fn read_u64(buffer: &[u8]) -> (value: u64)
    requires
        buffer@.len() >= 8,
    ensures
        value == native_value(buffer@.subrange(0, 8)),
{
    NativeEndian::read_u64(buffer)
}

/// `byteorder::NativeEndian::read_i64`: the signed reading of what
/// `read_u64` returns.
#[verifier::external_body]
pub(crate) fn read_i64(buffer: &[u8]) -> (value: i64)
    requires
        buffer@.len() >= 8,
    ensures
        value == signed_value(native_value(buffer@.subrange(0, 8)), 8),
{
    NativeEndian::read_i64(buffer)
}

/// `byteorder::NativeEndian::write_u16`. It panics on a buffer of fewer than
/// two bytes; otherwise it overwrites the first two bytes with `value` in the
/// target's byte order and leaves the rest as it was.
#[verifier::external_body]
pub(crate) fn write_u16(buffer: &mut [u8], value: u16)
    requires
        old(buffer)@.len() >= 2,
    ensures
        final(buffer)@ == native_bytes(value as nat, 2) + old(buffer)@.skip(2),
{
    NativeEndian::write_u16(buffer, value)
}

/// `byteorder::NativeEndian::write_i16`: writes the two's complement
/// stand-in of `value` as `write_u16` does.
#[verifier::external_body]
pub(crate) fn write_i16(buffer: &mut [u8], value: i16)
    requires
        old(buffer)@.len() >= 2,
    ensures
        final(buffer)@ == native_bytes(unsigned_value(value as int, 2), 2) + old(buffer)@.skip(2),
{
    NativeEndian::write_i16(buffer, value)
}

/// `byteorder::NativeEndian::write_u32`. It panics on a buffer of fewer than
/// four bytes; otherwise it overwrites the first four bytes with `value` in
/// the target's byte order and leaves the rest as it was.
#[verifier::external_body]
pub(crate) fn write_u32(buffer: &mut [u8], value: u32)
    requires
        old(buffer)@.len() >= 4,
    ensures
        final(buffer)@ == native_bytes(value as nat, 4) + old(buffer)@.skip(4),
{
    NativeEndian::write_u32(buffer, value)
}

/// `byteorder::NativeEndian::write_i32`: writes the two's complement
/// stand-in of `value` as `write_u32` does.
#[verifier::external_body]
pub(crate) fn write_i32(buffer: &mut [u8], value: i32)
    requires
        old(buffer)@.len() >= 4,
    ensures
        final(buffer)@ == native_bytes(unsigned_value(value as int, 4), 4) + old(buffer)@.skip(4),
{
    NativeEndian::write_i32(buffer, value)
}

/// `byteorder::NativeEndian::write_u64`. It panics on a buffer of fewer than
/// eight bytes; otherwise it overwrites the first eight bytes with `value` in
/// the target's byte order and leaves the rest as it was.
#[verifier::external_body]
pub(crate) fn write_u64(buffer: &mut [u8], value: u64)
    requires
        old(buffer)@.len() >= 8,
    ensures
        final(buffer)@ == native_bytes(value as nat, 8) + old(buffer)@.skip(8),
{
    NativeEndian::write_u64(buffer, value)
}

/// `byteorder::NativeEndian::write_i64`: writes the two's complement
/// stand-in of `value` as `write_u64` does.
#[verifier::external_body]
pub(crate) fn write_i64(buffer: &mut [u8], value: i64)
    requires
        old(buffer)@.len() >= 8,
    ensures
        final(buffer)@ == native_bytes(unsigned_value(value as int, 8), 8) + old(buffer)@.skip(8),
{
    NativeEndian::write_i64(buffer, value)
}

/// Tells at run time which byte order the target has.
pub fn is_little_endian() -> (little: bool)
    ensures
        little == little_endian(),
{
    let probe: [u8; 2] = [1, 0];
    let value = read_u16(probe.as_slice());
    assert(probe@.subrange(0, 2) =~= seq![1u8, 0u8]);
    value == 1
}

} // verus!
