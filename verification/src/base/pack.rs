use vstd::prelude::*;
use vstd::slice::{slice_subrange, slice_to_vec};

use crate::base::byte_order::{
    lemma_native_bytes_len, lemma_native_value_of_bytes, lemma_radix, lemma_signed_of_unsigned,
    native_bytes, native_value, read_i16, read_i32, read_i64, read_u16, read_u32, read_u64,
    signed_value, unsigned_value, write_i16, write_i32, write_i64, write_u16, write_u32,
    write_u64,
};
use crate::base::hardware_address::HardwareAddress;
use crate::errors::{Error, NetlinkErrorKind};

verus! {

/// Copies the first `length` bytes of `src` over the first `length` bytes of
/// `dst` and leaves the rest of `dst` as it was.
pub fn slice_copy(src: &[u8], dst: &mut [u8], length: usize)
    requires
        src@.len() >= length,
        old(dst)@.len() >= length,
    ensures
        final(dst)@ == src@.subrange(0, length as int) + old(dst)@.skip(length as int),
{
    let mut i: usize = 0;
    while i < length
        invariant
            i <= length,
            length <= src@.len(),
            dst@.len() == old(dst)@.len(),
            length <= dst@.len(),
            dst@ =~= src@.subrange(0, i as int) + old(dst)@.skip(i as int),
        decreases length - i,
    {
        dst[i] = src[i];
        i += 1;
    }
}

/// Trait for unpacking byte slice into a value, using native endian
pub trait NativeUnpack: Sized + View {
    /// What a buffer decodes to: the number of leading bytes that make up one
    /// value together with the view of that value, or the reason why the
    /// buffer holds no value.
    spec fn decoded(buffer: Seq<u8>) -> Result<(nat, Self::V), NetlinkErrorKind>;

    /// Unpack byte slice into value
    fn unpack(buffer: &[u8]) -> (r: Result<Self, Error>)
        ensures
            match r {
                Ok(value) => Self::decoded(buffer@) matches Ok((_, v)) && value@ == v,
                Err(e) => Self::decoded(buffer@) matches Err(kind) && e.is_kind(kind),
            },
    {
        match Self::unpack_with_size(buffer) {
            Ok(r) => Ok(r.1),
            Err(e) => Err(e),
        }
    }

    /// Unpack byte slice into value, also returning size used
    fn unpack_with_size(buffer: &[u8]) -> (r: Result<(usize, Self), Error>)
        ensures
            match r {
                Ok((size, value)) => Self::decoded(buffer@) == Ok::<_, NetlinkErrorKind>(
                    (size as nat, value@),
                ),
                Err(e) => Self::decoded(buffer@) matches Err(kind) && e.is_kind(kind),
            },
    ;

    /// Unpack byte slice into value without failing
    fn unpack_unchecked(buffer: &[u8]) -> (value: Self)
        requires
            Self::decoded(buffer@) is Ok,
        ensures
            Self::decoded(buffer@) matches Ok((_, v)) && value@ == v,
    ;
}

/// What a buffer decodes to for a type of `width` bytes whose value, read
/// from exactly that many bytes, is `value`.
pub open spec fn fixed_width<V>(buffer: Seq<u8>, width: nat, value: V) -> Result<
    (nat, V),
    NetlinkErrorKind,
> {
    if buffer.len() < width {
        Err(NetlinkErrorKind::NotEnoughData)
    } else {
        Ok((width, value))
    }
}

impl NativeUnpack for u8 {
    open spec fn decoded(buffer: Seq<u8>) -> Result<(nat, u8), NetlinkErrorKind> {
        fixed_width(buffer, 1, buffer[0])
    }

    fn unpack_with_size(buffer: &[u8]) -> (r: Result<(usize, Self), Error>) {
        if buffer.len() < 1 {
            return Err(Error::netlink(NetlinkErrorKind::NotEnoughData));
        }
        Ok((1, Self::unpack_unchecked(buffer)))
    }

    fn unpack_unchecked(buffer: &[u8]) -> (value: Self) {
        buffer[0]
    }
}

impl NativeUnpack for i8 {
    open spec fn decoded(buffer: Seq<u8>) -> Result<(nat, i8), NetlinkErrorKind> {
        fixed_width(buffer, 1, signed_value(buffer[0] as nat, 1) as i8)
    }

    fn unpack_with_size(buffer: &[u8]) -> (r: Result<(usize, Self), Error>) {
        if buffer.len() < 1 {
            return Err(Error::netlink(NetlinkErrorKind::NotEnoughData));
        }
        Ok((1, Self::unpack_unchecked(buffer)))
    }

    fn unpack_unchecked(buffer: &[u8]) -> (value: Self) {
        let byte = buffer[0];
        proof {
            lemma_radix();
            assert(byte as i8 == (if byte < 0x80 {
                byte as int
            } else {
                byte - 0x100
            })) by (bit_vector);
        }
        byte as i8
    }
}

impl NativeUnpack for u16 {
    open spec fn decoded(buffer: Seq<u8>) -> Result<(nat, u16), NetlinkErrorKind> {
        fixed_width(buffer, 2, native_value(buffer.subrange(0, 2)) as u16)
    }

    fn unpack_with_size(buffer: &[u8]) -> (r: Result<(usize, Self), Error>) {
        if buffer.len() < 2 {
            return Err(Error::netlink(NetlinkErrorKind::NotEnoughData));
        }
        Ok((2, Self::unpack_unchecked(buffer)))
    }

    fn unpack_unchecked(buffer: &[u8]) -> (value: Self) {
        read_u16(buffer)
    }
}

impl NativeUnpack for i16 {
    open spec fn decoded(buffer: Seq<u8>) -> Result<(nat, i16), NetlinkErrorKind> {
        fixed_width(buffer, 2, signed_value(native_value(buffer.subrange(0, 2)), 2) as i16)
    }

    fn unpack_with_size(buffer: &[u8]) -> (r: Result<(usize, Self), Error>) {
        if buffer.len() < 2 {
            return Err(Error::netlink(NetlinkErrorKind::NotEnoughData));
        }
        Ok((2, Self::unpack_unchecked(buffer)))
    }

    fn unpack_unchecked(buffer: &[u8]) -> (value: Self) {
        read_i16(buffer)
    }
}

impl NativeUnpack for u32 {
    open spec fn decoded(buffer: Seq<u8>) -> Result<(nat, u32), NetlinkErrorKind> {
        fixed_width(buffer, 4, native_value(buffer.subrange(0, 4)) as u32)
    }

    fn unpack_with_size(buffer: &[u8]) -> (r: Result<(usize, Self), Error>) {
        if buffer.len() < 4 {
            return Err(Error::netlink(NetlinkErrorKind::NotEnoughData));
        }
        Ok((4, Self::unpack_unchecked(buffer)))
    }

    fn unpack_unchecked(buffer: &[u8]) -> (value: Self) {
        read_u32(buffer)
    }
}

impl NativeUnpack for i32 {
    open spec fn decoded(buffer: Seq<u8>) -> Result<(nat, i32), NetlinkErrorKind> {
        fixed_width(buffer, 4, signed_value(native_value(buffer.subrange(0, 4)), 4) as i32)
    }

    fn unpack_with_size(buffer: &[u8]) -> (r: Result<(usize, Self), Error>) {
        if buffer.len() < 4 {
            return Err(Error::netlink(NetlinkErrorKind::NotEnoughData));
        }
        Ok((4, Self::unpack_unchecked(buffer)))
    }

    fn unpack_unchecked(buffer: &[u8]) -> (value: Self) {
        read_i32(buffer)
    }
}

impl NativeUnpack for u64 {
    open spec fn decoded(buffer: Seq<u8>) -> Result<(nat, u64), NetlinkErrorKind> {
        fixed_width(buffer, 8, native_value(buffer.subrange(0, 8)) as u64)
    }

    fn unpack_with_size(buffer: &[u8]) -> (r: Result<(usize, Self), Error>) {
        if buffer.len() < 8 {
            return Err(Error::netlink(NetlinkErrorKind::NotEnoughData));
        }
        Ok((8, Self::unpack_unchecked(buffer)))
    }

    fn unpack_unchecked(buffer: &[u8]) -> (value: Self) {
        read_u64(buffer)
    }
}

impl NativeUnpack for i64 {
    open spec fn decoded(buffer: Seq<u8>) -> Result<(nat, i64), NetlinkErrorKind> {
        fixed_width(buffer, 8, signed_value(native_value(buffer.subrange(0, 8)), 8) as i64)
    }

    fn unpack_with_size(buffer: &[u8]) -> (r: Result<(usize, Self), Error>) {
        if buffer.len() < 8 {
            return Err(Error::netlink(NetlinkErrorKind::NotEnoughData));
        }
        Ok((8, Self::unpack_unchecked(buffer)))
    }

    fn unpack_unchecked(buffer: &[u8]) -> (value: Self) {
        read_i64(buffer)
    }
}

impl NativeUnpack for HardwareAddress {
    open spec fn decoded(buffer: Seq<u8>) -> Result<(nat, Seq<u8>), NetlinkErrorKind> {
        fixed_width(buffer, 6, buffer.subrange(0, 6))
    }

    fn unpack_with_size(buffer: &[u8]) -> (r: Result<(usize, Self), Error>) {
        if buffer.len() < 6 {
            return Err(Error::netlink(NetlinkErrorKind::NotEnoughData));
        }
        Ok((6, Self::unpack_unchecked(buffer)))
    }

    fn unpack_unchecked(buffer: &[u8]) -> (value: Self) {
        HardwareAddress::from(buffer)
    }
}

impl NativeUnpack for Vec<u8> {
    open spec fn decoded(buffer: Seq<u8>) -> Result<(nat, Seq<u8>), NetlinkErrorKind> {
        Ok((buffer.len(), buffer))
    }

    fn unpack(buffer: &[u8]) -> (r: Result<Self, Error>) {
        Ok(Self::unpack_unchecked(buffer))
    }

    fn unpack_with_size(buffer: &[u8]) -> (r: Result<(usize, Self), Error>) {
        Ok((buffer.len(), Self::unpack_unchecked(buffer)))
    }

    fn unpack_unchecked(buffer: &[u8]) -> (value: Self) {
        slice_to_vec(buffer)
    }
}

/// The numbers held by the consecutive groups of four bytes of `buffer`, in
/// the target's byte order; bytes left over behind the last whole group are
/// not read.
pub open spec fn words(buffer: Seq<u8>) -> Seq<u32> {
    Seq::new(buffer.len() / 4, |i: int| native_value(buffer.subrange(4 * i, 4 * i + 4)) as u32)
}

impl NativeUnpack for Vec<u32> {
    open spec fn decoded(buffer: Seq<u8>) -> Result<(nat, Seq<u32>), NetlinkErrorKind> {
        Ok((buffer.len() / 4 * 4, words(buffer)))
    }

    fn unpack_with_size(buffer: &[u8]) -> (r: Result<(usize, Self), Error>) {
        let count = buffer.len() / 4;
        let mut vec: Vec<u32> = Vec::new();
        let mut o: usize = 0;
        while o < count
            invariant
                o <= count,
                count == buffer@.len() / 4,
                count * 4 <= buffer@.len() <= usize::MAX,
                vec@ =~= words(buffer@).subrange(0, o as int),
            decreases count - o,
        {
            let offset = o * 4;
            let group = slice_subrange(buffer, offset, offset + 4);
            assert(group@.subrange(0, 4) =~= buffer@.subrange(4 * o, 4 * o + 4));
            vec.push(u32::unpack_unchecked(group));
            o += 1;
        }
        assert(words(buffer@).subrange(0, count as int) =~= words(buffer@));
        Ok((count * 4, vec))
    }

    fn unpack_unchecked(buffer: &[u8]) -> (value: Self) {
        match Self::unpack_with_size(buffer) {
            Ok(r) => r.1,
            Err(_) => Vec::new(),
        }
    }
}

/// Pack value into byte slice, using native endian
pub trait NativePack: Sized {
    /// Whether the value's lengths fit the fields that carry them.
    spec fn packable(&self) -> bool;

    /// The bytes that packing writes.
    spec fn packed(&self) -> Seq<u8>;

    /// The number of bytes that packing advances by: the bytes it writes and
    /// the padding it leaves untouched behind them.
    spec fn packed_size(&self) -> nat;

    /// The number of bytes that `pack` advances by
    fn pack_size(&self) -> (size: usize)
        requires
            self.packable(),
        ensures
            size == self.packed_size(),
            self.packed().len() <= size,
    ;

    /// Pack value into byte slice, returning the unused part of the slice
    fn pack<'a>(&self, buffer: &'a mut [u8]) -> (r: Result<&'a mut [u8], Error>)
        requires
            self.packable(),
        ensures
            match r {
                Ok(rest) => {
                    &&& old(buffer)@.len() >= self.packed_size()
                    &&& rest@ == old(buffer)@.skip(self.packed_size() as int)
                    &&& final(buffer)@ == self.packed() + old(buffer)@.subrange(
                        self.packed().len() as int,
                        self.packed_size() as int,
                    ) + final(rest)@
                },
                Err(e) => {
                    &&& old(buffer)@.len() < self.packed_size()
                    &&& final(buffer)@ == old(buffer)@
                    &&& e.is_kind(NetlinkErrorKind::NotEnoughData)
                },
            },
    {
        let type_size = self.pack_size();
        if buffer.len() < type_size {
            return Err(Error::netlink(NetlinkErrorKind::NotEnoughData));
        }
        self.pack_unchecked(buffer);
        let (_, rest) = buffer.split_at_mut(type_size);
        Ok(rest)
    }

    /// Pack value into slice without failing
    fn pack_unchecked(&self, buffer: &mut [u8])
        requires
            self.packable(),
            old(buffer)@.len() >= self.packed_size(),
        ensures
            final(buffer)@ == self.packed() + old(buffer)@.skip(self.packed().len() as int),
    ;
}

impl NativePack for u8 {
    open spec fn packable(&self) -> bool {
        true
    }

    open spec fn packed(&self) -> Seq<u8> {
        seq![*self]
    }

    open spec fn packed_size(&self) -> nat {
        1
    }

    fn pack_size(&self) -> (size: usize) {
        1
    }

    fn pack_unchecked(&self, buffer: &mut [u8]) {
        buffer[0] = *self;
        assert(buffer@ =~= seq![*self] + old(buffer)@.skip(1));
    }
}

impl NativePack for i8 {
    open spec fn packable(&self) -> bool {
        true
    }

    open spec fn packed(&self) -> Seq<u8> {
        seq![unsigned_value(*self as int, 1) as u8]
    }

    open spec fn packed_size(&self) -> nat {
        1
    }

    fn pack_size(&self) -> (size: usize) {
        1
    }

    fn pack_unchecked(&self, buffer: &mut [u8]) {
        let value = *self;
        proof {
            lemma_radix();
            assert(value as u8 == (if value >= 0 {
                value as int
            } else {
                value + 0x100
            })) by (bit_vector);
        }
        buffer[0] = value as u8;
        assert(buffer@ =~= seq![unsigned_value(value as int, 1) as u8] + old(buffer)@.skip(1));
    }
}

impl NativePack for u16 {
    open spec fn packable(&self) -> bool {
        true
    }

    open spec fn packed(&self) -> Seq<u8> {
        native_bytes(*self as nat, 2)
    }

    open spec fn packed_size(&self) -> nat {
        2
    }

    fn pack_size(&self) -> (size: usize) {
        proof {
            lemma_native_bytes_len(*self as nat, 2);
        }
        2
    }

    fn pack_unchecked(&self, buffer: &mut [u8]) {
        proof {
            lemma_native_bytes_len(*self as nat, 2);
        }
        write_u16(buffer, *self);
    }
}

impl NativePack for i16 {
    open spec fn packable(&self) -> bool {
        true
    }

    open spec fn packed(&self) -> Seq<u8> {
        native_bytes(unsigned_value(*self as int, 2), 2)
    }

    open spec fn packed_size(&self) -> nat {
        2
    }

    fn pack_size(&self) -> (size: usize) {
        proof {
            lemma_native_bytes_len(unsigned_value(*self as int, 2), 2);
        }
        2
    }

    fn pack_unchecked(&self, buffer: &mut [u8]) {
        proof {
            lemma_native_bytes_len(unsigned_value(*self as int, 2), 2);
        }
        write_i16(buffer, *self);
    }
}

impl NativePack for u32 {
    open spec fn packable(&self) -> bool {
        true
    }

    open spec fn packed(&self) -> Seq<u8> {
        native_bytes(*self as nat, 4)
    }

    open spec fn packed_size(&self) -> nat {
        4
    }

    fn pack_size(&self) -> (size: usize) {
        proof {
            lemma_native_bytes_len(*self as nat, 4);
        }
        4
    }

    fn pack_unchecked(&self, buffer: &mut [u8]) {
        proof {
            lemma_native_bytes_len(*self as nat, 4);
        }
        write_u32(buffer, *self);
    }
}

impl NativePack for i32 {
    open spec fn packable(&self) -> bool {
        true
    }

    open spec fn packed(&self) -> Seq<u8> {
        native_bytes(unsigned_value(*self as int, 4), 4)
    }

    open spec fn packed_size(&self) -> nat {
        4
    }

    fn pack_size(&self) -> (size: usize) {
        proof {
            lemma_native_bytes_len(unsigned_value(*self as int, 4), 4);
        }
        4
    }

    fn pack_unchecked(&self, buffer: &mut [u8]) {
        proof {
            lemma_native_bytes_len(unsigned_value(*self as int, 4), 4);
        }
        write_i32(buffer, *self);
    }
}

impl NativePack for u64 {
    open spec fn packable(&self) -> bool {
        true
    }

    open spec fn packed(&self) -> Seq<u8> {
        native_bytes(*self as nat, 8)
    }

    open spec fn packed_size(&self) -> nat {
        8
    }

    fn pack_size(&self) -> (size: usize) {
        proof {
            lemma_native_bytes_len(*self as nat, 8);
        }
        8
    }

    fn pack_unchecked(&self, buffer: &mut [u8]) {
        proof {
            lemma_native_bytes_len(*self as nat, 8);
        }
        write_u64(buffer, *self);
    }
}

impl NativePack for i64 {
    open spec fn packable(&self) -> bool {
        true
    }

    open spec fn packed(&self) -> Seq<u8> {
        native_bytes(unsigned_value(*self as int, 8), 8)
    }

    open spec fn packed_size(&self) -> nat {
        8
    }

    fn pack_size(&self) -> (size: usize) {
        proof {
            lemma_native_bytes_len(unsigned_value(*self as int, 8), 8);
        }
        8
    }

    fn pack_unchecked(&self, buffer: &mut [u8]) {
        proof {
            lemma_native_bytes_len(unsigned_value(*self as int, 8), 8);
        }
        write_i64(buffer, *self);
    }
}

impl NativePack for HardwareAddress {
    open spec fn packable(&self) -> bool {
        true
    }

    open spec fn packed(&self) -> Seq<u8> {
        self@
    }

    open spec fn packed_size(&self) -> nat {
        6
    }

    fn pack_size(&self) -> (size: usize) {
        proof {
            self.lemma_len();
        }
        6
    }

    fn pack_unchecked(&self, buffer: &mut [u8]) {
        proof {
            self.lemma_len();
        }
        let octets = self.bytes();
        slice_copy(octets.as_slice(), buffer, 6);
        assert(octets@.subrange(0, 6) =~= self@);
    }
}

impl NativePack for Vec<u8> {
    open spec fn packable(&self) -> bool {
        true
    }

    open spec fn packed(&self) -> Seq<u8> {
        self@
    }

    open spec fn packed_size(&self) -> nat {
        self@.len()
    }

    fn pack_size(&self) -> (size: usize) {
        self.len()
    }

    fn pack_unchecked(&self, buffer: &mut [u8]) {
        slice_copy(self.as_slice(), buffer, self.len());
        assert(self@.subrange(0, self@.len() as int) =~= self@);
    }
}

/// The sizes of the items, added up.
pub open spec fn total_size<T: NativePack>(items: Seq<T>) -> nat
    decreases items.len(),
{
    if items.len() == 0 {
        0
    } else {
        total_size(items.drop_last()) + items.last().packed_size()
    }
}

/// What a buffer holds after the items were packed into it one behind the
/// other, for as long as each still fits.
pub open spec fn packed_items<T: NativePack>(items: Seq<T>, buffer: Seq<u8>) -> Seq<u8>
    decreases items.len(),
{
    if items.len() == 0 {
        buffer
    } else {
        let before = packed_items(items.drop_last(), buffer);
        let start = total_size(items.drop_last()) as int;
        let item = items.last();
        if start + item.packed_size() <= buffer.len() {
            before.subrange(0, start) + item.packed() + before.skip(
                start + item.packed().len(),
            )
        } else {
            before
        }
    }
}

/// Pack a vector of values into byte slice
pub fn pack_vec<T: NativePack>(buffer: &mut [u8], v: &Vec<T>) -> (r: Result<usize, Error>)
    requires
        forall|i: int| 0 <= i < v@.len() ==> (#[trigger] v@[i]).packable(),
    ensures
        final(buffer)@.len() == old(buffer)@.len(),
        final(buffer)@ == packed_items(v@, old(buffer)@),
        match r {
            Ok(size) => size == total_size(v@) && size <= old(buffer)@.len(),
            Err(e) => total_size(v@) > old(buffer)@.len() && e.is_kind(
                NetlinkErrorKind::NotEnoughData,
            ),
        },
{
    let mut size: usize = 0;
    let mut i: usize = 0;
    proof {
        vstd::slice::axiom_spec_len(buffer);
    }
    while i < v.len()
        invariant
            i <= v@.len(),
            forall|j: int| 0 <= j < v@.len() ==> (#[trigger] v@[j]).packable(),
            buffer@.len() == old(buffer)@.len() <= usize::MAX,
            size == total_size(v@.subrange(0, i as int)),
            size <= buffer@.len(),
            buffer@ == packed_items(v@.subrange(0, i as int), old(buffer)@),
        decreases v@.len() - i,
    {
        let ghost done = v@.subrange(0, i as int);
        let ghost next = v@.subrange(0, i + 1);
        proof {
            assert(next.drop_last() =~= done);
            assert(next.last() == v@[i as int]);
        }
        let item = &v[i];
        let (_, tail) = buffer.split_at_mut(size);
        match item.pack(tail) {
            Ok(_) => {},
            Err(e) => {
                proof {
                    lemma_total_size_grows(v@, i + 1);
                    lemma_packed_items_stops(v@, old(buffer)@, i + 1);
                }
                return Err(e);
            },
        }
        let step = item.pack_size();
        assert(buffer@ =~= packed_items(next, old(buffer)@));
        size += step;
        i += 1;
    }
    assert(v@.subrange(0, i as int) =~= v@);
    Ok(size)
}

/// The sizes of a front part of the items add up to no more than those of
/// all of them.
pub proof fn lemma_total_size_grows<T: NativePack>(items: Seq<T>, count: int)
    requires
        0 <= count <= items.len(),
    ensures
        total_size(items.subrange(0, count)) <= total_size(items),
    decreases items.len(),
{
    if count < items.len() {
        lemma_total_size_grows(items.drop_last(), count);
        assert(items.drop_last().subrange(0, count) =~= items.subrange(0, count));
    } else {
        assert(items.subrange(0, count) =~= items);
    }
}

/// Once a front part of the items has outgrown the buffer, the items behind
/// it change nothing.
pub proof fn lemma_packed_items_stops<T: NativePack>(items: Seq<T>, buffer: Seq<u8>, count: int)
    requires
        0 <= count <= items.len(),
        total_size(items.subrange(0, count)) > buffer.len(),
    ensures
        packed_items(items, buffer) == packed_items(items.subrange(0, count), buffer),
    decreases items.len(),
{
    if count < items.len() {
        assert(items.drop_last().subrange(0, count) =~= items.subrange(0, count));
        lemma_packed_items_stops(items.drop_last(), buffer, count);
        lemma_total_size_grows(items.drop_last(), count);
    } else {
        assert(items.subrange(0, count) =~= items);
    }
}

/// A `u8` is unpacked from the byte packed for it, whatever follows.
pub proof fn lemma_unpack_packed_u8(value: u8, rest: Seq<u8>)
    ensures
        u8::decoded(value.packed() + rest) == Ok::<(nat, u8), NetlinkErrorKind>((1, value)),
{
}

/// An `i8` is unpacked from the byte packed for it, whatever follows.
pub proof fn lemma_unpack_packed_i8(value: i8, rest: Seq<u8>)
    ensures
        i8::decoded(value.packed() + rest) == Ok::<(nat, i8), NetlinkErrorKind>((1, value)),
{
    lemma_radix();
    lemma_signed_of_unsigned(value as int, 1);
}

/// A `u16` is unpacked from the bytes packed for it, whatever follows.
pub proof fn lemma_unpack_packed_u16(value: u16, rest: Seq<u8>)
    ensures
        u16::decoded(value.packed() + rest) == Ok::<(nat, u16), NetlinkErrorKind>((2, value)),
{
    lemma_radix();
    lemma_native_value_of_bytes(value as nat, 2);
    assert((value.packed() + rest).subrange(0, 2) =~= value.packed());
}

/// An `i16` is unpacked from the bytes packed for it, whatever follows.
pub proof fn lemma_unpack_packed_i16(value: i16, rest: Seq<u8>)
    ensures
        i16::decoded(value.packed() + rest) == Ok::<(nat, i16), NetlinkErrorKind>((2, value)),
{
    lemma_radix();
    lemma_signed_of_unsigned(value as int, 2);
    lemma_native_value_of_bytes(unsigned_value(value as int, 2), 2);
    assert((value.packed() + rest).subrange(0, 2) =~= value.packed());
}

/// A `u32` is unpacked from the bytes packed for it, whatever follows.
pub proof fn lemma_unpack_packed_u32(value: u32, rest: Seq<u8>)
    ensures
        u32::decoded(value.packed() + rest) == Ok::<(nat, u32), NetlinkErrorKind>((4, value)),
{
    lemma_radix();
    lemma_native_value_of_bytes(value as nat, 4);
    assert((value.packed() + rest).subrange(0, 4) =~= value.packed());
}

/// An `i32` is unpacked from the bytes packed for it, whatever follows.
pub proof fn lemma_unpack_packed_i32(value: i32, rest: Seq<u8>)
    ensures
        i32::decoded(value.packed() + rest) == Ok::<(nat, i32), NetlinkErrorKind>((4, value)),
{
    lemma_radix();
    lemma_signed_of_unsigned(value as int, 4);
    lemma_native_value_of_bytes(unsigned_value(value as int, 4), 4);
    assert((value.packed() + rest).subrange(0, 4) =~= value.packed());
}

/// A `u64` is unpacked from the bytes packed for it, whatever follows.
pub proof fn lemma_unpack_packed_u64(value: u64, rest: Seq<u8>)
    ensures
        u64::decoded(value.packed() + rest) == Ok::<(nat, u64), NetlinkErrorKind>((8, value)),
{
    lemma_radix();
    lemma_native_value_of_bytes(value as nat, 8);
    assert((value.packed() + rest).subrange(0, 8) =~= value.packed());
}

/// An `i64` is unpacked from the bytes packed for it, whatever follows.
pub proof fn lemma_unpack_packed_i64(value: i64, rest: Seq<u8>)
    ensures
        i64::decoded(value.packed() + rest) == Ok::<(nat, i64), NetlinkErrorKind>((8, value)),
{
    lemma_radix();
    lemma_signed_of_unsigned(value as int, 8);
    lemma_native_value_of_bytes(unsigned_value(value as int, 8), 8);
    assert((value.packed() + rest).subrange(0, 8) =~= value.packed());
}

/// A hardware address is unpacked from the octets packed for it, whatever
/// follows.
pub proof fn lemma_unpack_packed_hardware_address(value: HardwareAddress, rest: Seq<u8>)
    ensures
        HardwareAddress::decoded(value.packed() + rest) == Ok::<(nat, Seq<u8>), NetlinkErrorKind>(
            (6, value@),
        ),
{
    value.lemma_len();
    assert((value.packed() + rest).subrange(0, 6) =~= value@);
}

} // verus!
