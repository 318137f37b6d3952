//! A second interface to the codec for callers that only parse and pack:
//! `parse` gives the value without the size it was read from. Every type of
//! the codec has both traits.

use vstd::prelude::*;

use crate::base::pack::NativeUnpack;
use crate::errors::{Error, NetlinkErrorKind};

verus! {

/// Parse a value from the front of a byte slice, using native endian
pub trait NativeParse: Sized + View {
    /// The view of the value that the front of a buffer holds, or the reason
    /// why it holds none.
    spec fn parsed(buffer: Seq<u8>) -> Result<Self::V, NetlinkErrorKind>;

    /// Parse byte slice into value
    fn parse(buffer: &[u8]) -> (r: Result<Self, Error>)
        ensures
            match r {
                Ok(value) => Self::parsed(buffer@) == Ok::<Self::V, NetlinkErrorKind>(value@),
                Err(e) => Self::parsed(buffer@) matches Err(kind) && e.is_kind(kind),
            },
    ;

    /// Parse byte slice into value without failing
    fn parse_unchecked(buffer: &[u8]) -> (value: Self)
        requires
            Self::parsed(buffer@) is Ok,
        ensures
            Self::parsed(buffer@) == Ok::<Self::V, NetlinkErrorKind>(value@),
    ;
}

impl<T: NativeUnpack> NativeParse for T {
    open spec fn parsed(buffer: Seq<u8>) -> Result<T::V, NetlinkErrorKind> {
        match T::decoded(buffer) {
            Ok((_, value)) => Ok(value),
            Err(kind) => Err(kind),
        }
    }

    fn parse(buffer: &[u8]) -> (r: Result<Self, Error>) {
        T::unpack(buffer)
    }

    fn parse_unchecked(buffer: &[u8]) -> (value: Self) {
        T::unpack_unchecked(buffer)
    }
}

/// Pack value into byte slice, using native endian
pub trait NativePack: Sized {
    /// Whether the value's lengths fit the fields that carry them.
    spec fn fits(&self) -> bool;

    /// The bytes that packing writes.
    spec fn bytes(&self) -> Seq<u8>;

    /// The number of bytes that packing advances by.
    spec fn advance(&self) -> nat;

    /// Pack value into byte slice, returning the unused part of the slice
    fn pack<'a>(&self, buffer: &'a mut [u8]) -> (r: Result<&'a mut [u8], Error>)
        requires
            self.fits(),
        ensures
            match r {
                Ok(rest) => {
                    &&& old(buffer)@.len() >= self.advance()
                    &&& rest@ == old(buffer)@.skip(self.advance() as int)
                    &&& final(buffer)@ == self.bytes() + old(buffer)@.subrange(
                        self.bytes().len() as int,
                        self.advance() as int,
                    ) + final(rest)@
                },
                Err(e) => {
                    &&& old(buffer)@.len() < self.advance()
                    &&& final(buffer)@ == old(buffer)@
                    &&& e.is_kind(NetlinkErrorKind::NotEnoughData)
                },
            },
    ;

    /// Pack value into slice without failing
    fn pack_unchecked(&self, buffer: &mut [u8])
        requires
            self.fits(),
            old(buffer)@.len() >= self.advance(),
        ensures
            final(buffer)@ == self.bytes() + old(buffer)@.skip(self.bytes().len() as int),
    ;
}

impl<T: crate::base::pack::NativePack> NativePack for T {
    open spec fn fits(&self) -> bool {
        self.packable()
    }

    open spec fn bytes(&self) -> Seq<u8> {
        self.packed()
    }

    open spec fn advance(&self) -> nat {
        self.packed_size()
    }

    fn pack<'a>(&self, buffer: &'a mut [u8]) -> (r: Result<&'a mut [u8], Error>) {
        crate::base::pack::NativePack::pack(self, buffer)
    }

    fn pack_unchecked(&self, buffer: &mut [u8]) {
        crate::base::pack::NativePack::pack_unchecked(self, buffer)
    }
}

} // verus!
