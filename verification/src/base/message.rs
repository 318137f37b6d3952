use vstd::prelude::*;
use vstd::slice::{slice_subrange, slice_to_vec};

use crate::base::byte_order::{
    lemma_native_bytes_len, lemma_native_value_of_bytes, lemma_radix, native_bytes, native_value,
    read_i32, read_u16, read_u32,
    signed_value, write_u16, write_u32,
};
use crate::base::pack::{fixed_width, NativePack, NativeUnpack};
use crate::errors::{Error, NetlinkErrorKind};

verus! {

/// Message flags
#[derive(Clone, Copy, Debug, PartialEq, Eq, Structural)]
pub struct MessageFlags {
    bits: u16,
}

/// Bit of a request message.
pub const REQUEST: u16 = 0x0001;

/// Bit of a message that is one part of several.
pub const MULTIPART: u16 = 0x0002;

/// Bit that asks for an acknowledgement.
pub const ACKNOWLEDGE: u16 = 0x0004;

/// Bits (root and match) that ask for a dump.
pub const DUMP: u16 = 0x0300;

impl MessageFlags {
    /// The raw value of the flags.
    pub closed spec fn spec_bits(&self) -> u16 {
        self.bits
    }

    /// The raw value of the flags.
    #[verifier::when_used_as_spec(spec_bits)]
    pub fn bits(&self) -> (bits: u16)
        ensures
            bits == self.spec_bits(),
    {
        self.bits
    }

    /// Whether every flag of `other` is set.
    pub open spec fn spec_contains(&self, other: MessageFlags) -> bool {
        self.bits() & other.bits() == other.bits()
    }

    /// Whether some flag of `other` is set.
    pub open spec fn spec_intersects(&self, other: MessageFlags) -> bool {
        self.bits() & other.bits() != 0
    }

    /// No flag at all.
    pub fn empty() -> (flags: MessageFlags)
        ensures
            flags.bits() == 0,
    {
        MessageFlags { bits: 0 }
    }

    /// Request message
    pub fn request() -> (flags: MessageFlags)
        ensures
            flags.bits() == REQUEST,
    {
        MessageFlags { bits: REQUEST }
    }

    /// Multi-part message
    pub fn multipart() -> (flags: MessageFlags)
        ensures
            flags.bits() == MULTIPART,
    {
        MessageFlags { bits: MULTIPART }
    }

    /// Acknowledge message
    pub fn acknowledge() -> (flags: MessageFlags)
        ensures
            flags.bits() == ACKNOWLEDGE,
    {
        MessageFlags { bits: ACKNOWLEDGE }
    }

    /// Dump message
    pub fn dump() -> (flags: MessageFlags)
        ensures
            flags.bits() == DUMP,
    {
        MessageFlags { bits: DUMP }
    }

    /// The flags with exactly these bits, where each of them is defined.
    pub fn from_bits(bits: u16) -> (flags: Option<MessageFlags>)
        ensures
            match flags {
                Some(f) => f.bits() == bits && bits & !0x0307u16 == 0,
                None => bits & !0x0307u16 != 0,
            },
    {
        if bits & !0x0307u16 == 0 {
            Some(MessageFlags { bits: bits })
        } else {
            None
        }
    }

    /// The defined flags among `bits`; the undefined bits are dropped.
    pub fn from_bits_truncate(bits: u16) -> (flags: MessageFlags)
        ensures
            flags.bits() == bits & 0x0307,
    {
        MessageFlags { bits: bits & 0x0307 }
    }

    /// Whether every flag of `other` is set.
    #[verifier::when_used_as_spec(spec_contains)]
    pub fn contains(&self, other: MessageFlags) -> (yes: bool)
        ensures
            yes == self.spec_contains(other),
    {
        self.bits & other.bits == other.bits
    }

    /// Whether some flag of `other` is set.
    #[verifier::when_used_as_spec(spec_intersects)]
    pub fn intersects(&self, other: MessageFlags) -> (yes: bool)
        ensures
            yes == self.spec_intersects(other),
    {
        self.bits & other.bits != 0
    }
}

impl std::ops::BitOr for MessageFlags {
    type Output = MessageFlags;

    fn bitor(self, rhs: MessageFlags) -> (flags: MessageFlags) {
        MessageFlags { bits: self.bits | rhs.bits }
    }
}

impl vstd::std_specs::ops::BitOrSpecImpl for MessageFlags {
    open spec fn obeys_bitor_spec() -> bool {
        true
    }

    open spec fn bitor_req(self, rhs: MessageFlags) -> bool {
        true
    }

    closed spec fn bitor_spec(self, rhs: MessageFlags) -> MessageFlags {
        MessageFlags { bits: self.bits | rhs.bits }
    }
}

/// Message mode
///
/// Flags wich describes how the messages will be hadled
#[derive(Clone, Copy, Debug, PartialEq, Eq, Structural)]
pub enum MessageMode {
    /// No special flags
    Plain,
    /// Acknowledge message
    Acknowledge,
    /// Dump message
    Dump,
}

/// The least multiple of `align_to` that is not below `len`.
pub open spec fn aligned(len: nat, align_to: nat) -> nat {
    if align_to == 0 {
        len
    } else {
        ((len + align_to - 1) / (align_to as int) * align_to) as nat
    }
}

/// Rounds `len` up to a multiple of `alignment`.
pub fn align_to(len: usize, alignment: usize) -> (r: usize)
    requires
        alignment > 0,
        len + alignment - 1 <= usize::MAX,
    ensures
        r == aligned(len as nat, alignment as nat),
{
    let up = len + (alignment - 1);
    assert(up / alignment * alignment <= up) by (nonlinear_arith)
        requires
            alignment > 0,
            up >= 0,
    ;
    up / alignment * alignment
}

/// Rounds `len` up to a multiple of four, the alignment of netlink records.
pub fn netlink_align(len: usize) -> (r: usize)
    requires
        len + 3 <= usize::MAX,
    ensures
        r == aligned(len as nat, 4),
        len <= r < len + 4,
        r % 4 == 0,
{
    align_to(len, 4usize)
}

/// The number of bytes between `len` and the next multiple of four.
pub fn netlink_padding(len: usize) -> (r: usize)
    requires
        len + 3 <= usize::MAX,
    ensures
        r == aligned(len as nat, 4) - len,
        r < 4,
{
    netlink_align(len) - len
}

/// The mode that a request with these flag bits asks for.
pub open spec fn mode_of(bits: u16) -> MessageMode {
    if bits & DUMP != 0 {
        MessageMode::Dump
    } else if bits & ACKNOWLEDGE != 0 {
        MessageMode::Acknowledge
    } else {
        MessageMode::Plain
    }
}

/// The flag bits of a request that asks for `mode`.
pub open spec fn bits_of(mode: MessageMode) -> u16 {
    match mode {
        MessageMode::Plain => REQUEST,
        MessageMode::Acknowledge => REQUEST | ACKNOWLEDGE,
        MessageMode::Dump => REQUEST | DUMP,
    }
}

impl From<MessageFlags> for MessageMode {
    fn from(value: MessageFlags) -> (mode: MessageMode) {
        if value.intersects(MessageFlags::dump()) {
            MessageMode::Dump
        } else if value.intersects(MessageFlags::acknowledge()) {
            MessageMode::Acknowledge
        } else {
            MessageMode::Plain
        }
    }
}

impl vstd::std_specs::convert::FromSpecImpl<MessageFlags> for MessageMode {
    open spec fn obeys_from_spec() -> bool {
        true
    }

    open spec fn from_spec(value: MessageFlags) -> MessageMode {
        mode_of(value.bits())
    }
}

impl From<MessageMode> for MessageFlags {
    fn from(value: MessageMode) -> (flags: MessageFlags) {
        let flags = MessageFlags::request();
        match value {
            MessageMode::Plain => flags,
            MessageMode::Acknowledge => MessageFlags { bits: flags.bits | ACKNOWLEDGE },
            MessageMode::Dump => MessageFlags { bits: flags.bits | DUMP },
        }
    }
}

impl vstd::std_specs::convert::FromSpecImpl<MessageMode> for MessageFlags {
    open spec fn obeys_from_spec() -> bool {
        true
    }

    closed spec fn from_spec(value: MessageMode) -> MessageFlags {
        MessageFlags { bits: bits_of(value) }
    }
}

/// The flags made for a mode hold the bits of that mode.
pub proof fn lemma_flags_of_mode(mode: MessageMode)
    ensures
        <MessageFlags as vstd::std_specs::convert::FromSpec<MessageMode>>::from_spec(mode).bits()
            == bits_of(mode),
{
}

/// The flags made for a mode ask for that mode again.
pub proof fn lemma_mode_round_trip(mode: MessageMode)
    ensures
        mode_of(bits_of(mode)) == mode,
{
    assert(0x0001u16 & 0x0300u16 == 0 && 0x0001u16 & 0x0004u16 == 0) by (bit_vector);
    assert((0x0001u16 | 0x0004u16) & 0x0300u16 == 0 && (0x0001u16 | 0x0004u16) & 0x0004u16 != 0)
        by (bit_vector);
    assert((0x0001u16 | 0x0300u16) & 0x0300u16 != 0) by (bit_vector);
}

/// The union of two sets of flags holds the bits of both.
pub proof fn lemma_bitor(a: MessageFlags, b: MessageFlags)
    ensures
        <MessageFlags as vstd::std_specs::ops::BitOrSpec>::bitor_spec(a, b).bits() == a.bits()
            | b.bits(),
{
}

/// Netlink message header
///
/// ```text
/// | length | identifier | flags | sequence | pid |
/// |--------|------------|-------|----------|-----|
/// |   u32  |     u16    |  u16  |   u32    | u32 |
/// ```
///
/// Length is the total length of the message in bytes, including the header.
/// Message data comes after the header. The data is 4 byte aligned, which
/// means that the actual length message length might be longer than indicated
/// by the length field.
///
#[derive(Clone, Copy, Debug, PartialEq, Eq, Structural)]
pub struct Header {
    /// Message length
    pub length: u32,
    /// Message identifier
    pub identifier: u16,
    /// Message flags
    pub flags: u16,
    /// Message sequence
    pub sequence: u32,
    /// Message process identifier
    pub pid: u32,
}

/// Type of a record that carries nothing.
pub const NLMSG_NOOP: u16 = 1;

/// Type of a record that reports an error or acknowledges a request.
pub const NLMSG_ERROR: u16 = 2;

/// Type of the record that ends a dump.
pub const NLMSG_DONE: u16 = 3;

/// What a record is, by the type that its header states.
#[derive(Clone, Copy, Debug, PartialEq, Eq, Structural)]
pub enum RecordKind {
    /// A record that carries nothing.
    Noop,
    /// An error report, or an acknowledgement where its code is zero.
    Error,
    /// The end of a dump.
    Done,
    /// A record of some protocol, with a payload.
    Data,
}

/// The kind of the records of this type.
pub open spec fn record_kind(identifier: u16) -> RecordKind {
    if identifier == NLMSG_NOOP {
        RecordKind::Noop
    } else if identifier == NLMSG_ERROR {
        RecordKind::Error
    } else if identifier == NLMSG_DONE {
        RecordKind::Done
    } else {
        RecordKind::Data
    }
}

impl View for Header {
    type V = Header;

    open spec fn view(&self) -> Header {
        *self
    }
}

impl Header {
    /// The number of bytes of a packed header.
    pub const HEADER_SIZE: usize = 16;

    /// Returns the length including the header
    pub fn length(&self) -> (r: usize)
        ensures
            r == self.length,
    {
        self.length as usize
    }

    /// Returns the length of the data section
    pub fn data_length(&self) -> (r: usize)
        requires
            self.length >= 16,
        ensures
            r == self.length - 16,
    {
        self.length() - Header::HEADER_SIZE
    }

    /// Returns padding length in octets
    pub fn padding(&self) -> (r: usize)
        ensures
            r == aligned(self.length as nat, 4) - self.length,
            r < 4,
    {
        let over = self.length % 4;
        if over == 0 {
            0
        } else {
            (4 - over) as usize
        }
    }

    /// Returns length including header and padding
    pub fn aligned_length(&self) -> (r: usize)
        requires
            self.length + 3 <= usize::MAX,
        ensures
            r == aligned(self.length as nat, 4),
    {
        netlink_align(self.length())
    }

    /// Returns length of the data section header and padding
    pub fn aligned_data_length(&self) -> (r: usize)
        requires
            self.length >= 16,
        ensures
            r == aligned((self.length - 16) as nat, 4),
    {
        netlink_align(self.data_length())
    }

    /// Tells what kind of record the header stands in front of
    pub fn classify(&self) -> (kind: RecordKind)
        ensures
            kind == record_kind(self.identifier),
    {
        if self.identifier == NLMSG_NOOP {
            RecordKind::Noop
        } else if self.identifier == NLMSG_ERROR {
            RecordKind::Error
        } else if self.identifier == NLMSG_DONE {
            RecordKind::Done
        } else {
            RecordKind::Data
        }
    }

    /// Check if the message pid equals provided pid or broadcast (0)
    pub fn check_pid(&self, pid: u32) -> (r: bool)
        ensures
            r == (self.pid == 0 || self.pid == pid),
    {
        self.pid == 0 || self.pid == pid
    }

    /// The defined flags among the header's flag bits
    pub fn flags(&self) -> (r: MessageFlags)
        ensures
            r.bits() == self.flags & 0x0307,
    {
        MessageFlags::from_bits_truncate(self.flags)
    }

    /// The header whose fields the first sixteen bytes of `buffer` hold, in
    /// the order length, identifier, flags, sequence, pid.
    pub open spec fn of_bytes(buffer: Seq<u8>) -> Header {
        Header {
            length: native_value(buffer.subrange(0, 4)) as u32,
            identifier: native_value(buffer.subrange(4, 6)) as u16,
            flags: native_value(buffer.subrange(6, 8)) as u16,
            sequence: native_value(buffer.subrange(8, 12)) as u32,
            pid: native_value(buffer.subrange(12, 16)) as u32,
        }
    }

    /// The sixteen bytes that hold the header's fields.
    pub open spec fn to_bytes(self) -> Seq<u8> {
        native_bytes(self.length as nat, 4) + native_bytes(self.identifier as nat, 2)
            + native_bytes(self.flags as nat, 2) + native_bytes(self.sequence as nat, 4)
            + native_bytes(self.pid as nat, 4)
    }

    /// A packed header has sixteen bytes.
    pub proof fn lemma_to_bytes_len(self)
        ensures
            self.to_bytes().len() == 16,
    {
        lemma_native_bytes_len(self.length as nat, 4);
        lemma_native_bytes_len(self.identifier as nat, 2);
        lemma_native_bytes_len(self.flags as nat, 2);
        lemma_native_bytes_len(self.sequence as nat, 4);
        lemma_native_bytes_len(self.pid as nat, 4);
    }
}

/// A header is unpacked from the sixteen bytes packed for it, whatever
/// follows them.
pub proof fn lemma_unpack_packed_header(header: Header, rest: Seq<u8>)
    ensures
        header.to_bytes().len() == 16,
        Header::of_bytes(header.to_bytes() + rest) == header,
        Header::decoded(header.to_bytes() + rest) == Ok::<(nat, Header), NetlinkErrorKind>(
            (16, header),
        ),
{
    header.lemma_to_bytes_len();
    lemma_radix();
    lemma_native_value_of_bytes(header.length as nat, 4);
    lemma_native_value_of_bytes(header.identifier as nat, 2);
    lemma_native_value_of_bytes(header.flags as nat, 2);
    lemma_native_value_of_bytes(header.sequence as nat, 4);
    lemma_native_value_of_bytes(header.pid as nat, 4);
    let bytes = header.to_bytes() + rest;
    assert(bytes.subrange(0, 4) =~= native_bytes(header.length as nat, 4));
    assert(bytes.subrange(4, 6) =~= native_bytes(header.identifier as nat, 2));
    assert(bytes.subrange(6, 8) =~= native_bytes(header.flags as nat, 2));
    assert(bytes.subrange(8, 12) =~= native_bytes(header.sequence as nat, 4));
    assert(bytes.subrange(12, 16) =~= native_bytes(header.pid as nat, 4));
}

/// A buffer of fewer than sixteen bytes holds no header; any sixteen bytes
/// or more hold one, whatever their values.
pub proof fn lemma_header_decoded(buffer: Seq<u8>)
    ensures
        buffer.len() < 16 ==> Header::decoded(buffer) == Err::<(nat, Header), NetlinkErrorKind>(
            NetlinkErrorKind::NotEnoughData,
        ),
        buffer.len() >= 16 ==> Header::decoded(buffer) == Ok::<(nat, Header), NetlinkErrorKind>(
            (16, Header::of_bytes(buffer)),
        ),
{
}

impl NativePack for Header {
    open spec fn packable(&self) -> bool {
        true
    }

    open spec fn packed(&self) -> Seq<u8> {
        self.to_bytes()
    }

    open spec fn packed_size(&self) -> nat {
        16
    }

    fn pack_size(&self) -> (size: usize) {
        proof {
            self.lemma_to_bytes_len();
        }
        Header::HEADER_SIZE
    }

    fn pack_unchecked(&self, buffer: &mut [u8]) {
        proof {
            self.lemma_to_bytes_len();
            lemma_native_bytes_len(self.length as nat, 4);
            lemma_native_bytes_len(self.identifier as nat, 2);
            lemma_native_bytes_len(self.flags as nat, 2);
            lemma_native_bytes_len(self.sequence as nat, 4);
            lemma_native_bytes_len(self.pid as nat, 4);
        }
        let ghost before = buffer@;
        write_u32(buffer, self.length);
        let (_, rest) = buffer.split_at_mut(4);
        write_u16(rest, self.identifier);
        let (_, rest) = buffer.split_at_mut(6);
        write_u16(rest, self.flags);
        let (_, rest) = buffer.split_at_mut(8);
        write_u32(rest, self.sequence);
        let (_, rest) = buffer.split_at_mut(12);
        write_u32(rest, self.pid);
        assert(buffer@ =~= self.to_bytes() + before.skip(16));
    }
}

impl NativeUnpack for Header {
    open spec fn decoded(buffer: Seq<u8>) -> Result<(nat, Header), NetlinkErrorKind> {
        fixed_width(buffer, 16, Header::of_bytes(buffer))
    }

    fn unpack_with_size(buffer: &[u8]) -> (r: Result<(usize, Self), Error>) {
        if buffer.len() < Header::HEADER_SIZE {
            return Err(Error::netlink(NetlinkErrorKind::NotEnoughData));
        }
        Ok((Header::HEADER_SIZE, Self::unpack_unchecked(buffer)))
    }

    fn unpack_unchecked(buffer: &[u8]) -> (value: Self) {
        let n = buffer.len();
        let length = read_u32(buffer);
        let identifier = read_u16(slice_subrange(buffer, 4, n));
        let flags = read_u16(slice_subrange(buffer, 6, n));
        let sequence = read_u32(slice_subrange(buffer, 8, n));
        let pid = read_u32(slice_subrange(buffer, 12, n));
        proof {
            let b = buffer@;
            assert(b.subrange(4, n as int).subrange(0, 2) =~= b.subrange(4, 6));
            assert(b.subrange(6, n as int).subrange(0, 2) =~= b.subrange(6, 8));
            assert(b.subrange(8, n as int).subrange(0, 4) =~= b.subrange(8, 12));
            assert(b.subrange(12, n as int).subrange(0, 4) =~= b.subrange(12, 16));
        }
        Header {
            length: length,
            identifier: identifier,
            flags: flags,
            sequence: sequence,
            pid: pid,
        }
    }
}

/// Netlink error message
///
/// ```text
/// | header |  error code  | Original Header |
/// |--------|--------------|-----------------|
/// | Header |      i32     |     Header      |
/// ```
///
/// Header is the message header, See [Header](struct.Header.html).
/// The error code is an errno number reported by the kernel.
/// The original header is the header of the message that caused this error.
#[derive(Clone, Copy, Debug, PartialEq, Eq, Structural)]
pub struct ErrorMessage {
    pub header: Header,
    pub code: i32,
    pub original_header: Header,
}

impl ErrorMessage {
    /// The error code that the first four bytes of an error record hold.
    pub open spec fn code_of(data: Seq<u8>) -> i32 {
        signed_value(native_value(data.subrange(0, 4)), 4) as i32
    }

    /// What the data behind an error record's header decodes to.
    pub open spec fn decoded(data: Seq<u8>, header: Header) -> Result<
        (nat, ErrorMessage),
        NetlinkErrorKind,
    > {
        if data.len() < 20 {
            Err(NetlinkErrorKind::NotEnoughData)
        } else {
            Ok(
                (
                    20,
                    ErrorMessage {
                        header: header,
                        code: Self::code_of(data),
                        original_header: Header::of_bytes(data.subrange(4, 20)),
                    },
                ),
            )
        }
    }

    /// Unpack the error code and the header that caused the error
    pub fn unpack(data: &[u8], header: Header) -> (r: Result<(usize, ErrorMessage), Error>)
        ensures
            match r {
                Ok((size, message)) => Self::decoded(data@, header) == Ok::<_, NetlinkErrorKind>(
                    (size as nat, message),
                ),
                Err(e) => Self::decoded(data@, header) matches Err(kind) && e.is_kind(kind),
            },
    {
        let size = 4 + Header::HEADER_SIZE;
        if data.len() < size {
            return Err(Error::netlink(NetlinkErrorKind::NotEnoughData));
        }
        let code = read_i32(data);
        let original = Header::unpack_unchecked(slice_subrange(data, 4, size));
        Ok((size, ErrorMessage { header: header, code: code, original_header: original }))
    }
}

/// Netlink data message
///
/// ```text
/// | header |    data     | padding |
/// |--------|-------------|---------|
/// | Header | u8 * length |         |
/// ```
///
/// Header is the message header, See [Header](struct.Header.html).
/// The data is 4 byte aligned.
#[derive(Debug)]
pub struct Message {
    /// Message header
    pub header: Header,
    /// Message data
    pub data: Vec<u8>,
}

impl View for Message {
    type V = (Header, Seq<u8>);

    open spec fn view(&self) -> (Header, Seq<u8>) {
        (self.header, self.data@)
    }
}

impl Message {
    /// What the data behind a header decodes to: the number of bytes that
    /// the record takes up, padding included, and the message.
    pub open spec fn decoded(data: Seq<u8>, header: Header) -> Result<
        (nat, (Header, Seq<u8>)),
        NetlinkErrorKind,
    > {
        if header.length < 16 {
            Err(NetlinkErrorKind::InvalidLength)
        } else if data.len() < aligned((header.length - 16) as nat, 4) {
            Err(NetlinkErrorKind::NotEnoughData)
        } else {
            Ok(
                (
                    aligned((header.length - 16) as nat, 4),
                    (header, data.subrange(0, header.length - 16)),
                ),
            )
        }
    }

    /// Unpack Message from byte slice and message header
    pub fn unpack(data: &[u8], header: Header) -> (r: Result<(usize, Message), Error>)
        ensures
            match r {
                Ok((size, message)) => Self::decoded(data@, header) == Ok::<_, NetlinkErrorKind>(
                    (size as nat, message@),
                ),
                Err(e) => Self::decoded(data@, header) matches Err(kind) && e.is_kind(kind),
            },
    {
        if header.length() < Header::HEADER_SIZE {
            return Err(Error::netlink(NetlinkErrorKind::InvalidLength));
        }
        let size = header.data_length();
        let aligned_size = netlink_align(size);
        if data.len() < aligned_size {
            return Err(Error::netlink(NetlinkErrorKind::NotEnoughData));
        }
        Ok((aligned_size, Message { header: header, data: slice_to_vec(slice_subrange(data, 0, size)) }))
    }

    /// The bytes that packing the message writes: the header and the data.
    pub open spec fn packed(&self) -> Seq<u8> {
        self.header.to_bytes() + self.data@
    }

    /// The number of bytes that packing the message advances by: what it
    /// writes and the padding that the header's length calls for.
    pub open spec fn packed_size(&self) -> nat {
        (16 + self.data@.len() + aligned(self.header.length as nat, 4) - self.header.length) as nat
    }

    /// Pack data into byte slice
    pub fn pack<'a>(&self, buffer: &'a mut [u8]) -> (r: Result<&'a mut [u8], Error>)
        ensures
            match r {
                Ok(rest) => {
                    &&& old(buffer)@.len() >= self.packed_size()
                    &&& rest@ == old(buffer)@.skip(self.packed_size() as int)
                    &&& final(buffer)@ == self.packed() + old(buffer)@.subrange(
                        self.packed().len() as int,
                        self.packed_size() as int,
                    ) + final(rest)@
                },
                Err(e) => {
                    &&& old(buffer)@.len() < self.packed_size()
                    &&& final(buffer)@ == old(buffer)@
                    &&& e.is_kind(NetlinkErrorKind::NotEnoughData)
                },
            },
    {
        let padding = self.header.padding();
        let capacity = buffer.len();
        if capacity < Header::HEADER_SIZE || capacity - Header::HEADER_SIZE < self.data.len()
            || capacity - Header::HEADER_SIZE - self.data.len() < padding {
            return Err(Error::netlink(NetlinkErrorKind::NotEnoughData));
        }
        let size = Header::HEADER_SIZE + self.data.len() + padding;
        proof {
            self.header.lemma_to_bytes_len();
        }
        self.header.pack_unchecked(buffer);
        let (_, body) = buffer.split_at_mut(Header::HEADER_SIZE);
        self.data.pack_unchecked(body);
        let (_, rest) = buffer.split_at_mut(size);
        Ok(rest)
    }
}

pub type Messages = Vec<Message>;

} // verus!
