//! Generic netlink: the controller family's messages and the lookup of
//! families by name and number.

use vstd::prelude::*;
use vstd::string::StringSliceAdditionalSpecFns;

use crate::base;
use crate::base::attribute::{
    lemma_parse_all_packed_items, parse_all, text, views, Attribute, ATTRIBUTE_MAX_PAYLOAD,
};
use crate::base::byte_order::{lemma_native_bytes_len, native_bytes};
use crate::base::message::{bits_of, lemma_flags_of_mode, Header, MessageFlags, MessageMode};
use crate::base::pack::{pack_vec, packed_items, total_size, NativePack, NativeUnpack};
use crate::base::socket::{failure, message_views, SendMessage};
use crate::base::ConvertFrom;
use crate::errors::{Error, NetlinkErrorKind};

verus! {

/// Identifiers of the generic families with a fixed number
#[derive(Clone, Copy, Debug, PartialEq, Eq, Structural)]
pub enum FamilyId {
    Control,
    VirtualFileSystemDiskQuota,
    Raid,
}

impl FamilyId {
    /// The number that stands for the variant on the wire.
    pub open spec fn raw(self) -> u16 {
        match self {
            FamilyId::Control => 16,
            FamilyId::VirtualFileSystemDiskQuota => 17,
            FamilyId::Raid => 18,
        }
    }

    /// The variant that a number stands for, if it stands for one.
    pub open spec fn of_raw(value: u16) -> Option<FamilyId> {
        if value == 16 {
            Some(FamilyId::Control)
        } else if value == 17 {
            Some(FamilyId::VirtualFileSystemDiskQuota)
        } else if value == 18 {
            Some(FamilyId::Raid)
        } else {
            None
        }
    }

    /// Each variant is found again from its number.
    pub proof fn lemma_of_raw_of_variant(self)
        ensures
            FamilyId::of_raw(self.raw()) == Some(self),
    {
    }

    /// A number stands for no variant but the one that it belongs to.
    pub proof fn lemma_raw_of_found(value: u16)
        ensures
            FamilyId::of_raw(value) matches Some(variant) ==> variant.raw() == value,
    {
    }
}

impl From<FamilyId> for u16 {
    fn from(v: FamilyId) -> (value: u16) {
        match v {
            FamilyId::Control => 16,
            FamilyId::VirtualFileSystemDiskQuota => 17,
            FamilyId::Raid => 18,
        }
    }
}

impl vstd::std_specs::convert::FromSpecImpl<FamilyId> for u16 {
    open spec fn obeys_from_spec() -> bool {
        true
    }

    open spec fn from_spec(v: FamilyId) -> u16 {
        v.raw()
    }
}

impl ConvertFrom<u16> for FamilyId {
    open spec fn converted(v: u16) -> Option<FamilyId> {
        FamilyId::of_raw(v)
    }

    fn convert_from(v: u16) -> (variant: Option<FamilyId>) {
        match v {
            16 => Some(FamilyId::Control),
            17 => Some(FamilyId::VirtualFileSystemDiskQuota),
            18 => Some(FamilyId::Raid),
            _ => None,
        }
    }
}

impl PartialEq<FamilyId> for u16 {
    fn eq(&self, other: &FamilyId) -> (equal: bool) {
        match *other {
            FamilyId::Control => *self == 16,
            FamilyId::VirtualFileSystemDiskQuota => *self == 17,
            FamilyId::Raid => *self == 18,
        }
    }
}

impl vstd::std_specs::cmp::PartialEqSpecImpl<FamilyId> for u16 {
    open spec fn obeys_eq_spec() -> bool {
        true
    }

    open spec fn eq_spec(&self, other: &FamilyId) -> bool {
        *self == other.raw()
    }
}

/// Commands of the controller family
#[derive(Clone, Copy, Debug, PartialEq, Eq, Structural)]
pub enum Command {
    Unspecified,
    NewFamily,
    DelFamily,
    GetFamily,
    NewOps,
    DelOps,
    GetOps,
    NewMulticastGroup,
    DelMulticastGroup,
    GetMulticastGroup,
}

impl Command {
    /// The number that stands for the variant on the wire.
    pub open spec fn raw(self) -> u8 {
        match self {
            Command::Unspecified => 0,
            Command::NewFamily => 1,
            Command::DelFamily => 2,
            Command::GetFamily => 3,
            Command::NewOps => 4,
            Command::DelOps => 5,
            Command::GetOps => 6,
            Command::NewMulticastGroup => 7,
            Command::DelMulticastGroup => 8,
            Command::GetMulticastGroup => 9,
        }
    }

    /// The variant that a number stands for, if it stands for one.
    pub open spec fn of_raw(value: u8) -> Option<Command> {
        if value == 0 {
            Some(Command::Unspecified)
        } else if value == 1 {
            Some(Command::NewFamily)
        } else if value == 2 {
            Some(Command::DelFamily)
        } else if value == 3 {
            Some(Command::GetFamily)
        } else if value == 4 {
            Some(Command::NewOps)
        } else if value == 5 {
            Some(Command::DelOps)
        } else if value == 6 {
            Some(Command::GetOps)
        } else if value == 7 {
            Some(Command::NewMulticastGroup)
        } else if value == 8 {
            Some(Command::DelMulticastGroup)
        } else if value == 9 {
            Some(Command::GetMulticastGroup)
        } else {
            None
        }
    }

    /// Each variant is found again from its number.
    pub proof fn lemma_of_raw_of_variant(self)
        ensures
            Command::of_raw(self.raw()) == Some(self),
    {
    }

    /// A number stands for no variant but the one that it belongs to.
    pub proof fn lemma_raw_of_found(value: u8)
        ensures
            Command::of_raw(value) matches Some(variant) ==> variant.raw() == value,
    {
    }
}

impl From<Command> for u8 {
    fn from(v: Command) -> (value: u8) {
        match v {
            Command::Unspecified => 0,
            Command::NewFamily => 1,
            Command::DelFamily => 2,
            Command::GetFamily => 3,
            Command::NewOps => 4,
            Command::DelOps => 5,
            Command::GetOps => 6,
            Command::NewMulticastGroup => 7,
            Command::DelMulticastGroup => 8,
            Command::GetMulticastGroup => 9,
        }
    }
}

impl vstd::std_specs::convert::FromSpecImpl<Command> for u8 {
    open spec fn obeys_from_spec() -> bool {
        true
    }

    open spec fn from_spec(v: Command) -> u8 {
        v.raw()
    }
}

impl From<u8> for Command {
    fn from(v: u8) -> (variant: Command) {
        match v {
            0 => Command::Unspecified,
            1 => Command::NewFamily,
            2 => Command::DelFamily,
            3 => Command::GetFamily,
            4 => Command::NewOps,
            5 => Command::DelOps,
            6 => Command::GetOps,
            7 => Command::NewMulticastGroup,
            8 => Command::DelMulticastGroup,
            9 => Command::GetMulticastGroup,
            _ => Command::Unspecified,
        }
    }
}

impl vstd::std_specs::convert::FromSpecImpl<u8> for Command {
    open spec fn obeys_from_spec() -> bool {
        true
    }

    open spec fn from_spec(v: u8) -> Command {
        match Command::of_raw(v) {
            Some(variant) => variant,
            None => Command::Unspecified,
        }
    }
}

impl ConvertFrom<u8> for Command {
    open spec fn converted(v: u8) -> Option<Command> {
        Command::of_raw(v)
    }

    fn convert_from(v: u8) -> (variant: Option<Command>) {
        match v {
            0 => Some(Command::Unspecified),
            1 => Some(Command::NewFamily),
            2 => Some(Command::DelFamily),
            3 => Some(Command::GetFamily),
            4 => Some(Command::NewOps),
            5 => Some(Command::DelOps),
            6 => Some(Command::GetOps),
            7 => Some(Command::NewMulticastGroup),
            8 => Some(Command::DelMulticastGroup),
            9 => Some(Command::GetMulticastGroup),
            _ => None,
        }
    }
}

impl PartialEq<Command> for u8 {
    fn eq(&self, other: &Command) -> (equal: bool) {
        match *other {
            Command::Unspecified => *self == 0,
            Command::NewFamily => *self == 1,
            Command::DelFamily => *self == 2,
            Command::GetFamily => *self == 3,
            Command::NewOps => *self == 4,
            Command::DelOps => *self == 5,
            Command::GetOps => *self == 6,
            Command::NewMulticastGroup => *self == 7,
            Command::DelMulticastGroup => *self == 8,
            Command::GetMulticastGroup => *self == 9,
        }
    }
}

impl vstd::std_specs::cmp::PartialEqSpecImpl<Command> for u8 {
    open spec fn obeys_eq_spec() -> bool {
        true
    }

    open spec fn eq_spec(&self, other: &Command) -> bool {
        *self == other.raw()
    }
}

/// Attributes of a controller message
#[derive(Clone, Copy, Debug, PartialEq, Eq, Structural)]
pub enum AttributeId {
    Unspecified,
    FamilyId,
    FamilyName,
    Version,
    HeaderSize,
    MaximumAttributes,
    Operations,
    MulticastGroups,
}

impl AttributeId {
    /// The number that stands for the variant on the wire.
    pub open spec fn raw(self) -> u16 {
        match self {
            AttributeId::Unspecified => 0,
            AttributeId::FamilyId => 1,
            AttributeId::FamilyName => 2,
            AttributeId::Version => 3,
            AttributeId::HeaderSize => 4,
            AttributeId::MaximumAttributes => 5,
            AttributeId::Operations => 6,
            AttributeId::MulticastGroups => 7,
        }
    }

    /// The variant that a number stands for, if it stands for one.
    pub open spec fn of_raw(value: u16) -> Option<AttributeId> {
        if value == 0 {
            Some(AttributeId::Unspecified)
        } else if value == 1 {
            Some(AttributeId::FamilyId)
        } else if value == 2 {
            Some(AttributeId::FamilyName)
        } else if value == 3 {
            Some(AttributeId::Version)
        } else if value == 4 {
            Some(AttributeId::HeaderSize)
        } else if value == 5 {
            Some(AttributeId::MaximumAttributes)
        } else if value == 6 {
            Some(AttributeId::Operations)
        } else if value == 7 {
            Some(AttributeId::MulticastGroups)
        } else {
            None
        }
    }

    /// Each variant is found again from its number.
    pub proof fn lemma_of_raw_of_variant(self)
        ensures
            AttributeId::of_raw(self.raw()) == Some(self),
    {
    }

    /// A number stands for no variant but the one that it belongs to.
    pub proof fn lemma_raw_of_found(value: u16)
        ensures
            AttributeId::of_raw(value) matches Some(variant) ==> variant.raw() == value,
    {
    }
}

impl From<AttributeId> for u16 {
    fn from(v: AttributeId) -> (value: u16) {
        match v {
            AttributeId::Unspecified => 0,
            AttributeId::FamilyId => 1,
            AttributeId::FamilyName => 2,
            AttributeId::Version => 3,
            AttributeId::HeaderSize => 4,
            AttributeId::MaximumAttributes => 5,
            AttributeId::Operations => 6,
            AttributeId::MulticastGroups => 7,
        }
    }
}

impl vstd::std_specs::convert::FromSpecImpl<AttributeId> for u16 {
    open spec fn obeys_from_spec() -> bool {
        true
    }

    open spec fn from_spec(v: AttributeId) -> u16 {
        v.raw()
    }
}

impl From<u16> for AttributeId {
    fn from(v: u16) -> (variant: AttributeId) {
        match v {
            0 => AttributeId::Unspecified,
            1 => AttributeId::FamilyId,
            2 => AttributeId::FamilyName,
            3 => AttributeId::Version,
            4 => AttributeId::HeaderSize,
            5 => AttributeId::MaximumAttributes,
            6 => AttributeId::Operations,
            7 => AttributeId::MulticastGroups,
            _ => AttributeId::Unspecified,
        }
    }
}

impl vstd::std_specs::convert::FromSpecImpl<u16> for AttributeId {
    open spec fn obeys_from_spec() -> bool {
        true
    }

    open spec fn from_spec(v: u16) -> AttributeId {
        match AttributeId::of_raw(v) {
            Some(variant) => variant,
            None => AttributeId::Unspecified,
        }
    }
}

impl ConvertFrom<u16> for AttributeId {
    open spec fn converted(v: u16) -> Option<AttributeId> {
        AttributeId::of_raw(v)
    }

    fn convert_from(v: u16) -> (variant: Option<AttributeId>) {
        match v {
            0 => Some(AttributeId::Unspecified),
            1 => Some(AttributeId::FamilyId),
            2 => Some(AttributeId::FamilyName),
            3 => Some(AttributeId::Version),
            4 => Some(AttributeId::HeaderSize),
            5 => Some(AttributeId::MaximumAttributes),
            6 => Some(AttributeId::Operations),
            7 => Some(AttributeId::MulticastGroups),
            _ => None,
        }
    }
}

impl PartialEq<AttributeId> for u16 {
    fn eq(&self, other: &AttributeId) -> (equal: bool) {
        match *other {
            AttributeId::Unspecified => *self == 0,
            AttributeId::FamilyId => *self == 1,
            AttributeId::FamilyName => *self == 2,
            AttributeId::Version => *self == 3,
            AttributeId::HeaderSize => *self == 4,
            AttributeId::MaximumAttributes => *self == 5,
            AttributeId::Operations => *self == 6,
            AttributeId::MulticastGroups => *self == 7,
        }
    }
}

impl vstd::std_specs::cmp::PartialEqSpecImpl<AttributeId> for u16 {
    open spec fn obeys_eq_spec() -> bool {
        true
    }

    open spec fn eq_spec(&self, other: &AttributeId) -> bool {
        *self == other.raw()
    }
}

/// Attributes of an operation of a family
#[derive(Clone, Copy, Debug, PartialEq, Eq, Structural)]
pub enum OperationAttributeId {
    Unspecified,
    Id,
    Flags,
}

impl OperationAttributeId {
    /// The number that stands for the variant on the wire.
    pub open spec fn raw(self) -> u16 {
        match self {
            OperationAttributeId::Unspecified => 0,
            OperationAttributeId::Id => 1,
            OperationAttributeId::Flags => 2,
        }
    }

    /// The variant that a number stands for, if it stands for one.
    pub open spec fn of_raw(value: u16) -> Option<OperationAttributeId> {
        if value == 0 {
            Some(OperationAttributeId::Unspecified)
        } else if value == 1 {
            Some(OperationAttributeId::Id)
        } else if value == 2 {
            Some(OperationAttributeId::Flags)
        } else {
            None
        }
    }

    /// Each variant is found again from its number.
    pub proof fn lemma_of_raw_of_variant(self)
        ensures
            OperationAttributeId::of_raw(self.raw()) == Some(self),
    {
    }

    /// A number stands for no variant but the one that it belongs to.
    pub proof fn lemma_raw_of_found(value: u16)
        ensures
            OperationAttributeId::of_raw(value) matches Some(variant) ==> variant.raw() == value,
    {
    }
}

impl From<OperationAttributeId> for u16 {
    fn from(v: OperationAttributeId) -> (value: u16) {
        match v {
            OperationAttributeId::Unspecified => 0,
            OperationAttributeId::Id => 1,
            OperationAttributeId::Flags => 2,
        }
    }
}

impl vstd::std_specs::convert::FromSpecImpl<OperationAttributeId> for u16 {
    open spec fn obeys_from_spec() -> bool {
        true
    }

    open spec fn from_spec(v: OperationAttributeId) -> u16 {
        v.raw()
    }
}

impl From<u16> for OperationAttributeId {
    fn from(v: u16) -> (variant: OperationAttributeId) {
        match v {
            0 => OperationAttributeId::Unspecified,
            1 => OperationAttributeId::Id,
            2 => OperationAttributeId::Flags,
            _ => OperationAttributeId::Unspecified,
        }
    }
}

impl vstd::std_specs::convert::FromSpecImpl<u16> for OperationAttributeId {
    open spec fn obeys_from_spec() -> bool {
        true
    }

    open spec fn from_spec(v: u16) -> OperationAttributeId {
        match OperationAttributeId::of_raw(v) {
            Some(variant) => variant,
            None => OperationAttributeId::Unspecified,
        }
    }
}

impl ConvertFrom<u16> for OperationAttributeId {
    open spec fn converted(v: u16) -> Option<OperationAttributeId> {
        OperationAttributeId::of_raw(v)
    }

    fn convert_from(v: u16) -> (variant: Option<OperationAttributeId>) {
        match v {
            0 => Some(OperationAttributeId::Unspecified),
            1 => Some(OperationAttributeId::Id),
            2 => Some(OperationAttributeId::Flags),
            _ => None,
        }
    }
}

impl PartialEq<OperationAttributeId> for u16 {
    fn eq(&self, other: &OperationAttributeId) -> (equal: bool) {
        match *other {
            OperationAttributeId::Unspecified => *self == 0,
            OperationAttributeId::Id => *self == 1,
            OperationAttributeId::Flags => *self == 2,
        }
    }
}

impl vstd::std_specs::cmp::PartialEqSpecImpl<OperationAttributeId> for u16 {
    open spec fn obeys_eq_spec() -> bool {
        true
    }

    open spec fn eq_spec(&self, other: &OperationAttributeId) -> bool {
        *self == other.raw()
    }
}

/// Attributes of a multicast group of a family
#[derive(Clone, Copy, Debug, PartialEq, Eq, Structural)]
pub enum MulticastAttributeId {
    Unspecified,
    Name,
    Id,
}

impl MulticastAttributeId {
    /// The number that stands for the variant on the wire.
    pub open spec fn raw(self) -> u16 {
        match self {
            MulticastAttributeId::Unspecified => 0,
            MulticastAttributeId::Name => 1,
            MulticastAttributeId::Id => 2,
        }
    }

    /// The variant that a number stands for, if it stands for one.
    pub open spec fn of_raw(value: u16) -> Option<MulticastAttributeId> {
        if value == 0 {
            Some(MulticastAttributeId::Unspecified)
        } else if value == 1 {
            Some(MulticastAttributeId::Name)
        } else if value == 2 {
            Some(MulticastAttributeId::Id)
        } else {
            None
        }
    }

    /// Each variant is found again from its number.
    pub proof fn lemma_of_raw_of_variant(self)
        ensures
            MulticastAttributeId::of_raw(self.raw()) == Some(self),
    {
    }

    /// A number stands for no variant but the one that it belongs to.
    pub proof fn lemma_raw_of_found(value: u16)
        ensures
            MulticastAttributeId::of_raw(value) matches Some(variant) ==> variant.raw() == value,
    {
    }
}

impl From<MulticastAttributeId> for u16 {
    fn from(v: MulticastAttributeId) -> (value: u16) {
        match v {
            MulticastAttributeId::Unspecified => 0,
            MulticastAttributeId::Name => 1,
            MulticastAttributeId::Id => 2,
        }
    }
}

impl vstd::std_specs::convert::FromSpecImpl<MulticastAttributeId> for u16 {
    open spec fn obeys_from_spec() -> bool {
        true
    }

    open spec fn from_spec(v: MulticastAttributeId) -> u16 {
        v.raw()
    }
}

impl From<u16> for MulticastAttributeId {
    fn from(v: u16) -> (variant: MulticastAttributeId) {
        match v {
            0 => MulticastAttributeId::Unspecified,
            1 => MulticastAttributeId::Name,
            2 => MulticastAttributeId::Id,
            _ => MulticastAttributeId::Unspecified,
        }
    }
}

impl vstd::std_specs::convert::FromSpecImpl<u16> for MulticastAttributeId {
    open spec fn obeys_from_spec() -> bool {
        true
    }

    open spec fn from_spec(v: u16) -> MulticastAttributeId {
        match MulticastAttributeId::of_raw(v) {
            Some(variant) => variant,
            None => MulticastAttributeId::Unspecified,
        }
    }
}

impl ConvertFrom<u16> for MulticastAttributeId {
    open spec fn converted(v: u16) -> Option<MulticastAttributeId> {
        MulticastAttributeId::of_raw(v)
    }

    fn convert_from(v: u16) -> (variant: Option<MulticastAttributeId>) {
        match v {
            0 => Some(MulticastAttributeId::Unspecified),
            1 => Some(MulticastAttributeId::Name),
            2 => Some(MulticastAttributeId::Id),
            _ => None,
        }
    }
}

impl PartialEq<MulticastAttributeId> for u16 {
    fn eq(&self, other: &MulticastAttributeId) -> (equal: bool) {
        match *other {
            MulticastAttributeId::Unspecified => *self == 0,
            MulticastAttributeId::Name => *self == 1,
            MulticastAttributeId::Id => *self == 2,
        }
    }
}

impl vstd::std_specs::cmp::PartialEqSpecImpl<MulticastAttributeId> for u16 {
    open spec fn obeys_eq_spec() -> bool {
        true
    }

    open spec fn eq_spec(&self, other: &MulticastAttributeId) -> bool {
        *self == other.raw()
    }
}

/// What a generic netlink message holds, as mathematical values.
pub struct MessageView {
    pub family: u16,
    pub command: u8,
    pub version: u8,
    pub flags: u16,
    pub attributes: Seq<(u16, Seq<u8>)>,
}

/// Netlink generic message
#[derive(Debug)]
pub struct Message {
    pub family: u16,
    pub command: u8,
    pub version: u8,
    pub flags: MessageFlags,
    pub attributes: Vec<Attribute>,
}

impl View for Message {
    type V = MessageView;

    open spec fn view(&self) -> MessageView {
        MessageView {
            family: self.family,
            command: self.command,
            version: self.version,
            flags: self.flags.bits(),
            attributes: views(self.attributes@),
        }
    }
}

impl Message {
    /// Whether every attribute is short enough for its length field.
    pub open spec fn wf(&self) -> bool {
        forall|i: int| 0 <= i < self.attributes@.len() ==> (#[trigger] self.attributes@[i]).wf()
    }

    /// Create a new message
    pub fn new<F: Into<u16>, C: Into<u8>, M: Into<MessageFlags>>(family: F, command: C, mode: M)
        -> (message: Message)
        ensures
            message.wf(),
            call_ensures(F::into, (family,), message.family),
            call_ensures(C::into, (command,), message.command),
            call_ensures(M::into, (mode,), message.flags),
            message.version == 1,
            message.attributes@.len() == 0,
    {
        Message {
            family: family.into(),
            command: command.into(),
            version: 1u8,
            flags: mode.into(),
            attributes: Vec::new(),
        }
    }

    /// What the payload of a data message decodes to: the number of bytes
    /// read and the message, whose family the payload does not state.
    pub open spec fn decoded(data: Seq<u8>) -> Result<(nat, MessageView), NetlinkErrorKind> {
        if data.len() < 4 {
            Err(NetlinkErrorKind::NotEnoughData)
        } else {
            Ok(
                (
                    4 + parse_all(data.skip(4)).0,
                    MessageView {
                        family: 0xffff,
                        command: data[0],
                        version: data[1],
                        flags: 0,
                        attributes: parse_all(data.skip(4)).1,
                    },
                ),
            )
        }
    }

    /// unpack message from slice
    pub fn unpack(data: &[u8]) -> (r: Result<(usize, Message), Error>)
        ensures
            match r {
                Ok((size, message)) => Self::decoded(data@) == Ok::<_, NetlinkErrorKind>(
                    (size as nat, message@),
                ) && message.wf(),
                Err(e) => Self::decoded(data@) matches Err(kind) && e.is_kind(kind),
            },
    {
        if data.len() < 4 {
            return Err(Error::netlink(NetlinkErrorKind::NotEnoughData));
        }
        let command = data[0];
        let version = data[1];
        // skip reserved u16
        let rest = vstd::slice::slice_subrange(data, 4, data.len());
        assert(rest@ =~= data@.skip(4));
        let (consumed, attributes) = Attribute::unpack_all(rest);
        Ok(
            (
                consumed + 4usize,
                Message {
                    family: 0xffff,
                    command: command,
                    version: version,
                    flags: MessageFlags::empty(),
                    attributes: attributes,
                },
            ),
        )
    }

    /// Get the message family as u16
    pub fn family(&self) -> (family: u16)
        ensures
            family == self.family,
    {
        self.family
    }

    /// Set message flags
    pub fn set_flags(&mut self, flags: MessageFlags)
        ensures
            *final(self) == (Message { flags: flags, ..*old(self) }),
    {
        self.flags = flags;
    }

    /// Append a attribute to the message
    pub fn append_attribute(&mut self, attr: Attribute)
        ensures
            final(self).attributes@ == old(self).attributes@.push(attr),
            final(self).family == old(self).family,
            final(self).command == old(self).command,
            final(self).version == old(self).version,
            final(self).flags == old(self).flags,
    {
        self.attributes.push(attr);
    }
}

impl SendMessage for Message {
    open spec fn sendable(&self) -> bool {
        self.wf()
    }

    open spec fn packing(&self, buffer: Seq<u8>) -> (Seq<u8>, Result<nat, Error>) {
        if buffer.len() < 4 {
            (buffer, Err(failure(NetlinkErrorKind::NotEnoughData)))
        } else {
            (
                seq![self.command, self.version, 0u8, 0u8] + packed_items(
                    self.attributes@,
                    buffer.skip(4),
                ),
                if total_size(self.attributes@) <= buffer.len() - 4 {
                    Ok((4 + total_size(self.attributes@)) as nat)
                } else {
                    Err(failure(NetlinkErrorKind::NotEnoughData))
                },
            )
        }
    }

    open spec fn kind(&self) -> u16 {
        self.family
    }

    open spec fn flag_bits(&self) -> u16 {
        self.flags.bits()
    }

    fn pack(&self, data: &mut [u8]) -> (r: Result<usize, Error>) {
        if data.len() < 4 {
            return Err(Error::netlink(NetlinkErrorKind::NotEnoughData));
        }
        let ghost before = data@;
        data[0] = self.command;
        data[1] = self.version;
        data[2] = 0;
        data[3] = 0;
        let (_, slice) = data.split_at_mut(4);
        assert(slice@ =~= before.skip(4));
        let packed = pack_vec(slice, &self.attributes);
        assert(data@ =~= seq![self.command, self.version, 0u8, 0u8] + packed_items(
            self.attributes@,
            before.skip(4),
        ));
        match packed {
            Ok(size) => Ok(size + 4),
            Err(e) => Err(e),
        }
    }

    fn message_type(&self) -> (r: u16) {
        self.family
    }

    fn query_flags(&self) -> (r: MessageFlags) {
        self.flags
    }
}

/// A message is unpacked from the bytes packed for it: the command, the
/// version and the attributes come back; the family and the flags travel in
/// the header and are not part of the payload.
pub proof fn lemma_unpack_packed_message(message: Message, buffer: Seq<u8>)
    requires
        message.wf(),
        buffer.len() >= 4 + total_size(message.attributes@),
    ensures
        message.packing(buffer).1 == Ok::<nat, Error>(
            (4 + total_size(message.attributes@)) as nat,
        ),
        message.packing(buffer).0.len() == buffer.len(),
        Message::decoded(
            message.packing(buffer).0.take(4 + total_size(message.attributes@) as int),
        ) == Ok::<(nat, MessageView), NetlinkErrorKind>(
            (
                (4 + total_size(message.attributes@)) as nat,
                MessageView { family: 0xffff, flags: 0, ..message@ },
            ),
        ),
{
    let attributes = message.attributes@;
    let total = total_size(attributes) as int;
    let body = packed_items(attributes, buffer.skip(4));
    let packed = message.packing(buffer).0.take(4 + total);
    lemma_parse_all_packed_items(attributes, buffer.skip(4), Seq::empty());
    assert(packed.skip(4) =~= body.take(total) + Seq::<u8>::empty());
    assert(views(attributes) + Seq::<(u16, Seq<u8>)>::empty() =~= views(attributes));
}

/// Why a controller message did not decode, as far as its bytes tell.
pub enum Failure {
    /// A name is not UTF-8.
    Text,
    /// The protocol error of this kind.
    Protocol(NetlinkErrorKind),
}

impl Failure {
    /// Whether `error` is an error of this description.
    pub open spec fn explains(self, error: Error) -> bool {
        match self {
            Failure::Text => error is Utf8 || error is FromUtf8,
            Failure::Protocol(kind) => error.is_kind(kind),
        }
    }
}

/// What a multicast group holds, as mathematical values.
pub struct GroupView {
    pub id: u32,
    pub name: Seq<char>,
}

/// Netlink generic Multi-cast group
///
/// Maps a identifier with a name.
#[derive(Debug)]
pub struct MulticastGroup {
    pub id: u32,
    pub name: String,
}

impl View for MulticastGroup {
    type V = GroupView;

    open spec fn view(&self) -> GroupView {
        GroupView { id: self.id, name: self.name@ }
    }
}

/// What the attributes of a multicast group amount to, read in order from
/// the state `id`, `name`: each identifier attribute sets the identifier, or
/// clears it where its payload is too short; each name attribute sets the
/// name. A group without identifier is none; a name that is not UTF-8 is a
/// failure.
pub open spec fn group_fold(attributes: Seq<(u16, Seq<u8>)>, id: Option<u32>, name: Seq<char>)
    -> Result<Option<GroupView>, Failure>
    decreases attributes.len(),
{
    if attributes.len() == 0 {
        match id {
            Some(id) => Ok(Some(GroupView { id: id, name: name })),
            None => Ok(None),
        }
    } else {
        let first = attributes[0];
        let rest = attributes.drop_first();
        if first.0 == MulticastAttributeId::Id.raw() {
            match u32::decoded(first.1) {
                Ok((_, value)) => group_fold(rest, Some(value), name),
                Err(_) => group_fold(rest, None, name),
            }
        } else if first.0 == MulticastAttributeId::Name.raw() {
            match text(first.1) {
                Some(value) => group_fold(rest, id, value),
                None => Err(Failure::Text),
            }
        } else {
            group_fold(rest, id, name)
        }
    }
}

/// The multicast group that a list of attributes describes.
pub open spec fn group_of(attributes: Seq<(u16, Seq<u8>)>) -> Result<Option<GroupView>, Failure> {
    group_fold(attributes, None, Seq::empty())
}

/// The view of a group that may be absent.
pub open spec fn group_view(group: Option<MulticastGroup>) -> Option<GroupView> {
    match group {
        Some(group) => Some(group@),
        None => None,
    }
}

impl MulticastGroup {
    /// Decodes the attributes of one multicast group. A group without
    /// identifier is dropped.
    pub fn from_bytes(bytes: &[u8]) -> (r: Result<Option<MulticastGroup>, Error>)
        ensures
            match r {
                Ok(group) => group_of(parse_all(bytes@).1) == Ok::<Option<GroupView>, Failure>(
                    group_view(group),
                ),
                Err(e) => group_of(parse_all(bytes@).1) matches Err(f) && f.explains(e),
            },
    {
        let (_, attributes) = Attribute::unpack_all(bytes);
        let mut group_name = String::new();
        let mut group_id: Option<u32> = None;
        let ghost all = views(attributes@);
        let mut i: usize = 0;
        assert(all.skip(0) =~= all);
        while i < attributes.len()
            invariant
                i <= attributes@.len(),
                all == views(attributes@),
                all == parse_all(bytes@).1,
                group_of(all) == group_fold(all.skip(i as int), group_id, group_name@),
            decreases attributes@.len() - i,
        {
            let attribute = &attributes[i];
            proof {
                assert(all.skip(i as int)[0] == attribute@);
                assert(all.skip(i as int).drop_first() =~= all.skip(i + 1));
            }
            match MulticastAttributeId::from(attribute.identifier) {
                MulticastAttributeId::Unspecified => {},
                MulticastAttributeId::Id => {
                    group_id = match attribute.as_u32() {
                        Ok(value) => Some(value),
                        Err(_) => None,
                    };
                },
                MulticastAttributeId::Name => {
                    group_name = match attribute.as_string() {
                        Ok(value) => value,
                        Err(e) => {
                            return Err(e);
                        },
                    };
                },
            }
            i += 1;
        }
        match group_id {
            Some(id) => Ok(Some(MulticastGroup { id: id, name: group_name })),
            None => Ok(None),
        }
    }
}

/// What a family holds, as mathematical values.
pub struct FamilyView {
    pub id: u16,
    pub name: Seq<char>,
    pub multicast_groups: Seq<GroupView>,
}

/// Netlink generic family
///
/// Contains identifier, name and multi-cast groups for a Netlink family.
#[derive(Debug)]
pub struct Family {
    pub id: u16,
    pub name: String,
    pub multicast_groups: Vec<MulticastGroup>,
}

/// The views of the groups of a list, in order.
pub open spec fn group_views(groups: Seq<MulticastGroup>) -> Seq<GroupView> {
    groups.map_values(|g: MulticastGroup| g@)
}

impl View for Family {
    type V = FamilyView;

    open spec fn view(&self) -> FamilyView {
        FamilyView {
            id: self.id,
            name: self.name@,
            multicast_groups: group_views(self.multicast_groups@),
        }
    }
}

/// The groups behind `groups` that the nested attributes describe, one
/// group for each nested attribute that holds an identifier.
pub open spec fn groups_fold(nested: Seq<(u16, Seq<u8>)>, groups: Seq<GroupView>) -> Result<
    Seq<GroupView>,
    Failure,
>
    decreases nested.len(),
{
    if nested.len() == 0 {
        Ok(groups)
    } else {
        match group_of(parse_all(nested[0].1).1) {
            Err(f) => Err(f),
            Ok(Some(group)) => groups_fold(nested.drop_first(), groups.push(group)),
            Ok(None) => groups_fold(nested.drop_first(), groups),
        }
    }
}

/// What the attributes of a controller message amount to, read in order
/// from the state `family`: a name attribute sets the name, an identifier
/// attribute the identifier, a groups attribute adds its groups. The first
/// attribute that does not decode is the failure.
pub open spec fn family_fold(attributes: Seq<(u16, Seq<u8>)>, family: FamilyView) -> Result<
    FamilyView,
    Failure,
>
    decreases attributes.len(),
{
    if attributes.len() == 0 {
        Ok(family)
    } else {
        let first = attributes[0];
        let rest = attributes.drop_first();
        if first.0 == AttributeId::FamilyName.raw() {
            match text(first.1) {
                Some(value) => family_fold(rest, FamilyView { name: value, ..family }),
                None => Err(Failure::Text),
            }
        } else if first.0 == AttributeId::FamilyId.raw() {
            match u16::decoded(first.1) {
                Ok((_, value)) => family_fold(rest, FamilyView { id: value, ..family }),
                Err(kind) => Err(Failure::Protocol(kind)),
            }
        } else if first.0 == AttributeId::MulticastGroups.raw() {
            match groups_fold(parse_all(first.1).1, family.multicast_groups) {
                Ok(groups) => family_fold(rest, FamilyView { multicast_groups: groups, ..family }),
                Err(f) => Err(f),
            }
        } else {
            family_fold(rest, family)
        }
    }
}

/// The family that the attributes of a controller message describe; a
/// family without identifier is not found.
pub open spec fn family_of(attributes: Seq<(u16, Seq<u8>)>) -> Result<FamilyView, Failure> {
    match family_fold(
        attributes,
        FamilyView { id: 0, name: Seq::empty(), multicast_groups: Seq::empty() },
    ) {
        Ok(family) => if family.id > 0 {
            Ok(family)
        } else {
            Err(Failure::Protocol(NetlinkErrorKind::NotFound))
        },
        Err(f) => Err(f),
    }
}

impl Family {
    /// Decodes the groups that one groups attribute holds and appends them
    /// to `groups`.
    fn append_groups(payload: &[u8], groups: &mut Vec<MulticastGroup>) -> (r: Result<(), Error>)
        ensures
            match r {
                Ok(_) => groups_fold(parse_all(payload@).1, group_views(old(groups)@)) == Ok::<
                    Seq<GroupView>,
                    Failure,
                >(group_views(final(groups)@)),
                Err(e) => groups_fold(parse_all(payload@).1, group_views(old(groups)@))
                    matches Err(f) && f.explains(e),
            },
    {
        let (_, nested) = Attribute::unpack_all(payload);
        let ghost all = views(nested@);
        let mut i: usize = 0;
        assert(all.skip(0) =~= all);
        while i < nested.len()
            invariant
                i <= nested@.len(),
                all == views(nested@),
                all == parse_all(payload@).1,
                groups_fold(all, group_views(old(groups)@)) == groups_fold(
                    all.skip(i as int),
                    group_views(groups@),
                ),
            decreases nested@.len() - i,
        {
            let attribute = &nested[i];
            proof {
                assert(all.skip(i as int)[0] == attribute@);
                assert(all.skip(i as int).drop_first() =~= all.skip(i + 1));
            }
            match MulticastGroup::from_bytes(attribute.data.as_slice()) {
                Ok(Some(group)) => {
                    let ghost before = groups@;
                    let ghost view = group@;
                    groups.push(group);
                    assert(group_views(groups@) =~= group_views(before).push(view));
                },
                Ok(None) => {},
                Err(e) => {
                    return Err(e);
                },
            }
            i += 1;
        }
        Ok(())
    }

    /// Decodes a family from a controller message
    pub fn from_message(message: Message) -> (r: Result<Family, Error>)
        ensures
            match r {
                Ok(family) => family_of(message@.attributes) == Ok::<FamilyView, Failure>(family@),
                Err(e) => family_of(message@.attributes) matches Err(f) && f.explains(e),
            },
    {
        let mut family_name = String::new();
        let mut family_id = 0u16;
        let mut groups: Vec<MulticastGroup> = Vec::new();
        let ghost all = views(message.attributes@);
        let mut i: usize = 0;
        assert(all.skip(0) =~= all);
        assert(group_views(groups@) =~= Seq::<GroupView>::empty());
        while i < message.attributes.len()
            invariant
                i <= message.attributes@.len(),
                all == views(message.attributes@),
                family_fold(
                    all,
                    FamilyView { id: 0, name: Seq::empty(), multicast_groups: Seq::empty() },
                ) == family_fold(
                    all.skip(i as int),
                    FamilyView {
                        id: family_id,
                        name: family_name@,
                        multicast_groups: group_views(groups@),
                    },
                ),
            decreases message.attributes@.len() - i,
        {
            let attr = &message.attributes[i];
            proof {
                assert(all.skip(i as int)[0] == attr@);
                assert(all.skip(i as int).drop_first() =~= all.skip(i + 1));
            }
            match AttributeId::from(attr.identifier) {
                AttributeId::Unspecified => {},
                AttributeId::FamilyName => {
                    family_name = match attr.as_string() {
                        Ok(value) => value,
                        Err(e) => {
                            return Err(e);
                        },
                    };
                },
                AttributeId::FamilyId => {
                    family_id = match attr.as_u16() {
                        Ok(value) => value,
                        Err(e) => {
                            return Err(e);
                        },
                    };
                },
                AttributeId::MulticastGroups => {
                    match Family::append_groups(attr.data.as_slice(), &mut groups) {
                        Ok(_) => {},
                        Err(e) => {
                            return Err(e);
                        },
                    }
                },
                _ => {},
            }
            i += 1;
        }
        if family_id > 0 {
            return Ok(Family { id: family_id, name: family_name, multicast_groups: groups });
        }
        Err(Error::netlink(NetlinkErrorKind::NotFound))
    }

    /// The request for the family of this name: a lookup in the controller
    /// family that awaits an acknowledgement.
    pub fn name_request(name: &str) -> (message: Message)
        requires
            !name.spec_bytes().contains(0u8),
            name.spec_bytes().len() <= ATTRIBUTE_MAX_PAYLOAD,
        ensures
            message.wf(),
            message@ == (MessageView {
                family: FamilyId::Control.raw(),
                command: Command::GetFamily.raw(),
                version: 1,
                flags: bits_of(MessageMode::Acknowledge),
                attributes: seq![(AttributeId::FamilyName.raw(), name.spec_bytes())],
            }),
    {
        let mut tx_msg = Message::new(
            FamilyId::Control,
            Command::GetFamily,
            MessageMode::Acknowledge,
        );
        let attribute = Attribute::new_string(AttributeId::FamilyName, name);
        tx_msg.attributes.push(attribute);
        proof {
            lemma_flags_of_mode(MessageMode::Acknowledge);
            assert(views(tx_msg.attributes@) =~= seq![
                (AttributeId::FamilyName.raw(), name.spec_bytes()),
            ]);
        }
        tx_msg
    }

    /// The request for the family of this number: a lookup in the
    /// controller family that awaits an acknowledgement.
    pub fn id_request(id: u16) -> (message: Message)
        ensures
            message.wf(),
            message@ == (MessageView {
                family: FamilyId::Control.raw(),
                command: Command::GetFamily.raw(),
                version: 1,
                flags: bits_of(MessageMode::Acknowledge),
                attributes: seq![(AttributeId::FamilyId.raw(), native_bytes(id as nat, 2))],
            }),
    {
        let mut tx_msg = Message::new(
            FamilyId::Control,
            Command::GetFamily,
            MessageMode::Acknowledge,
        );
        proof {
            lemma_native_bytes_len(id as nat, 2);
        }
        let attribute = Attribute::new(AttributeId::FamilyId, id);
        tx_msg.attributes.push(attribute);
        proof {
            lemma_flags_of_mode(MessageMode::Acknowledge);
            assert(attribute.payload() =~= native_bytes(id as nat, 2));
            assert(views(tx_msg.attributes@) =~= seq![
                (AttributeId::FamilyId.raw(), native_bytes(id as nat, 2)),
            ]);
        }
        tx_msg
    }

    /// The request for all families: a dump of the controller family.
    pub fn all_request() -> (message: Message)
        ensures
            message.wf(),
            message@ == (MessageView {
                family: FamilyId::Control.raw(),
                command: Command::GetFamily.raw(),
                version: 1,
                flags: bits_of(MessageMode::Dump),
                attributes: Seq::empty(),
            }),
    {
        let tx_msg = Message::new(FamilyId::Control, Command::GetFamily, MessageMode::Dump);
        proof {
            lemma_flags_of_mode(MessageMode::Dump);
            assert(views(tx_msg.attributes@) =~= Seq::<(u16, Seq<u8>)>::empty());
        }
        tx_msg
    }

    /// Decodes the family that a data message of the controller family
    /// describes; a message of another family holds none.
    pub fn from_data(message: &base::Message) -> (r: Result<Option<Family>, Error>)
        ensures
            match r {
                Ok(family) => family_in(message@) == Ok::<Option<FamilyView>, Failure>(
                    family_view(family),
                ),
                Err(e) => family_in(message@) matches Err(f) && f.explains(e),
            },
    {
        match FamilyId::convert_from(message.header.identifier) {
            Some(FamilyId::Control) => {},
            _ => {
                return Ok(None);
            },
        }
        let msg = match Message::unpack(message.data.as_slice()) {
            Ok(r) => r.1,
            Err(e) => {
                return Err(e);
            },
        };
        match Family::from_message(msg) {
            Ok(family) => Ok(Some(family)),
            Err(e) => Err(e),
        }
    }

    /// Looks for the family of this name in one batch of replies to a
    /// lookup. An empty batch ends the lookup: the family is not found. A
    /// batch without the family gives `None`: the next batch is to be read.
    pub fn from_name(messages: &base::Messages, name: &str) -> (r: Result<Option<Family>, Error>)
        ensures
            match r {
                Ok(family) => resolve_by_name(message_views(messages@), name@) == Ok::<
                    Option<FamilyView>,
                    Failure,
                >(family_view(family)),
                Err(e) => resolve_by_name(message_views(messages@), name@) matches Err(f)
                    && f.explains(e),
            },
    {
        if messages.len() == 0 {
            return Err(Error::netlink(NetlinkErrorKind::NotFound));
        }
        let wanted = name.to_owned();
        let ghost all = message_views(messages@);
        let mut i: usize = 0;
        assert(all.skip(0) =~= all);
        while i < messages.len()
            invariant
                i <= messages@.len(),
                wanted@ == name@,
                all == message_views(messages@),
                find_by_name(all, name@) == find_by_name(all.skip(i as int), name@),
            decreases messages@.len() - i,
        {
            proof {
                assert(all.skip(i as int)[0] == messages@[i as int]@);
                assert(all.skip(i as int).drop_first() =~= all.skip(i + 1));
            }
            match Family::from_data(&messages[i]) {
                Ok(Some(family)) => {
                    if family.name == wanted {
                        return Ok(Some(family));
                    }
                },
                Ok(None) => {},
                Err(e) => {
                    return Err(e);
                },
            }
            i += 1;
        }
        Ok(None)
    }

    /// Looks for the family of this number in one batch of replies to a
    /// lookup, as `with_id` does for the number that `id` converts to.
    pub fn from_id<ID: Into<u16>>(messages: &base::Messages, id: ID) -> (r: Result<
        Option<Family>,
        Error,
    >)
        ensures
            exists|wanted: u16| #[trigger]
                call_ensures(ID::into, (id,), wanted) && match r {
                    Ok(family) => resolve_by_id(message_views(messages@), wanted) == Ok::<
                        Option<FamilyView>,
                        Failure,
                    >(family_view(family)),
                    Err(e) => resolve_by_id(message_views(messages@), wanted) matches Err(f)
                        && f.explains(e),
                },
    {
        let wanted: u16 = id.into();
        Family::with_id(messages, wanted)
    }

    /// Looks for the family of this number in one batch of replies to a
    /// lookup. An empty batch ends the lookup: the family is not found. A
    /// batch without the family gives `None`: the next batch is to be read.
    pub fn with_id(messages: &base::Messages, id: u16) -> (r: Result<Option<Family>, Error>)
        ensures
            match r {
                Ok(family) => resolve_by_id(message_views(messages@), id) == Ok::<
                    Option<FamilyView>,
                    Failure,
                >(family_view(family)),
                Err(e) => resolve_by_id(message_views(messages@), id) matches Err(f)
                    && f.explains(e),
            },
    {
        if messages.len() == 0 {
            return Err(Error::netlink(NetlinkErrorKind::NotFound));
        }
        let ghost all = message_views(messages@);
        let mut i: usize = 0;
        assert(all.skip(0) =~= all);
        while i < messages.len()
            invariant
                i <= messages@.len(),
                all == message_views(messages@),
                find_by_id(all, id) == find_by_id(all.skip(i as int), id),
            decreases messages@.len() - i,
        {
            proof {
                assert(all.skip(i as int)[0] == messages@[i as int]@);
                assert(all.skip(i as int).drop_first() =~= all.skip(i + 1));
            }
            match Family::from_data(&messages[i]) {
                Ok(Some(family)) => {
                    if family.id == id {
                        return Ok(Some(family));
                    }
                },
                Ok(None) => {},
                Err(e) => {
                    return Err(e);
                },
            }
            i += 1;
        }
        Ok(None)
    }

    /// Decodes every family among the messages of the replies to a dump.
    pub fn all(messages: &base::Messages) -> (r: Result<Vec<Family>, Error>)
        ensures
            match r {
                Ok(families) => all_in(message_views(messages@), Seq::empty()) == Ok::<
                    Seq<FamilyView>,
                    Failure,
                >(family_views(families@)),
                Err(e) => all_in(message_views(messages@), Seq::empty()) matches Err(f)
                    && f.explains(e),
            },
    {
        let mut families: Vec<Family> = Vec::new();
        let ghost all = message_views(messages@);
        let mut i: usize = 0;
        assert(all.skip(0) =~= all);
        assert(family_views(families@) =~= Seq::<FamilyView>::empty());
        while i < messages.len()
            invariant
                i <= messages@.len(),
                all == message_views(messages@),
                all_in(all, Seq::empty()) == all_in(all.skip(i as int), family_views(families@)),
            decreases messages@.len() - i,
        {
            proof {
                assert(all.skip(i as int)[0] == messages@[i as int]@);
                assert(all.skip(i as int).drop_first() =~= all.skip(i + 1));
            }
            match Family::from_data(&messages[i]) {
                Ok(Some(family)) => {
                    let ghost before = families@;
                    let ghost view = family@;
                    families.push(family);
                    assert(family_views(families@) =~= family_views(before).push(view));
                },
                Ok(None) => {},
                Err(e) => {
                    return Err(e);
                },
            }
            i += 1;
        }
        Ok(families)
    }
}

/// The view of a family that may be absent.
pub open spec fn family_view(family: Option<Family>) -> Option<FamilyView> {
    match family {
        Some(family) => Some(family@),
        None => None,
    }
}

/// The views of the families of a list, in order.
pub open spec fn family_views(families: Seq<Family>) -> Seq<FamilyView> {
    families.map_values(|f: Family| f@)
}

/// The family that a data message describes: none where the message is
/// not of the controller family, else what its payload decodes to.
pub open spec fn family_in(message: (Header, Seq<u8>)) -> Result<Option<FamilyView>, Failure> {
    if FamilyId::of_raw(message.0.identifier) != Some(FamilyId::Control) {
        Ok(None)
    } else {
        match Message::decoded(message.1) {
            Err(kind) => Err(Failure::Protocol(kind)),
            Ok((_, payload)) => match family_of(payload.attributes) {
                Ok(family) => Ok(Some(family)),
                Err(f) => Err(f),
            },
        }
    }
}

/// The first family of this name among the messages; the failure of a
/// message in front of it comes first.
pub open spec fn find_by_name(messages: Seq<(Header, Seq<u8>)>, name: Seq<char>) -> Result<
    Option<FamilyView>,
    Failure,
>
    decreases messages.len(),
{
    if messages.len() == 0 {
        Ok(None)
    } else {
        match family_in(messages[0]) {
            Err(f) => Err(f),
            Ok(Some(family)) => if family.name == name {
                Ok(Some(family))
            } else {
                find_by_name(messages.drop_first(), name)
            },
            Ok(None) => find_by_name(messages.drop_first(), name),
        }
    }
}

/// The first family of this number among the messages; the failure of a
/// message in front of it comes first.
pub open spec fn find_by_id(messages: Seq<(Header, Seq<u8>)>, id: u16) -> Result<
    Option<FamilyView>,
    Failure,
>
    decreases messages.len(),
{
    if messages.len() == 0 {
        Ok(None)
    } else {
        match family_in(messages[0]) {
            Err(f) => Err(f),
            Ok(Some(family)) => if family.id == id {
                Ok(Some(family))
            } else {
                find_by_id(messages.drop_first(), id)
            },
            Ok(None) => find_by_id(messages.drop_first(), id),
        }
    }
}

/// What one batch of replies means for the lookup of a name: an empty
/// batch ends it without a family, any other is searched.
pub open spec fn resolve_by_name(messages: Seq<(Header, Seq<u8>)>, name: Seq<char>) -> Result<
    Option<FamilyView>,
    Failure,
> {
    if messages.len() == 0 {
        Err(Failure::Protocol(NetlinkErrorKind::NotFound))
    } else {
        find_by_name(messages, name)
    }
}

/// What one batch of replies means for the lookup of a number: an empty
/// batch ends it without a family, any other is searched.
pub open spec fn resolve_by_id(messages: Seq<(Header, Seq<u8>)>, id: u16) -> Result<
    Option<FamilyView>,
    Failure,
> {
    if messages.len() == 0 {
        Err(Failure::Protocol(NetlinkErrorKind::NotFound))
    } else {
        find_by_id(messages, id)
    }
}

/// The families behind `families` that the messages describe, in order;
/// the first message that does not decode is the failure.
pub open spec fn all_in(messages: Seq<(Header, Seq<u8>)>, families: Seq<FamilyView>) -> Result<
    Seq<FamilyView>,
    Failure,
>
    decreases messages.len(),
{
    if messages.len() == 0 {
        Ok(families)
    } else {
        match family_in(messages[0]) {
            Err(f) => Err(f),
            Ok(Some(family)) => all_in(messages.drop_first(), families.push(family)),
            Ok(None) => all_in(messages.drop_first(), families),
        }
    }
}

} // verus!
