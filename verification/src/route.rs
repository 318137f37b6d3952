//! Netlink route messages

use vstd::prelude::*;
use vstd::slice::slice_subrange;

use crate::base::attribute::{parse_all, views, Attribute};
use crate::base::byte_order::{native_value, read_i32, read_u16, read_u32, signed_value};
use crate::base::message::{lemma_bitor, MessageFlags, DUMP, REQUEST};
use crate::base::pack::{pack_vec, packed_items, total_size};
use crate::base::socket::{failure, SendMessage};
use crate::base::ConvertFrom;
use crate::errors::{Error, NetlinkErrorKind};

verus! {

/// Netlink route command
#[derive(Clone, Copy, Debug, PartialEq, Eq, Structural)]
pub enum FamilyId {
    NewLink,
    DeleteLink,
    GetLink,
    SetLink,
}

impl FamilyId {
    /// The number that stands for the variant on the wire.
    pub open spec fn raw(self) -> u16 {
        match self {
            FamilyId::NewLink => 16,
            FamilyId::DeleteLink => 17,
            FamilyId::GetLink => 18,
            FamilyId::SetLink => 19,
        }
    }

    /// The variant that a number stands for, if it stands for one.
    pub open spec fn of_raw(value: u16) -> Option<FamilyId> {
        if value == 16 {
            Some(FamilyId::NewLink)
        } else if value == 17 {
            Some(FamilyId::DeleteLink)
        } else if value == 18 {
            Some(FamilyId::GetLink)
        } else if value == 19 {
            Some(FamilyId::SetLink)
        } else {
            None
        }
    }

    /// Each variant is found again from its number.
    pub proof fn lemma_of_raw_of_variant(self)
        ensures
            FamilyId::of_raw(self.raw()) == Some(self),
    {
    }

    /// A number stands for no variant but the one that it belongs to.
    pub proof fn lemma_raw_of_found(value: u16)
        ensures
            FamilyId::of_raw(value) matches Some(variant) ==> variant.raw() == value,
    {
    }
}

impl From<FamilyId> for u16 {
    fn from(v: FamilyId) -> (value: u16) {
        match v {
            FamilyId::NewLink => 16,
            FamilyId::DeleteLink => 17,
            FamilyId::GetLink => 18,
            FamilyId::SetLink => 19,
        }
    }
}

impl vstd::std_specs::convert::FromSpecImpl<FamilyId> for u16 {
    open spec fn obeys_from_spec() -> bool {
        true
    }

    open spec fn from_spec(v: FamilyId) -> u16 {
        v.raw()
    }
}

impl ConvertFrom<u16> for FamilyId {
    open spec fn converted(v: u16) -> Option<FamilyId> {
        FamilyId::of_raw(v)
    }

    fn convert_from(v: u16) -> (variant: Option<FamilyId>) {
        match v {
            16 => Some(FamilyId::NewLink),
            17 => Some(FamilyId::DeleteLink),
            18 => Some(FamilyId::GetLink),
            19 => Some(FamilyId::SetLink),
            _ => None,
        }
    }
}

impl PartialEq<FamilyId> for u16 {
    fn eq(&self, other: &FamilyId) -> (equal: bool) {
        match *other {
            FamilyId::NewLink => *self == 16,
            FamilyId::DeleteLink => *self == 17,
            FamilyId::GetLink => *self == 18,
            FamilyId::SetLink => *self == 19,
        }
    }
}

impl vstd::std_specs::cmp::PartialEqSpecImpl<FamilyId> for u16 {
    open spec fn obeys_eq_spec() -> bool {
        true
    }

    open spec fn eq_spec(&self, other: &FamilyId) -> bool {
        *self == other.raw()
    }
}

/// Attributes of a link message
#[derive(Clone, Copy, Debug, PartialEq, Eq, Structural)]
pub enum AddressFamilyAttribute {
    Unspecified,
    Address,
    Broadcast,
    InterfaceName,
    MTU,
    Link,
    QDisc,
    Stats,
    Cost,
    Priority,
    Master,
    WirelessExtension,
    ProtocolInformation,
    TransmitQueueLength,
    DeviceMap,
    Weight,
    OperationState,
    LinkMode,
    LinkInfo,
    NetworkNameSpacePid,
    InterfaceAlias,
    NumberVf,
    VfInfoList,
    Stats64,
    VfPorts,
    PortSelf,
    AfSpecification,
    Group,
    NetworkNameSpaceFileDescriptor,
    ExtendedMask,
    PromiscuityCount,
    TransmitQueueCount,
    ReceiveQueueCount,
    Carrier,
    PhysPortId,
    CarrierChanges,
    PhysSwitchId,
    LinkNetworkNameSpaceId,
    PhysPortName,
    ProtocolDown,
    GsoMaximumSegs,
    GsoMaximumSize,
    Padding,
    Xdp,
    Event,
    NewNetworkNameSpaceId,
    InterfaceNetworkNameSpaceId,
}

impl AddressFamilyAttribute {
    /// The number that stands for the variant on the wire.
    pub open spec fn raw(self) -> u16 {
        match self {
            AddressFamilyAttribute::Unspecified => 0,
            AddressFamilyAttribute::Address => 1,
            AddressFamilyAttribute::Broadcast => 2,
            AddressFamilyAttribute::InterfaceName => 3,
            AddressFamilyAttribute::MTU => 4,
            AddressFamilyAttribute::Link => 5,
            AddressFamilyAttribute::QDisc => 6,
            AddressFamilyAttribute::Stats => 7,
            AddressFamilyAttribute::Cost => 8,
            AddressFamilyAttribute::Priority => 9,
            AddressFamilyAttribute::Master => 10,
            AddressFamilyAttribute::WirelessExtension => 11,
            AddressFamilyAttribute::ProtocolInformation => 12,
            AddressFamilyAttribute::TransmitQueueLength => 13,
            AddressFamilyAttribute::DeviceMap => 14,
            AddressFamilyAttribute::Weight => 15,
            AddressFamilyAttribute::OperationState => 16,
            AddressFamilyAttribute::LinkMode => 17,
            AddressFamilyAttribute::LinkInfo => 18,
            AddressFamilyAttribute::NetworkNameSpacePid => 19,
            AddressFamilyAttribute::InterfaceAlias => 20,
            AddressFamilyAttribute::NumberVf => 21,
            AddressFamilyAttribute::VfInfoList => 22,
            AddressFamilyAttribute::Stats64 => 23,
            AddressFamilyAttribute::VfPorts => 24,
            AddressFamilyAttribute::PortSelf => 25,
            AddressFamilyAttribute::AfSpecification => 26,
            AddressFamilyAttribute::Group => 27,
            AddressFamilyAttribute::NetworkNameSpaceFileDescriptor => 28,
            AddressFamilyAttribute::ExtendedMask => 29,
            AddressFamilyAttribute::PromiscuityCount => 30,
            AddressFamilyAttribute::TransmitQueueCount => 31,
            AddressFamilyAttribute::ReceiveQueueCount => 32,
            AddressFamilyAttribute::Carrier => 33,
            AddressFamilyAttribute::PhysPortId => 34,
            AddressFamilyAttribute::CarrierChanges => 35,
            AddressFamilyAttribute::PhysSwitchId => 36,
            AddressFamilyAttribute::LinkNetworkNameSpaceId => 37,
            AddressFamilyAttribute::PhysPortName => 38,
            AddressFamilyAttribute::ProtocolDown => 39,
            AddressFamilyAttribute::GsoMaximumSegs => 40,
            AddressFamilyAttribute::GsoMaximumSize => 41,
            AddressFamilyAttribute::Padding => 42,
            AddressFamilyAttribute::Xdp => 43,
            AddressFamilyAttribute::Event => 44,
            AddressFamilyAttribute::NewNetworkNameSpaceId => 45,
            AddressFamilyAttribute::InterfaceNetworkNameSpaceId => 46,
        }
    }

    /// The variant that a number stands for, if it stands for one.
    pub open spec fn of_raw(value: u16) -> Option<AddressFamilyAttribute> {
        if value == 0 {
            Some(AddressFamilyAttribute::Unspecified)
        } else if value == 1 {
            Some(AddressFamilyAttribute::Address)
        } else if value == 2 {
            Some(AddressFamilyAttribute::Broadcast)
        } else if value == 3 {
            Some(AddressFamilyAttribute::InterfaceName)
        } else if value == 4 {
            Some(AddressFamilyAttribute::MTU)
        } else if value == 5 {
            Some(AddressFamilyAttribute::Link)
        } else if value == 6 {
            Some(AddressFamilyAttribute::QDisc)
        } else if value == 7 {
            Some(AddressFamilyAttribute::Stats)
        } else if value == 8 {
            Some(AddressFamilyAttribute::Cost)
        } else if value == 9 {
            Some(AddressFamilyAttribute::Priority)
        } else if value == 10 {
            Some(AddressFamilyAttribute::Master)
        } else if value == 11 {
            Some(AddressFamilyAttribute::WirelessExtension)
        } else if value == 12 {
            Some(AddressFamilyAttribute::ProtocolInformation)
        } else if value == 13 {
            Some(AddressFamilyAttribute::TransmitQueueLength)
        } else if value == 14 {
            Some(AddressFamilyAttribute::DeviceMap)
        } else if value == 15 {
            Some(AddressFamilyAttribute::Weight)
        } else if value == 16 {
            Some(AddressFamilyAttribute::OperationState)
        } else if value == 17 {
            Some(AddressFamilyAttribute::LinkMode)
        } else if value == 18 {
            Some(AddressFamilyAttribute::LinkInfo)
        } else if value == 19 {
            Some(AddressFamilyAttribute::NetworkNameSpacePid)
        } else if value == 20 {
            Some(AddressFamilyAttribute::InterfaceAlias)
        } else if value == 21 {
            Some(AddressFamilyAttribute::NumberVf)
        } else if value == 22 {
            Some(AddressFamilyAttribute::VfInfoList)
        } else if value == 23 {
            Some(AddressFamilyAttribute::Stats64)
        } else if value == 24 {
            Some(AddressFamilyAttribute::VfPorts)
        } else if value == 25 {
            Some(AddressFamilyAttribute::PortSelf)
        } else if value == 26 {
            Some(AddressFamilyAttribute::AfSpecification)
        } else if value == 27 {
            Some(AddressFamilyAttribute::Group)
        } else if value == 28 {
            Some(AddressFamilyAttribute::NetworkNameSpaceFileDescriptor)
        } else if value == 29 {
            Some(AddressFamilyAttribute::ExtendedMask)
        } else if value == 30 {
            Some(AddressFamilyAttribute::PromiscuityCount)
        } else if value == 31 {
            Some(AddressFamilyAttribute::TransmitQueueCount)
        } else if value == 32 {
            Some(AddressFamilyAttribute::ReceiveQueueCount)
        } else if value == 33 {
            Some(AddressFamilyAttribute::Carrier)
        } else if value == 34 {
            Some(AddressFamilyAttribute::PhysPortId)
        } else if value == 35 {
            Some(AddressFamilyAttribute::CarrierChanges)
        } else if value == 36 {
            Some(AddressFamilyAttribute::PhysSwitchId)
        } else if value == 37 {
            Some(AddressFamilyAttribute::LinkNetworkNameSpaceId)
        } else if value == 38 {
            Some(AddressFamilyAttribute::PhysPortName)
        } else if value == 39 {
            Some(AddressFamilyAttribute::ProtocolDown)
        } else if value == 40 {
            Some(AddressFamilyAttribute::GsoMaximumSegs)
        } else if value == 41 {
            Some(AddressFamilyAttribute::GsoMaximumSize)
        } else if value == 42 {
            Some(AddressFamilyAttribute::Padding)
        } else if value == 43 {
            Some(AddressFamilyAttribute::Xdp)
        } else if value == 44 {
            Some(AddressFamilyAttribute::Event)
        } else if value == 45 {
            Some(AddressFamilyAttribute::NewNetworkNameSpaceId)
        } else if value == 46 {
            Some(AddressFamilyAttribute::InterfaceNetworkNameSpaceId)
        } else {
            None
        }
    }

    /// Each variant is found again from its number.
    pub proof fn lemma_of_raw_of_variant(self)
        ensures
            AddressFamilyAttribute::of_raw(self.raw()) == Some(self),
    {
    }

    /// A number stands for no variant but the one that it belongs to.
    pub proof fn lemma_raw_of_found(value: u16)
        ensures
            AddressFamilyAttribute::of_raw(value) matches Some(variant) ==> variant.raw() == value,
    {
    }
}

impl From<AddressFamilyAttribute> for u16 {
    fn from(v: AddressFamilyAttribute) -> (value: u16) {
        match v {
            AddressFamilyAttribute::Unspecified => 0,
            AddressFamilyAttribute::Address => 1,
            AddressFamilyAttribute::Broadcast => 2,
            AddressFamilyAttribute::InterfaceName => 3,
            AddressFamilyAttribute::MTU => 4,
            AddressFamilyAttribute::Link => 5,
            AddressFamilyAttribute::QDisc => 6,
            AddressFamilyAttribute::Stats => 7,
            AddressFamilyAttribute::Cost => 8,
            AddressFamilyAttribute::Priority => 9,
            AddressFamilyAttribute::Master => 10,
            AddressFamilyAttribute::WirelessExtension => 11,
            AddressFamilyAttribute::ProtocolInformation => 12,
            AddressFamilyAttribute::TransmitQueueLength => 13,
            AddressFamilyAttribute::DeviceMap => 14,
            AddressFamilyAttribute::Weight => 15,
            AddressFamilyAttribute::OperationState => 16,
            AddressFamilyAttribute::LinkMode => 17,
            AddressFamilyAttribute::LinkInfo => 18,
            AddressFamilyAttribute::NetworkNameSpacePid => 19,
            AddressFamilyAttribute::InterfaceAlias => 20,
            AddressFamilyAttribute::NumberVf => 21,
            AddressFamilyAttribute::VfInfoList => 22,
            AddressFamilyAttribute::Stats64 => 23,
            AddressFamilyAttribute::VfPorts => 24,
            AddressFamilyAttribute::PortSelf => 25,
            AddressFamilyAttribute::AfSpecification => 26,
            AddressFamilyAttribute::Group => 27,
            AddressFamilyAttribute::NetworkNameSpaceFileDescriptor => 28,
            AddressFamilyAttribute::ExtendedMask => 29,
            AddressFamilyAttribute::PromiscuityCount => 30,
            AddressFamilyAttribute::TransmitQueueCount => 31,
            AddressFamilyAttribute::ReceiveQueueCount => 32,
            AddressFamilyAttribute::Carrier => 33,
            AddressFamilyAttribute::PhysPortId => 34,
            AddressFamilyAttribute::CarrierChanges => 35,
            AddressFamilyAttribute::PhysSwitchId => 36,
            AddressFamilyAttribute::LinkNetworkNameSpaceId => 37,
            AddressFamilyAttribute::PhysPortName => 38,
            AddressFamilyAttribute::ProtocolDown => 39,
            AddressFamilyAttribute::GsoMaximumSegs => 40,
            AddressFamilyAttribute::GsoMaximumSize => 41,
            AddressFamilyAttribute::Padding => 42,
            AddressFamilyAttribute::Xdp => 43,
            AddressFamilyAttribute::Event => 44,
            AddressFamilyAttribute::NewNetworkNameSpaceId => 45,
            AddressFamilyAttribute::InterfaceNetworkNameSpaceId => 46,
        }
    }
}

impl vstd::std_specs::convert::FromSpecImpl<AddressFamilyAttribute> for u16 {
    open spec fn obeys_from_spec() -> bool {
        true
    }

    open spec fn from_spec(v: AddressFamilyAttribute) -> u16 {
        v.raw()
    }
}

impl From<u16> for AddressFamilyAttribute {
    fn from(v: u16) -> (variant: AddressFamilyAttribute) {
        match v {
            0 => AddressFamilyAttribute::Unspecified,
            1 => AddressFamilyAttribute::Address,
            2 => AddressFamilyAttribute::Broadcast,
            3 => AddressFamilyAttribute::InterfaceName,
            4 => AddressFamilyAttribute::MTU,
            5 => AddressFamilyAttribute::Link,
            6 => AddressFamilyAttribute::QDisc,
            7 => AddressFamilyAttribute::Stats,
            8 => AddressFamilyAttribute::Cost,
            9 => AddressFamilyAttribute::Priority,
            10 => AddressFamilyAttribute::Master,
            11 => AddressFamilyAttribute::WirelessExtension,
            12 => AddressFamilyAttribute::ProtocolInformation,
            13 => AddressFamilyAttribute::TransmitQueueLength,
            14 => AddressFamilyAttribute::DeviceMap,
            15 => AddressFamilyAttribute::Weight,
            16 => AddressFamilyAttribute::OperationState,
            17 => AddressFamilyAttribute::LinkMode,
            18 => AddressFamilyAttribute::LinkInfo,
            19 => AddressFamilyAttribute::NetworkNameSpacePid,
            20 => AddressFamilyAttribute::InterfaceAlias,
            21 => AddressFamilyAttribute::NumberVf,
            22 => AddressFamilyAttribute::VfInfoList,
            23 => AddressFamilyAttribute::Stats64,
            24 => AddressFamilyAttribute::VfPorts,
            25 => AddressFamilyAttribute::PortSelf,
            26 => AddressFamilyAttribute::AfSpecification,
            27 => AddressFamilyAttribute::Group,
            28 => AddressFamilyAttribute::NetworkNameSpaceFileDescriptor,
            29 => AddressFamilyAttribute::ExtendedMask,
            30 => AddressFamilyAttribute::PromiscuityCount,
            31 => AddressFamilyAttribute::TransmitQueueCount,
            32 => AddressFamilyAttribute::ReceiveQueueCount,
            33 => AddressFamilyAttribute::Carrier,
            34 => AddressFamilyAttribute::PhysPortId,
            35 => AddressFamilyAttribute::CarrierChanges,
            36 => AddressFamilyAttribute::PhysSwitchId,
            37 => AddressFamilyAttribute::LinkNetworkNameSpaceId,
            38 => AddressFamilyAttribute::PhysPortName,
            39 => AddressFamilyAttribute::ProtocolDown,
            40 => AddressFamilyAttribute::GsoMaximumSegs,
            41 => AddressFamilyAttribute::GsoMaximumSize,
            42 => AddressFamilyAttribute::Padding,
            43 => AddressFamilyAttribute::Xdp,
            44 => AddressFamilyAttribute::Event,
            45 => AddressFamilyAttribute::NewNetworkNameSpaceId,
            46 => AddressFamilyAttribute::InterfaceNetworkNameSpaceId,
            _ => AddressFamilyAttribute::Unspecified,
        }
    }
}

impl vstd::std_specs::convert::FromSpecImpl<u16> for AddressFamilyAttribute {
    open spec fn obeys_from_spec() -> bool {
        true
    }

    open spec fn from_spec(v: u16) -> AddressFamilyAttribute {
        match AddressFamilyAttribute::of_raw(v) {
            Some(variant) => variant,
            None => AddressFamilyAttribute::Unspecified,
        }
    }
}

impl ConvertFrom<u16> for AddressFamilyAttribute {
    open spec fn converted(v: u16) -> Option<AddressFamilyAttribute> {
        AddressFamilyAttribute::of_raw(v)
    }

    fn convert_from(v: u16) -> (variant: Option<AddressFamilyAttribute>) {
        match v {
            0 => Some(AddressFamilyAttribute::Unspecified),
            1 => Some(AddressFamilyAttribute::Address),
            2 => Some(AddressFamilyAttribute::Broadcast),
            3 => Some(AddressFamilyAttribute::InterfaceName),
            4 => Some(AddressFamilyAttribute::MTU),
            5 => Some(AddressFamilyAttribute::Link),
            6 => Some(AddressFamilyAttribute::QDisc),
            7 => Some(AddressFamilyAttribute::Stats),
            8 => Some(AddressFamilyAttribute::Cost),
            9 => Some(AddressFamilyAttribute::Priority),
            10 => Some(AddressFamilyAttribute::Master),
            11 => Some(AddressFamilyAttribute::WirelessExtension),
            12 => Some(AddressFamilyAttribute::ProtocolInformation),
            13 => Some(AddressFamilyAttribute::TransmitQueueLength),
            14 => Some(AddressFamilyAttribute::DeviceMap),
            15 => Some(AddressFamilyAttribute::Weight),
            16 => Some(AddressFamilyAttribute::OperationState),
            17 => Some(AddressFamilyAttribute::LinkMode),
            18 => Some(AddressFamilyAttribute::LinkInfo),
            19 => Some(AddressFamilyAttribute::NetworkNameSpacePid),
            20 => Some(AddressFamilyAttribute::InterfaceAlias),
            21 => Some(AddressFamilyAttribute::NumberVf),
            22 => Some(AddressFamilyAttribute::VfInfoList),
            23 => Some(AddressFamilyAttribute::Stats64),
            24 => Some(AddressFamilyAttribute::VfPorts),
            25 => Some(AddressFamilyAttribute::PortSelf),
            26 => Some(AddressFamilyAttribute::AfSpecification),
            27 => Some(AddressFamilyAttribute::Group),
            28 => Some(AddressFamilyAttribute::NetworkNameSpaceFileDescriptor),
            29 => Some(AddressFamilyAttribute::ExtendedMask),
            30 => Some(AddressFamilyAttribute::PromiscuityCount),
            31 => Some(AddressFamilyAttribute::TransmitQueueCount),
            32 => Some(AddressFamilyAttribute::ReceiveQueueCount),
            33 => Some(AddressFamilyAttribute::Carrier),
            34 => Some(AddressFamilyAttribute::PhysPortId),
            35 => Some(AddressFamilyAttribute::CarrierChanges),
            36 => Some(AddressFamilyAttribute::PhysSwitchId),
            37 => Some(AddressFamilyAttribute::LinkNetworkNameSpaceId),
            38 => Some(AddressFamilyAttribute::PhysPortName),
            39 => Some(AddressFamilyAttribute::ProtocolDown),
            40 => Some(AddressFamilyAttribute::GsoMaximumSegs),
            41 => Some(AddressFamilyAttribute::GsoMaximumSize),
            42 => Some(AddressFamilyAttribute::Padding),
            43 => Some(AddressFamilyAttribute::Xdp),
            44 => Some(AddressFamilyAttribute::Event),
            45 => Some(AddressFamilyAttribute::NewNetworkNameSpaceId),
            46 => Some(AddressFamilyAttribute::InterfaceNetworkNameSpaceId),
            _ => None,
        }
    }
}

impl PartialEq<AddressFamilyAttribute> for u16 {
    fn eq(&self, other: &AddressFamilyAttribute) -> (equal: bool) {
        match *other {
            AddressFamilyAttribute::Unspecified => *self == 0,
            AddressFamilyAttribute::Address => *self == 1,
            AddressFamilyAttribute::Broadcast => *self == 2,
            AddressFamilyAttribute::InterfaceName => *self == 3,
            AddressFamilyAttribute::MTU => *self == 4,
            AddressFamilyAttribute::Link => *self == 5,
            AddressFamilyAttribute::QDisc => *self == 6,
            AddressFamilyAttribute::Stats => *self == 7,
            AddressFamilyAttribute::Cost => *self == 8,
            AddressFamilyAttribute::Priority => *self == 9,
            AddressFamilyAttribute::Master => *self == 10,
            AddressFamilyAttribute::WirelessExtension => *self == 11,
            AddressFamilyAttribute::ProtocolInformation => *self == 12,
            AddressFamilyAttribute::TransmitQueueLength => *self == 13,
            AddressFamilyAttribute::DeviceMap => *self == 14,
            AddressFamilyAttribute::Weight => *self == 15,
            AddressFamilyAttribute::OperationState => *self == 16,
            AddressFamilyAttribute::LinkMode => *self == 17,
            AddressFamilyAttribute::LinkInfo => *self == 18,
            AddressFamilyAttribute::NetworkNameSpacePid => *self == 19,
            AddressFamilyAttribute::InterfaceAlias => *self == 20,
            AddressFamilyAttribute::NumberVf => *self == 21,
            AddressFamilyAttribute::VfInfoList => *self == 22,
            AddressFamilyAttribute::Stats64 => *self == 23,
            AddressFamilyAttribute::VfPorts => *self == 24,
            AddressFamilyAttribute::PortSelf => *self == 25,
            AddressFamilyAttribute::AfSpecification => *self == 26,
            AddressFamilyAttribute::Group => *self == 27,
            AddressFamilyAttribute::NetworkNameSpaceFileDescriptor => *self == 28,
            AddressFamilyAttribute::ExtendedMask => *self == 29,
            AddressFamilyAttribute::PromiscuityCount => *self == 30,
            AddressFamilyAttribute::TransmitQueueCount => *self == 31,
            AddressFamilyAttribute::ReceiveQueueCount => *self == 32,
            AddressFamilyAttribute::Carrier => *self == 33,
            AddressFamilyAttribute::PhysPortId => *self == 34,
            AddressFamilyAttribute::CarrierChanges => *self == 35,
            AddressFamilyAttribute::PhysSwitchId => *self == 36,
            AddressFamilyAttribute::LinkNetworkNameSpaceId => *self == 37,
            AddressFamilyAttribute::PhysPortName => *self == 38,
            AddressFamilyAttribute::ProtocolDown => *self == 39,
            AddressFamilyAttribute::GsoMaximumSegs => *self == 40,
            AddressFamilyAttribute::GsoMaximumSize => *self == 41,
            AddressFamilyAttribute::Padding => *self == 42,
            AddressFamilyAttribute::Xdp => *self == 43,
            AddressFamilyAttribute::Event => *self == 44,
            AddressFamilyAttribute::NewNetworkNameSpaceId => *self == 45,
            AddressFamilyAttribute::InterfaceNetworkNameSpaceId => *self == 46,
        }
    }
}

impl vstd::std_specs::cmp::PartialEqSpecImpl<AddressFamilyAttribute> for u16 {
    open spec fn obeys_eq_spec() -> bool {
        true
    }

    open spec fn eq_spec(&self, other: &AddressFamilyAttribute) -> bool {
        *self == other.raw()
    }
}

/// The address family of packet sockets, which a link request names.
pub const AF_PACKET: u8 = 17;

/// Netlink message for route messages
#[derive(Debug)]
pub struct Message {
    /// The family
    pub family: u16,
    /// Message attributes
    pub attributes: Vec<Attribute>,
}

impl Message {
    /// Whether every attribute is short enough for its length field.
    pub open spec fn wf(&self) -> bool {
        forall|i: int| 0 <= i < self.attributes@.len() ==> (#[trigger] self.attributes@[i]).wf()
    }

    /// Create a new message with the provided family
    pub fn new<F: Into<u16>>(family: F) -> (message: Message)
        ensures
            message.wf(),
            call_ensures(F::into, (family,), message.family),
            message.attributes@.len() == 0,
    {
        return Message { family: family.into(), attributes: Vec::new() };
    }
}

impl SendMessage for Message {
    open spec fn sendable(&self) -> bool {
        self.wf()
    }

    open spec fn packing(&self, buffer: Seq<u8>) -> (Seq<u8>, Result<nat, Error>) {
        if buffer.len() < 1 {
            (buffer, Err(failure(NetlinkErrorKind::NotEnoughData)))
        } else {
            (
                seq![AF_PACKET] + packed_items(self.attributes@, buffer.skip(1)),
                if total_size(self.attributes@) <= buffer.len() - 1 {
                    Ok((1 + total_size(self.attributes@)) as nat)
                } else {
                    Err(failure(NetlinkErrorKind::NotEnoughData))
                },
            )
        }
    }

    open spec fn kind(&self) -> u16 {
        self.family
    }

    open spec fn flag_bits(&self) -> u16 {
        REQUEST | DUMP
    }

    fn pack(&self, data: &mut [u8]) -> (r: Result<usize, Error>) {
        if data.len() < 1 {
            return Err(Error::netlink(NetlinkErrorKind::NotEnoughData));
        }
        let ghost before = data@;
        data[0] = AF_PACKET;
        let (_, slice) = data.split_at_mut(1);
        assert(slice@ =~= before.skip(1));
        let packed = pack_vec(slice, &self.attributes);
        assert(data@ =~= seq![AF_PACKET] + packed_items(self.attributes@, before.skip(1)));
        match packed {
            Ok(size) => Ok(size + 1),
            Err(e) => Err(e),
        }
    }

    fn message_type(&self) -> (r: u16) {
        self.family
    }

    fn query_flags(&self) -> (r: MessageFlags) {
        let request = MessageFlags::request();
        let dump = MessageFlags::dump();
        proof {
            lemma_bitor(request, dump);
        }
        request | dump
    }
}

/// What an interface information message holds, as mathematical values.
pub struct InterfaceInformationView {
    pub family: u8,
    pub kind: u16,
    pub index: i32,
    pub flags: u32,
    pub change: u32,
    pub attributes: Seq<(u16, Seq<u8>)>,
}

/// Interface information message
///
/// Used to get information aabout a network interface
#[derive(Debug)]
pub struct InterfaceInformationMessage {
    /// Message family
    pub family: u8,
    /// Message type
    pub kind: u16,
    /// Message index
    pub index: i32,
    /// Message flags
    pub flags: u32,
    /// Message change
    pub change: u32,
    /// Message attributes
    pub attributes: Vec<Attribute>,
}

impl View for InterfaceInformationMessage {
    type V = InterfaceInformationView;

    open spec fn view(&self) -> InterfaceInformationView {
        InterfaceInformationView {
            family: self.family,
            kind: self.kind,
            index: self.index,
            flags: self.flags,
            change: self.change,
            attributes: views(self.attributes@),
        }
    }
}

impl InterfaceInformationMessage {
    /// What the payload of a link message decodes to: the number of bytes
    /// read and the message. The sixteen bytes in front hold the family, a
    /// reserved byte, the type, the index, the flags and the change mask.
    pub open spec fn decoded(data: Seq<u8>) -> Result<
        (nat, InterfaceInformationView),
        NetlinkErrorKind,
    > {
        if data.len() < 16 {
            Err(NetlinkErrorKind::NotEnoughData)
        } else {
            Ok(
                (
                    16 + parse_all(data.skip(16)).0,
                    InterfaceInformationView {
                        family: data[0],
                        kind: native_value(data.subrange(2, 4)) as u16,
                        index: signed_value(native_value(data.subrange(4, 8)), 4) as i32,
                        flags: native_value(data.subrange(8, 12)) as u32,
                        change: native_value(data.subrange(12, 16)) as u32,
                        attributes: parse_all(data.skip(16)).1,
                    },
                ),
            )
        }
    }

    /// Unpack byte slice into InterfaceInformationMessage
    pub fn unpack(data: &[u8]) -> (r: Result<(usize, InterfaceInformationMessage), Error>)
        ensures
            match r {
                Ok((size, message)) => Self::decoded(data@) == Ok::<_, NetlinkErrorKind>(
                    (size as nat, message@),
                ),
                Err(e) => Self::decoded(data@) matches Err(kind) && e.is_kind(kind),
            },
    {
        let n = data.len();
        if n < 16 {
            return Err(Error::netlink(NetlinkErrorKind::NotEnoughData));
        }
        let family = data[0];
        // reserved u8
        let kind = read_u16(slice_subrange(data, 2, n));
        let index = read_i32(slice_subrange(data, 4, n));
        let flags = read_u32(slice_subrange(data, 8, n));
        let change = read_u32(slice_subrange(data, 12, n));
        proof {
            let b = data@;
            assert(b.subrange(2, n as int).subrange(0, 2) =~= b.subrange(2, 4));
            assert(b.subrange(4, n as int).subrange(0, 4) =~= b.subrange(4, 8));
            assert(b.subrange(8, n as int).subrange(0, 4) =~= b.subrange(8, 12));
            assert(b.subrange(12, n as int).subrange(0, 4) =~= b.subrange(12, 16));
        }
        let rest = slice_subrange(data, 16, n);
        assert(rest@ =~= data@.skip(16));
        let (used, attributes) = Attribute::unpack_all(rest);
        Ok(
            (
                used + 16,
                InterfaceInformationMessage {
                    family: family,
                    kind: kind,
                    index: index,
                    flags: flags,
                    change: change,
                    attributes: attributes,
                },
            ),
        )
    }
}

} // verus!
