//! Netlink core parts

pub mod attribute;
pub mod byte_order;
mod hardware_address;
pub mod message;
pub mod pack;
pub mod socket;
pub mod variant;

pub use self::hardware_address::HardwareAddress;

pub use self::attribute::{nested_attribute_array, Attribute};
pub use self::message::{Header, Message, MessageFlags, MessageMode, Messages};
pub use self::socket::{SendMessage, SocketState};

pub use self::pack::{
    lemma_packed_items_stops, lemma_total_size_grows, pack_vec, packed_items, slice_copy, total_size,
    words, NativePack, NativeUnpack,
};

use vstd::prelude::*;

verus! {

/// A trait for converting a value from one type to another.
/// Any failure in converting will return None.
pub trait ConvertFrom<T: Sized>: Sized {
    /// What a value converts to, where it converts.
    spec fn converted(value: T) -> Option<Self>;

    /// Convert value from one type to the other, returning None if conversion failed
    fn convert_from(value: T) -> (r: Option<Self>)
        ensures
            r == Self::converted(value),
    ;
}

/// The kernel subsystem that a netlink socket talks to
#[derive(Clone, Copy, Debug, PartialEq, Eq, Structural)]
pub enum Protocol {
    Route,
    Unused,
    Usersock,
    Firewall,
    SockDiag,
    Nflog,
    Xfrm,
    SELinux,
    ISCSI,
    Audit,
    FibLookup,
    Connector,
    Netfilter,
    IP6Fw,
    DNRtMsg,
    KObjectUevent,
    Generic,
    SCSITransport,
    ECryptFs,
    RDMA,
    Crypto,
    SMC,
}

impl Protocol {
    /// The number that stands for the variant on the wire.
    pub open spec fn raw(self) -> i32 {
        match self {
            Protocol::Route => 0,
            Protocol::Unused => 1,
            Protocol::Usersock => 2,
            Protocol::Firewall => 3,
            Protocol::SockDiag => 4,
            Protocol::Nflog => 5,
            Protocol::Xfrm => 6,
            Protocol::SELinux => 7,
            Protocol::ISCSI => 8,
            Protocol::Audit => 9,
            Protocol::FibLookup => 10,
            Protocol::Connector => 11,
            Protocol::Netfilter => 12,
            Protocol::IP6Fw => 13,
            Protocol::DNRtMsg => 14,
            Protocol::KObjectUevent => 15,
            Protocol::Generic => 16,
            Protocol::SCSITransport => 17,
            Protocol::ECryptFs => 18,
            Protocol::RDMA => 19,
            Protocol::Crypto => 20,
            Protocol::SMC => 21,
        }
    }

    /// The variant that a number stands for, if it stands for one.
    pub open spec fn of_raw(value: i32) -> Option<Protocol> {
        if value == 0 {
            Some(Protocol::Route)
        } else if value == 1 {
            Some(Protocol::Unused)
        } else if value == 2 {
            Some(Protocol::Usersock)
        } else if value == 3 {
            Some(Protocol::Firewall)
        } else if value == 4 {
            Some(Protocol::SockDiag)
        } else if value == 5 {
            Some(Protocol::Nflog)
        } else if value == 6 {
            Some(Protocol::Xfrm)
        } else if value == 7 {
            Some(Protocol::SELinux)
        } else if value == 8 {
            Some(Protocol::ISCSI)
        } else if value == 9 {
            Some(Protocol::Audit)
        } else if value == 10 {
            Some(Protocol::FibLookup)
        } else if value == 11 {
            Some(Protocol::Connector)
        } else if value == 12 {
            Some(Protocol::Netfilter)
        } else if value == 13 {
            Some(Protocol::IP6Fw)
        } else if value == 14 {
            Some(Protocol::DNRtMsg)
        } else if value == 15 {
            Some(Protocol::KObjectUevent)
        } else if value == 16 {
            Some(Protocol::Generic)
        } else if value == 17 {
            Some(Protocol::SCSITransport)
        } else if value == 18 {
            Some(Protocol::ECryptFs)
        } else if value == 19 {
            Some(Protocol::RDMA)
        } else if value == 20 {
            Some(Protocol::Crypto)
        } else if value == 21 {
            Some(Protocol::SMC)
        } else {
            None
        }
    }

    /// Each variant is found again from its number.
    pub proof fn lemma_of_raw_of_variant(self)
        ensures
            Protocol::of_raw(self.raw()) == Some(self),
    {
    }

    /// A number stands for no variant but the one that it belongs to.
    pub proof fn lemma_raw_of_found(value: i32)
        ensures
            Protocol::of_raw(value) matches Some(variant) ==> variant.raw() == value,
    {
    }
}

impl From<Protocol> for i32 {
    fn from(v: Protocol) -> (value: i32) {
        match v {
            Protocol::Route => 0,
            Protocol::Unused => 1,
            Protocol::Usersock => 2,
            Protocol::Firewall => 3,
            Protocol::SockDiag => 4,
            Protocol::Nflog => 5,
            Protocol::Xfrm => 6,
            Protocol::SELinux => 7,
            Protocol::ISCSI => 8,
            Protocol::Audit => 9,
            Protocol::FibLookup => 10,
            Protocol::Connector => 11,
            Protocol::Netfilter => 12,
            Protocol::IP6Fw => 13,
            Protocol::DNRtMsg => 14,
            Protocol::KObjectUevent => 15,
            Protocol::Generic => 16,
            Protocol::SCSITransport => 17,
            Protocol::ECryptFs => 18,
            Protocol::RDMA => 19,
            Protocol::Crypto => 20,
            Protocol::SMC => 21,
        }
    }
}

impl vstd::std_specs::convert::FromSpecImpl<Protocol> for i32 {
    open spec fn obeys_from_spec() -> bool {
        true
    }

    open spec fn from_spec(v: Protocol) -> i32 {
        v.raw()
    }
}

impl ConvertFrom<i32> for Protocol {
    open spec fn converted(v: i32) -> Option<Protocol> {
        Protocol::of_raw(v)
    }

    fn convert_from(v: i32) -> (variant: Option<Protocol>) {
        match v {
            0 => Some(Protocol::Route),
            1 => Some(Protocol::Unused),
            2 => Some(Protocol::Usersock),
            3 => Some(Protocol::Firewall),
            4 => Some(Protocol::SockDiag),
            5 => Some(Protocol::Nflog),
            6 => Some(Protocol::Xfrm),
            7 => Some(Protocol::SELinux),
            8 => Some(Protocol::ISCSI),
            9 => Some(Protocol::Audit),
            10 => Some(Protocol::FibLookup),
            11 => Some(Protocol::Connector),
            12 => Some(Protocol::Netfilter),
            13 => Some(Protocol::IP6Fw),
            14 => Some(Protocol::DNRtMsg),
            15 => Some(Protocol::KObjectUevent),
            16 => Some(Protocol::Generic),
            17 => Some(Protocol::SCSITransport),
            18 => Some(Protocol::ECryptFs),
            19 => Some(Protocol::RDMA),
            20 => Some(Protocol::Crypto),
            21 => Some(Protocol::SMC),
            _ => None,
        }
    }
}

impl PartialEq<Protocol> for i32 {
    fn eq(&self, other: &Protocol) -> (equal: bool) {
        match *other {
            Protocol::Route => *self == 0,
            Protocol::Unused => *self == 1,
            Protocol::Usersock => *self == 2,
            Protocol::Firewall => *self == 3,
            Protocol::SockDiag => *self == 4,
            Protocol::Nflog => *self == 5,
            Protocol::Xfrm => *self == 6,
            Protocol::SELinux => *self == 7,
            Protocol::ISCSI => *self == 8,
            Protocol::Audit => *self == 9,
            Protocol::FibLookup => *self == 10,
            Protocol::Connector => *self == 11,
            Protocol::Netfilter => *self == 12,
            Protocol::IP6Fw => *self == 13,
            Protocol::DNRtMsg => *self == 14,
            Protocol::KObjectUevent => *self == 15,
            Protocol::Generic => *self == 16,
            Protocol::SCSITransport => *self == 17,
            Protocol::ECryptFs => *self == 18,
            Protocol::RDMA => *self == 19,
            Protocol::Crypto => *self == 20,
            Protocol::SMC => *self == 21,
        }
    }
}

impl vstd::std_specs::cmp::PartialEqSpecImpl<Protocol> for i32 {
    open spec fn obeys_eq_spec() -> bool {
        true
    }

    open spec fn eq_spec(&self, other: &Protocol) -> bool {
        *self == other.raw()
    }
}

} // verus!
