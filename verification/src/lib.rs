//! Verified codec and message-flow engine for the Linux kernel Netlink protocol.
//!
//! The crate covers the binary layer (primitive values, attributes, message
//! headers), the bookkeeping that correlates requests with their replies, and
//! the generic-netlink family lookup built on top of them. It performs no
//! system calls: a caller owns the socket, hands received datagrams in and
//! sends the packed requests out.

mod errors;
pub mod base;
pub mod generic;
pub mod route;

pub use crate::base::{
    nested_attribute_array, Attribute, ConvertFrom, HardwareAddress, Message, MessageMode, NativePack,
    NativeUnpack, Protocol, SocketState,
};
pub use crate::errors::{Error, NetlinkError, NetlinkErrorKind};
