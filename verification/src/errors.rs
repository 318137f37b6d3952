use vstd::prelude::*;

verus! {

/// The ways in which decoding or a lookup can fail.
#[derive(Debug, Clone, Copy, PartialEq, Eq, Structural)]
pub enum NetlinkErrorKind {
    /// A buffer holds fewer bytes than the record needs.
    NotEnoughData,
    /// No family or group matched the request.
    NotFound,
    /// A field holds a value the protocol does not allow here.
    InvalidValue,
    /// A declared length contradicts the record it belongs to.
    InvalidLength,
}

/// A protocol-level error.
#[derive(Debug, Clone, Copy, PartialEq, Eq, Structural)]
pub struct NetlinkError {
    pub kind: NetlinkErrorKind,
}

impl NetlinkError {
    pub fn new(kind: NetlinkErrorKind) -> (e: NetlinkError)
        ensures
            e.kind == kind,
    {
        NetlinkError { kind: kind }
    }
}

/// `std::str::Utf8Error`, carried through unread.
#[verifier::external_type_specification]
#[verifier::external_body]
pub struct ExUtf8Error(std::str::Utf8Error);

/// `std::string::FromUtf8Error`, carried through unread.
#[verifier::external_type_specification]
#[verifier::external_body]
pub struct ExFromUtf8Error(std::string::FromUtf8Error);

/// Errors signaling issues with the Netlink communication
#[derive(Debug)]
pub enum Error {
    /// The kernel answered a request with this operating-system error number.
    Io(i32),
    /// A NUL-terminated payload is not UTF-8.
    Utf8(std::str::Utf8Error),
    /// A payload is not UTF-8.
    FromUtf8(std::string::FromUtf8Error),
    /// A Netlink transport error has occured
    Netlink(NetlinkError),
}

impl Error {
    /// Whether this is the protocol error of the given kind.
    pub open spec fn is_kind(self, kind: NetlinkErrorKind) -> bool {
        self == Error::Netlink(NetlinkError { kind: kind })
    }

    /// The protocol error of the given kind.
    pub fn netlink(kind: NetlinkErrorKind) -> (e: Error)
        ensures
            e.is_kind(kind),
    {
        Error::Netlink(NetlinkError::new(kind))
    }
}

impl From<NetlinkError> for Error {
    fn from(err: NetlinkError) -> (e: Error) {
        Error::Netlink(err)
    }
}

impl vstd::std_specs::convert::FromSpecImpl<NetlinkError> for Error {
    open spec fn obeys_from_spec() -> bool {
        true
    }

    open spec fn from_spec(err: NetlinkError) -> Error {
        Error::Netlink(err)
    }
}

impl From<std::str::Utf8Error> for Error {
    fn from(err: std::str::Utf8Error) -> (e: Error) {
        Error::Utf8(err)
    }
}

impl vstd::std_specs::convert::FromSpecImpl<std::str::Utf8Error> for Error {
    open spec fn obeys_from_spec() -> bool {
        true
    }

    open spec fn from_spec(err: std::str::Utf8Error) -> Error {
        Error::Utf8(err)
    }
}

impl From<std::string::FromUtf8Error> for Error {
    fn from(err: std::string::FromUtf8Error) -> (e: Error) {
        Error::FromUtf8(err)
    }
}

impl vstd::std_specs::convert::FromSpecImpl<std::string::FromUtf8Error> for Error {
    open spec fn obeys_from_spec() -> bool {
        true
    }

    open spec fn from_spec(err: std::string::FromUtf8Error) -> Error {
        Error::FromUtf8(err)
    }
}

} // verus!
