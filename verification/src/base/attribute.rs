use vstd::prelude::*;
use vstd::slice::{slice_subrange, slice_to_vec};
use vstd::string::StringSliceAdditionalSpecFns;
use vstd::utf8::{decode_utf8, valid_utf8};

use crate::base::byte_order::{
    lemma_native_bytes_len, lemma_native_value_of_bytes, lemma_radix, native_bytes, native_value,
    read_u16, write_u16,
};
use crate::base::hardware_address::HardwareAddress;
use crate::base::message::{aligned, netlink_align};
use crate::base::pack::{packed_items, slice_copy, total_size, NativePack, NativeUnpack};
use crate::errors::{Error, NetlinkErrorKind};

verus! {

/// The number of bytes in front of an attribute's payload.
pub const ATTRIBUTE_HEADER_SIZE: usize = 4;

/// The most payload bytes that an attribute's length field can account for.
pub const ATTRIBUTE_MAX_PAYLOAD: usize = 65531;

/// Netlink attribute
///
/// ```text
/// | length | identifier |        data        | padding |
/// |--------|------------|--------------------|---------|
/// |   u16  |     u16    |  u8 * (length - 4) |         |
/// ```
///
/// The data is 4 byte aligned.
#[derive(Clone, Debug)]
pub struct Attribute {
    /// Attribute identifier
    pub identifier: u16,
    /// Attribute data
    pub data: Vec<u8>,
}

impl View for Attribute {
    type V = (u16, Seq<u8>);

    /// The identifier and the payload.
    open spec fn view(&self) -> (u16, Seq<u8>) {
        (self.identifier, self.payload())
    }
}

/// The views of the attributes of a list, in order.
pub open spec fn views(attributes: Seq<Attribute>) -> Seq<(u16, Seq<u8>)> {
    attributes.map_values(|a: Attribute| a@)
}

/// What the front of a buffer decodes to as one attribute: the number of
/// bytes that the record takes up, padding included, with the identifier and
/// the payload; or the reason why no attribute stands there.
pub open spec fn parse_one(buffer: Seq<u8>) -> Result<(nat, (u16, Seq<u8>)), NetlinkErrorKind> {
    if buffer.len() < 4 {
        Err(NetlinkErrorKind::NotEnoughData)
    } else {
        let length = native_value(buffer.subrange(0, 2));
        let identifier = native_value(buffer.subrange(2, 4)) as u16;
        if buffer.len() < aligned(length, 4) {
            Err(NetlinkErrorKind::NotEnoughData)
        } else if length < 4 {
            Err(NetlinkErrorKind::InvalidLength)
        } else {
            Ok((aligned(length, 4), (identifier, buffer.subrange(4, length as int))))
        }
    }
}

/// What a buffer decodes to as a list of attributes: the attributes that
/// stand one behind the other from its start, up to the first place where no
/// attribute stands, and the number of bytes that they take up.
pub open spec fn parse_all(buffer: Seq<u8>) -> (nat, Seq<(u16, Seq<u8>)>)
    decreases buffer.len(),
{
    match parse_one(buffer) {
        Ok((used, attribute)) => {
            if 0 < used <= buffer.len() {
                let (more, rest) = parse_all(buffer.skip(used as int));
                (used + more, seq![attribute] + rest)
            } else {
                (0, Seq::empty())
            }
        },
        Err(_) => (0, Seq::empty()),
    }
}

/// An attribute that decodes takes up at least its header and no more than
/// the buffer.
pub proof fn lemma_parse_one_bounds(buffer: Seq<u8>)
    ensures
        parse_one(buffer) matches Ok((used, attribute)) ==> 4 <= used <= buffer.len()
            && attribute.1.len() + 4 <= used < attribute.1.len() + 8 && used % 4 == 0
            && attribute.1.len() <= 65531,
{
    if buffer.len() >= 4 {
        let length = native_value(buffer.subrange(0, 2));
        crate::base::byte_order::lemma_native_bytes_of_value(buffer.subrange(0, 2));
        lemma_radix();
    }
}

/// Whether the bytes end in a NUL that is their only one.
pub open spec fn nul_terminated(bytes: Seq<u8>) -> bool {
    bytes.len() > 0 && bytes.last() == 0 && !bytes.drop_last().contains(0u8)
}

/// The bytes of a payload that stand for its text: all of them but the
/// closing NUL of a payload that is NUL-terminated.
pub open spec fn text_bytes(payload: Seq<u8>) -> Seq<u8> {
    if nul_terminated(payload) {
        payload.drop_last()
    } else {
        payload
    }
}

/// The text that a payload holds, where its text bytes are UTF-8.
pub open spec fn text(payload: Seq<u8>) -> Option<Seq<char>> {
    if valid_utf8(text_bytes(payload)) {
        Some(decode_utf8(text_bytes(payload)))
    } else {
        None
    }
}

/// `std::str::from_utf8`: succeeds exactly on well-formed UTF-8 and then
/// gives the text that the bytes encode.
#[verifier::external_body]
fn str_from_utf8(bytes: &[u8]) -> (r: Result<&str, std::str::Utf8Error>)
    ensures
        r is Ok <==> valid_utf8(bytes@),
        r matches Ok(s) ==> s@ == decode_utf8(bytes@),
{
    std::str::from_utf8(bytes)
}

/// `String::from_utf8`: succeeds exactly on well-formed UTF-8 and then gives
/// the text that the bytes encode.
#[verifier::external_body]
fn string_from_utf8(bytes: Vec<u8>) -> (r: Result<String, std::string::FromUtf8Error>)
    ensures
        r is Ok <==> valid_utf8(bytes@),
        r matches Ok(s) ==> s@ == decode_utf8(bytes@),
{
    String::from_utf8(bytes)
}

/// Tells whether the bytes end in a NUL that is their only one.
fn is_nul_terminated(bytes: &[u8]) -> (yes: bool)
    ensures
        yes == nul_terminated(bytes@),
{
    let n = bytes.len();
    if n == 0 {
        return false;
    }
    let mut i: usize = 0;
    while i < n - 1
        invariant
            i <= n - 1,
            n == bytes@.len(),
            forall|j: int| 0 <= j < i ==> bytes@[j] != 0,
        decreases n - i,
    {
        if bytes[i] == 0 {
            assert(bytes@.drop_last()[i as int] == 0);
            return false;
        }
        i += 1;
    }
    bytes[n - 1] == 0
}

/// What a buffer decodes to as an array of nested attribute lists: for each
/// group that stands in it whole, the attributes that the group's bytes
/// decode to.
pub open spec fn nested_groups(data: Seq<u8>) -> Seq<Seq<(u16, Seq<u8>)>>
    decreases data.len(),
{
    if data.len() < 8 {
        Seq::empty()
    } else {
        let size = native_value(data.subrange(0, 2));
        if size < 4 || size > data.len() {
            Seq::empty()
        } else {
            seq![parse_all(data.subrange(4, size as int)).1] + nested_groups(
                data.skip(size as int),
            )
        }
    }
}

/// The views of the lists of a list of attribute lists, in order.
pub open spec fn group_views(groups: Seq<Vec<Attribute>>) -> Seq<Seq<(u16, Seq<u8>)>> {
    groups.map_values(|g: Vec<Attribute>| views(g@))
}

/// Parsing an array of nested attributes
///
/// Each chunk of attributes has a size and an index, the size is the size of
/// the chunk including the header
///
/// ```text
/// ---------------------------------------------------------------
/// | size | index | attributes ... | size | index | attributes ...
/// ---------------------------------------------------------------
///    u16    u16    u8 * (size - 4)
/// ```
pub fn nested_attribute_array(data: &[u8]) -> (groups: Vec<Vec<Attribute>>)
    ensures
        group_views(groups@) == nested_groups(data@),
{
    let mut attrs: Vec<Vec<Attribute>> = Vec::new();
    let n = data.len();
    let mut pos: usize = 0;
    proof {
        assert(data@.skip(0) =~= data@);
        assert(group_views(attrs@) + nested_groups(data@) =~= nested_groups(data@));
    }
    while n - pos >= 8
        invariant
            pos <= n == data@.len(),
            nested_groups(data@) == group_views(attrs@) + nested_groups(data@.skip(pos as int)),
        ensures
            group_views(attrs@) == nested_groups(data@),
        decreases n - pos,
    {
        let d = slice_subrange(data, pos, n);
        assert(d@ =~= data@.skip(pos as int));
        let size = read_u16(d) as usize;
        if size < ATTRIBUTE_HEADER_SIZE || size > d.len() {
            assert(group_views(attrs@) + Seq::<Seq<(u16, Seq<u8>)>>::empty() =~= group_views(
                attrs@,
            ));
            break ;
        }
        let (_, attributes) = Attribute::unpack_all(slice_subrange(d, 4, size));
        let ghost before = attrs@;
        attrs.push(attributes);
        pos += size;
        proof {
            let group = parse_all(d@.subrange(4, size as int)).1;
            assert(d@.skip(size as int) =~= data@.skip(pos as int));
            assert(group_views(attrs@) =~= group_views(before) + seq![group]);
            assert(group_views(before) + (seq![group] + nested_groups(data@.skip(pos as int)))
                =~= group_views(attrs@) + nested_groups(data@.skip(pos as int)));
        }
    }
    proof {
        if n - pos < 8 {
            assert(group_views(attrs@) + Seq::<Seq<(u16, Seq<u8>)>>::empty() =~= group_views(
                attrs@,
            ));
        }
    }
    attrs
}

impl Attribute {
    /// The payload bytes.
    pub open spec fn payload(&self) -> Seq<u8> {
        self.data@
    }

    /// Whether the payload is short enough for the length field.
    pub open spec fn wf(&self) -> bool {
        self.payload().len() <= ATTRIBUTE_MAX_PAYLOAD
    }

    /// Unpack all attributes in the byte slice
    pub fn unpack_all(data: &[u8]) -> (r: (usize, Vec<Attribute>))
        ensures
            (r.0 as nat, views(r.1@)) == parse_all(data@),
            r.0 <= data@.len(),
            forall|i: int| 0 <= i < r.1@.len() ==> (#[trigger] r.1@[i]).wf(),
    {
        let mut pos: usize = 0;
        let mut attrs: Vec<Attribute> = Vec::new();
        let n = data.len();
        proof {
            assert(data@.skip(0) =~= data@);
            assert(views(attrs@) + parse_all(data@).1 =~= parse_all(data@).1);
        }
        loop
            invariant
                pos <= n == data@.len(),
                parse_all(data@).0 == pos + parse_all(data@.skip(pos as int)).0,
                parse_all(data@).1 == views(attrs@) + parse_all(data@.skip(pos as int)).1,
                forall|i: int| 0 <= i < attrs@.len() ==> (#[trigger] attrs@[i]).wf(),
            ensures
                (pos as nat, views(attrs@)) == parse_all(data@),
                pos <= data@.len(),
                forall|i: int| 0 <= i < attrs@.len() ==> (#[trigger] attrs@[i]).wf(),
            decreases n - pos,
        {
            let rest = slice_subrange(data, pos, n);
            proof {
                lemma_parse_one_bounds(rest@);
                assert(rest@ =~= data@.skip(pos as int));
            }
            match Attribute::unpack_with_size(rest) {
                Ok(r) => {
                    let ghost before = attrs@;
                    let ghost used = r.0;
                    proof {
                        assert(rest@.skip(used as int) =~= data@.skip(pos + used));
                    }
                    attrs.push(r.1);
                    pos += r.0;
                    proof {
                        assert(views(attrs@) =~= views(before) + seq![attrs@.last()@]);
                        assert(views(before) + (seq![attrs@.last()@] + parse_all(
                            data@.skip(pos as int),
                        ).1) =~= views(attrs@) + parse_all(data@.skip(pos as int)).1);
                    }
                },
                Err(_) => {
                    assert(views(attrs@) + Seq::<(u16, Seq<u8>)>::empty() =~= views(attrs@));
                    break ;
                },
            }
        }
        (pos, attrs)
    }

    /// Create a new attribute with the provided identifier and payload
    pub fn new_bytes<ID: Into<u16>>(identifier: ID, value: &[u8]) -> (attribute: Attribute)
        requires
            value@.len() <= ATTRIBUTE_MAX_PAYLOAD,
        ensures
            attribute.wf(),
            attribute.payload() == value@,
            call_ensures(ID::into, (identifier,), attribute.identifier),
    {
        Attribute { identifier: identifier.into(), data: slice_to_vec(value) }
    }

    /// Create a new string attribute with provided identifier; the payload
    /// is the text and a closing NUL
    pub fn new_string_with_nul<ID: Into<u16>>(identifier: ID, value: &str) -> (attribute:
        Attribute)
        requires
            !value.spec_bytes().contains(0u8),
            value.spec_bytes().len() < ATTRIBUTE_MAX_PAYLOAD,
        ensures
            attribute.wf(),
            attribute.payload() == value.spec_bytes().push(0u8),
            text(attribute.payload()) == Some(value@),
            call_ensures(ID::into, (identifier,), attribute.identifier),
    {
        let mut data = slice_to_vec(value.as_bytes());
        data.push(0u8);
        proof {
            assert(data@.drop_last() =~= value.spec_bytes());
            vstd::utf8::encode_utf8_valid_utf8(value@);
            vstd::utf8::encode_utf8_decode_utf8(value@);
        }
        Attribute { identifier: identifier.into(), data: data }
    }

    /// Create a new string attribute with provided identifier; the payload
    /// is the text alone
    pub fn new_string<ID: Into<u16>>(identifier: ID, value: &str) -> (attribute: Attribute)
        requires
            !value.spec_bytes().contains(0u8),
            value.spec_bytes().len() <= ATTRIBUTE_MAX_PAYLOAD,
        ensures
            attribute.wf(),
            attribute.payload() == value.spec_bytes(),
            text(attribute.payload()) == Some(value@),
            call_ensures(ID::into, (identifier,), attribute.identifier),
    {
        let data = slice_to_vec(value.as_bytes());
        proof {
            if data@.len() > 0 {
                assert(data@.contains(data@.last()));
            }
            vstd::utf8::encode_utf8_valid_utf8(value@);
            vstd::utf8::encode_utf8_decode_utf8(value@);
        }
        Attribute { identifier: identifier.into(), data: data }
    }

    /// Create a new attribute from a type that can be packed into a byte slice
    pub fn new<ID: Into<u16>, V: NativePack>(identifier: ID, value: V) -> (attribute: Attribute)
        requires
            value.packable(),
            value.packed_size() <= ATTRIBUTE_MAX_PAYLOAD,
        ensures
            attribute.wf(),
            attribute.payload() == value.packed() + Seq::new(
                (value.packed_size() - value.packed().len()) as nat,
                |i: int| 0u8,
            ),
            call_ensures(ID::into, (identifier,), attribute.identifier),
    {
        let size = value.pack_size();
        let mut data = vec![0u8; size];
        value.pack_unchecked(data.as_mut_slice());
        assert(data@ =~= value.packed() + Seq::new(
            (value.packed_size() - value.packed().len()) as nat,
            |i: int| 0u8,
        ));
        Attribute { identifier: identifier.into(), data: data }
    }

    /// Get the length of the data
    pub fn len(&self) -> (r: u16)
        requires
            self.wf(),
        ensures
            r == self.payload().len(),
    {
        self.data.len() as u16
    }

    /// Get the length of the data and header
    pub fn total_len(&self) -> (r: usize)
        requires
            self.wf(),
        ensures
            r == self.payload().len() + 4,
    {
        self.data.len() + ATTRIBUTE_HEADER_SIZE
    }

    /// Unpack the underlying data into a u8
    pub fn as_u8(&self) -> (r: Result<u8, Error>)
        ensures
            match r {
                Ok(value) => u8::decoded(self.payload()) matches Ok((_, v)) && value == v,
                Err(e) => u8::decoded(self.payload()) matches Err(kind) && e.is_kind(kind),
            },
    {
        u8::unpack(self.data.as_slice())
    }

    /// Unpack the underlying data into a u16
    pub fn as_u16(&self) -> (r: Result<u16, Error>)
        ensures
            match r {
                Ok(value) => u16::decoded(self.payload()) matches Ok((_, v)) && value == v,
                Err(e) => u16::decoded(self.payload()) matches Err(kind) && e.is_kind(kind),
            },
    {
        u16::unpack(self.data.as_slice())
    }

    /// Unpack the underlying data into a u32
    pub fn as_u32(&self) -> (r: Result<u32, Error>)
        ensures
            match r {
                Ok(value) => u32::decoded(self.payload()) matches Ok((_, v)) && value == v,
                Err(e) => u32::decoded(self.payload()) matches Err(kind) && e.is_kind(kind),
            },
    {
        u32::unpack(self.data.as_slice())
    }

    /// Unpack the underlying data into a u64
    pub fn as_u64(&self) -> (r: Result<u64, Error>)
        ensures
            match r {
                Ok(value) => u64::decoded(self.payload()) matches Ok((_, v)) && value == v,
                Err(e) => u64::decoded(self.payload()) matches Err(kind) && e.is_kind(kind),
            },
    {
        u64::unpack(self.data.as_slice())
    }

    /// Unpack the underlying data into a i8
    pub fn as_i8(&self) -> (r: Result<i8, Error>)
        ensures
            match r {
                Ok(value) => i8::decoded(self.payload()) matches Ok((_, v)) && value == v,
                Err(e) => i8::decoded(self.payload()) matches Err(kind) && e.is_kind(kind),
            },
    {
        i8::unpack(self.data.as_slice())
    }

    /// Unpack the underlying data into a i16
    pub fn as_i16(&self) -> (r: Result<i16, Error>)
        ensures
            match r {
                Ok(value) => i16::decoded(self.payload()) matches Ok((_, v)) && value == v,
                Err(e) => i16::decoded(self.payload()) matches Err(kind) && e.is_kind(kind),
            },
    {
        i16::unpack(self.data.as_slice())
    }

    /// Unpack the underlying data into a i32
    pub fn as_i32(&self) -> (r: Result<i32, Error>)
        ensures
            match r {
                Ok(value) => i32::decoded(self.payload()) matches Ok((_, v)) && value == v,
                Err(e) => i32::decoded(self.payload()) matches Err(kind) && e.is_kind(kind),
            },
    {
        i32::unpack(self.data.as_slice())
    }

    /// Unpack the underlying data into a i64
    pub fn as_i64(&self) -> (r: Result<i64, Error>)
        ensures
            match r {
                Ok(value) => i64::decoded(self.payload()) matches Ok((_, v)) && value == v,
                Err(e) => i64::decoded(self.payload()) matches Err(kind) && e.is_kind(kind),
            },
    {
        i64::unpack(self.data.as_slice())
    }

    /// Unpack the underlying data into a String
    pub fn as_string(&self) -> (r: Result<String, Error>)
        ensures
            match r {
                Ok(s) => text(self.payload()) == Some(s@),
                Err(e) => text(self.payload()) is None && if nul_terminated(self.payload()) {
                    e is Utf8
                } else {
                    e is FromUtf8
                },
            },
    {
        if is_nul_terminated(self.data.as_slice()) {
            let bytes = slice_subrange(self.data.as_slice(), 0, self.data.len() - 1);
            assert(bytes@ =~= self.payload().drop_last());
            match str_from_utf8(bytes) {
                Ok(s) => Ok(s.to_owned()),
                Err(e) => Err(Error::Utf8(e)),
            }
        } else {
            match string_from_utf8(self.as_bytes()) {
                Ok(s) => Ok(s),
                Err(e) => Err(Error::FromUtf8(e)),
            }
        }
    }

    /// Unpack the underlying data into a HardwareAddress
    pub fn as_hardware_address(&self) -> (r: Result<HardwareAddress, Error>)
        ensures
            match r {
                Ok(value) => HardwareAddress::decoded(self.payload()) matches Ok((_, v))
                    && value@ == v,
                Err(e) => HardwareAddress::decoded(self.payload()) matches Err(kind) && e.is_kind(
                    kind,
                ),
            },
    {
        HardwareAddress::unpack(self.data.as_slice())
    }

    /// Get a clone of the underlying data
    pub fn as_bytes(&self) -> (bytes: Vec<u8>)
        ensures
            bytes@ == self.payload(),
    {
        slice_to_vec(self.data.as_slice())
    }
}

impl NativeUnpack for Attribute {
    open spec fn decoded(buffer: Seq<u8>) -> Result<(nat, (u16, Seq<u8>)), NetlinkErrorKind> {
        parse_one(buffer)
    }

    fn unpack_with_size(buffer: &[u8]) -> (r: Result<(usize, Self), Error>) {
        if buffer.len() < ATTRIBUTE_HEADER_SIZE {
            return Err(Error::netlink(NetlinkErrorKind::NotEnoughData));
        }
        let length = read_u16(buffer) as usize;
        let padded = netlink_align(length);
        if buffer.len() < padded {
            return Err(Error::netlink(NetlinkErrorKind::NotEnoughData));
        }
        if length < ATTRIBUTE_HEADER_SIZE {
            return Err(Error::netlink(NetlinkErrorKind::InvalidLength));
        }
        Ok((padded, Self::unpack_unchecked(buffer)))
    }

    fn unpack_unchecked(buffer: &[u8]) -> (value: Self) {
        let length = read_u16(buffer) as usize;
        let identifier = read_u16(slice_subrange(buffer, 2, buffer.len()));
        proof {
            assert(buffer@.subrange(2, buffer@.len() as int).subrange(0, 2) =~= buffer@.subrange(
                2,
                4,
            ));
        }
        let attr_data = slice_to_vec(slice_subrange(buffer, 4, length));
        Attribute { identifier: identifier, data: attr_data }
    }
}

impl NativePack for Attribute {
    open spec fn packable(&self) -> bool {
        self.wf()
    }

    open spec fn packed(&self) -> Seq<u8> {
        native_bytes(self.payload().len() + 4, 2) + native_bytes(self.identifier as nat, 2)
            + self.payload()
    }

    open spec fn packed_size(&self) -> nat {
        aligned(self.payload().len() + 4, 4)
    }

    fn pack_size(&self) -> (size: usize) {
        proof {
            lemma_native_bytes_len(self.payload().len() + 4, 2);
            lemma_native_bytes_len(self.identifier as nat, 2);
        }
        netlink_align(self.total_len())
    }

    fn pack_unchecked(&self, buffer: &mut [u8]) {
        proof {
            lemma_native_bytes_len(self.payload().len() + 4, 2);
            lemma_native_bytes_len(self.identifier as nat, 2);
        }
        let ghost before = buffer@;
        let length = self.total_len() as u16;
        write_u16(buffer, length);
        let (_, rest) = buffer.split_at_mut(2);
        write_u16(rest, self.identifier);
        let (_, rest) = buffer.split_at_mut(4);
        slice_copy(self.data.as_slice(), rest, self.data.len());
        assert(buffer@ =~= self.packed() + before.skip(self.packed().len() as int));
    }
}

/// An attribute is unpacked from the bytes packed for it and its padding,
/// whatever the padding holds and whatever follows.
pub proof fn lemma_unpack_packed_attribute(attribute: Attribute, padding: Seq<u8>, rest: Seq<u8>)
    requires
        attribute.wf(),
        attribute.packed().len() + padding.len() == attribute.packed_size(),
    ensures
        attribute.packed().len() == attribute.payload().len() + 4,
        parse_one(attribute.packed() + padding + rest) == Ok::<
            (nat, (u16, Seq<u8>)),
            NetlinkErrorKind,
        >((attribute.packed_size(), attribute@)),
{
    let length = attribute.payload().len() + 4;
    lemma_radix();
    lemma_native_value_of_bytes(length, 2);
    lemma_native_value_of_bytes(attribute.identifier as nat, 2);
    let bytes = attribute.packed() + padding + rest;
    assert(bytes.subrange(0, 2) =~= native_bytes(length, 2));
    assert(bytes.subrange(2, 4) =~= native_bytes(attribute.identifier as nat, 2));
    assert(bytes.subrange(4, length as int) =~= attribute.payload());
}

/// A list that starts with a packed attribute decodes to that attribute and
/// to what the bytes behind it decode to.
pub proof fn lemma_parse_all_packed_attribute(
    attribute: Attribute,
    padding: Seq<u8>,
    rest: Seq<u8>,
)
    requires
        attribute.wf(),
        attribute.packed().len() + padding.len() == attribute.packed_size(),
    ensures
        parse_all(attribute.packed() + padding + rest) == (
            attribute.packed_size() + parse_all(rest).0,
            seq![attribute@] + parse_all(rest).1,
        ),
{
    lemma_unpack_packed_attribute(attribute, padding, rest);
    let bytes = attribute.packed() + padding + rest;
    lemma_parse_one_bounds(bytes);
    assert(bytes.skip(attribute.packed_size() as int) =~= rest);
}

/// Two packed attributes, one behind the other, decode to both; the bytes
/// taken up are those of the two with their padding.
pub proof fn lemma_parse_all_two(
    first: Attribute,
    first_padding: Seq<u8>,
    second: Attribute,
    second_padding: Seq<u8>,
)
    requires
        first.wf(),
        second.wf(),
        first.packed().len() + first_padding.len() == first.packed_size(),
        second.packed().len() + second_padding.len() == second.packed_size(),
    ensures
        parse_all(first.packed() + first_padding + (second.packed() + second_padding)) == (
            first.packed_size() + second.packed_size(),
            seq![first@, second@],
        ),
{
    let tail = second.packed() + second_padding;
    lemma_parse_all_packed_attribute(first, first_padding, tail);
    lemma_parse_all_packed_attribute(second, second_padding, Seq::empty());
    assert(second.packed() + second_padding + Seq::<u8>::empty() =~= tail);
    assert(seq![first@] + (seq![second@] + Seq::<(u16, Seq<u8>)>::empty()) =~= seq![
        first@,
        second@,
    ]);
}

/// Where no attribute stands behind a packed attribute, be it that the
/// bytes there are cut short, the list decodes to the first alone.
pub proof fn lemma_parse_all_truncated(attribute: Attribute, padding: Seq<u8>, rest: Seq<u8>)
    requires
        attribute.wf(),
        attribute.packed().len() + padding.len() == attribute.packed_size(),
        parse_one(rest) is Err,
    ensures
        parse_all(attribute.packed() + padding + rest) == (
            attribute.packed_size(),
            seq![attribute@],
        ),
{
    lemma_parse_all_packed_attribute(attribute, padding, rest);
    assert(seq![attribute@] + Seq::<(u16, Seq<u8>)>::empty() =~= seq![attribute@]);
}

/// A packed attribute that is cut short anywhere does not decode.
pub proof fn lemma_parse_one_cut_short(attribute: Attribute, padding: Seq<u8>, cut: int)
    requires
        attribute.wf(),
        attribute.packed().len() + padding.len() == attribute.packed_size(),
        0 <= cut < attribute.packed_size(),
    ensures
        parse_one((attribute.packed() + padding).subrange(0, cut)) is Err,
{
    let whole = attribute.packed() + padding;
    let part = whole.subrange(0, cut);
    lemma_unpack_packed_attribute(attribute, padding, Seq::empty());
    assert(whole + Seq::<u8>::empty() =~= whole);
    if cut >= 4 {
        assert(part.subrange(0, 2) =~= whole.subrange(0, 2));
    }
}

/// Attributes that were packed one behind the other decode to themselves:
/// the front of the buffer that they take up, followed by any bytes, decodes
/// to the attributes and to what those bytes decode to. Packing changes
/// neither the length of the buffer nor the bytes behind the attributes.
pub proof fn lemma_parse_all_packed_items(
    attributes: Seq<Attribute>,
    buffer: Seq<u8>,
    rest: Seq<u8>,
)
    requires
        forall|i: int| 0 <= i < attributes.len() ==> (#[trigger] attributes[i]).wf(),
        total_size(attributes) <= buffer.len(),
    ensures
        packed_items(attributes, buffer).len() == buffer.len(),
        packed_items(attributes, buffer).skip(total_size(attributes) as int) == buffer.skip(
            total_size(attributes) as int,
        ),
        parse_all(packed_items(attributes, buffer).take(total_size(attributes) as int) + rest) == (
            total_size(attributes) + parse_all(rest).0,
            views(attributes) + parse_all(rest).1,
        ),
    decreases attributes.len(),
{
    let total = total_size(attributes) as int;
    let after = packed_items(attributes, buffer);
    if attributes.len() == 0 {
        assert(after.take(0) + rest =~= rest);
        assert(views(attributes) + parse_all(rest).1 =~= parse_all(rest).1);
        assert(after.skip(0) =~= buffer.skip(0));
    } else {
        let front = attributes.drop_last();
        let last = attributes.last();
        let start = total_size(front) as int;
        let before = packed_items(front, buffer);
        let written = last.packed();
        let padding = before.subrange(start + written.len(), total);
        let tail = written + padding + rest;
        lemma_native_bytes_len(last.payload().len() + 4, 2);
        lemma_native_bytes_len(last.identifier as nat, 2);
        assert forall|i: int| 0 <= i < front.len() implies (#[trigger] front[i]).wf() by {
            assert(front[i] == attributes[i]);
        }
        lemma_parse_all_packed_items(front, buffer, tail);
        assert(after =~= before.subrange(0, start) + written + before.skip(start + written.len()));
        assert(after.skip(total) =~= buffer.skip(total)) by {
            assert(before.skip(start) == buffer.skip(start));
            assert forall|i: int| total <= i < buffer.len() implies after[i] == buffer[i] by {
                assert(before.skip(start)[i - start] == buffer.skip(start)[i - start]);
            }
        }
        assert(after.take(total) + rest =~= before.take(start) + tail);
        lemma_parse_all_packed_attribute(last, padding, rest);
        assert(views(attributes) =~= views(front) + seq![last@]);
        assert(views(front) + (seq![last@] + parse_all(rest).1) =~= views(attributes)
            + parse_all(rest).1);
    }
}

} // verus!
