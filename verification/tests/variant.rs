use std::fmt;

use netlink_rust::base::variant::{NativePack, NativeParse};
use netlink_rust::HardwareAddress;

fn pack_unpack_test<T>(bytes: &[u8], value: T)
where
    T: NativePack + NativeParse + fmt::Debug + PartialEq + Sized,
{
    let value_size = bytes.len();
    assert_eq!(T::parse(bytes).unwrap(), value);
    let mut buffer = vec![0u8; value_size];
    {
        let left = T::pack(&value, &mut buffer).unwrap();
        assert_eq!(left.len(), 0);
    }
    assert_eq!(buffer, bytes);
}

#[test]
fn variant_pack_unpack_u8() {
    pack_unpack_test(&[0x5a], 0x5au8);
}

#[test]
fn variant_pack_unpack_i8() {
    pack_unpack_test(&[0xa5], -91i8);
}

#[test]
fn variant_pack_unpack_u16() {
    pack_unpack_test(&[0x22, 0xaa], 0xaa22u16.to_le());
}

#[test]
fn variant_pack_unpack_i16() {
    pack_unpack_test(&[0x55, 0xaa], (-21931i16).to_le());
}

#[test]
fn variant_pack_unpack_u32() {
    pack_unpack_test(&[0x44, 0x33, 0x22, 0x11], 0x11223344u32.to_le());
}

#[test]
fn variant_pack_unpack_i32() {
    pack_unpack_test(&[0x11, 0x22, 0x33, 0xa4], (-1540152815i32).to_le());
}

#[test]
fn variant_pack_unpack_u64() {
    pack_unpack_test(
        &[0x88, 0x77, 0x66, 0x55, 0x44, 0x33, 0x22, 0x11],
        0x1122334455667788u64.to_le(),
    );
}

#[test]
fn variant_pack_unpack_i64() {
    pack_unpack_test(
        &[0x11, 0x77, 0x66, 0x55, 0x44, 0x33, 0x22, 0x88],
        (-8637284766759618799i64).to_le(),
    );
}

#[test]
fn variant_pack_unpack_hardware_address() {
    let bytes = vec![0xaa, 0xbb, 0xcc, 0xdd, 0xee, 0xff];
    let hwa = HardwareAddress::from(bytes.as_slice());
    pack_unpack_test(bytes.as_slice(), hwa);
}

#[test]
fn parse_rejects_a_short_buffer() {
    assert!(u16::parse(&[1]).is_err());
    assert!(HardwareAddress::parse(&[1, 2, 3, 4, 5]).is_err());
}
