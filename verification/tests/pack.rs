use std::fmt;

use netlink_rust::base::pack_vec;
use netlink_rust::{HardwareAddress, NativePack, NativeUnpack};

fn pack_unpack_test<T>(bytes: &[u8], value: T)
where
    T: NativePack + NativeUnpack + fmt::Debug + PartialEq + Sized,
{
    let value_size = value.pack_size();
    assert_eq!(bytes.len(), value_size);
    let (unpacked_size, unpacked_value) = T::unpack_with_size(bytes).unwrap();
    assert_eq!(unpacked_size, value_size);
    assert_eq!(unpacked_value, value);
    let unpacked_value = T::unpack(bytes).unwrap();
    assert!(T::unpack(&bytes[..value_size - 1]).is_err());
    assert_eq!(unpacked_value, value);
    let unpacked_value = T::unpack_unchecked(bytes);
    assert_eq!(unpacked_value, value);
    let mut buffer = vec![0u8; value_size];
    {
        let left = value.pack(&mut buffer).unwrap();
        assert_eq!(left.len(), 0);
    }
    assert_eq!(buffer, bytes);
    let mut buffer = vec![0xccu8; value_size - 1];
    assert!(value.pack(&mut buffer).is_err());
    let mut buffer = vec![0u8; value_size + 2];
    {
        let left = value.pack(&mut buffer).unwrap();
        assert_eq!(left.len(), 2);
    }
}

#[test]
fn pack_pack_unpack_u8() {
    pack_unpack_test(&[0x5a], 0x5au8);
}

#[test]
fn pack_pack_unpack_i8() {
    pack_unpack_test(&[0xa5], -91i8);
}

#[test]
fn pack_pack_unpack_u16() {
    pack_unpack_test(&[0x22, 0xaa], 0xaa22u16.to_le());
}

#[test]
fn pack_pack_unpack_i16() {
    pack_unpack_test(&[0x55, 0xaa], (-21931i16).to_le());
}

#[test]
fn pack_pack_unpack_u32() {
    pack_unpack_test(&[0x44, 0x33, 0x22, 0x11], 0x11223344u32.to_le());
}

#[test]
fn pack_pack_unpack_i32() {
    pack_unpack_test(&[0x11, 0x22, 0x33, 0xa4], (-1540152815i32).to_le());
}

#[test]
fn pack_pack_unpack_u64() {
    pack_unpack_test(
        &[0x88, 0x77, 0x66, 0x55, 0x44, 0x33, 0x22, 0x11],
        0x1122334455667788u64.to_le(),
    );
}

#[test]
fn pack_pack_unpack_i64() {
    pack_unpack_test(
        &[0x11, 0x77, 0x66, 0x55, 0x44, 0x33, 0x22, 0x88],
        (-8637284766759618799i64).to_le(),
    );
}

#[test]
fn pack_pack_unpack_hardware_address() {
    let bytes = vec![0xaa, 0xbb, 0xcc, 0xdd, 0xee, 0xff];
    let hwa = HardwareAddress::from(bytes.as_slice());
    pack_unpack_test(bytes.as_slice(), hwa);
}

#[test]
fn pack_unpack_any_vec() {
    let v = vec![1u16, 2u16];
    let mut buffer = vec![0u8; 2 * v.len()];
    let size = pack_vec(&mut buffer, &v).unwrap();
    assert_eq!(size, 4usize);
    assert_eq!(buffer, &[0x01, 0x00, 0x02, 0x00]);

    let v = vec![1u32, 2u32];
    let mut buffer = vec![0u8; 4 * v.len()];
    let size = pack_vec(&mut buffer, &v).unwrap();
    assert_eq!(size, 8usize);
    assert_eq!(buffer, &[0x01, 0x00, 0x00, 0x00, 0x02, 0x00, 0x00, 0x00]);
}

fn round_trip<T>(value: T)
where
    T: NativePack + NativeUnpack + fmt::Debug + PartialEq + Copy,
{
    let mut buffer = vec![0x5au8; value.pack_size() + 3];
    value.pack(&mut buffer).unwrap();
    let (size, back) = T::unpack_with_size(&buffer).unwrap();
    assert_eq!(size, value.pack_size());
    assert_eq!(back, value);
    assert_eq!(&buffer[size..], &[0x5a, 0x5a, 0x5a]);
}

#[test]
fn round_trip_boundary_patterns() {
    round_trip(0u8);
    round_trip(u8::MAX);
    round_trip(0i8);
    round_trip(-1i8);
    round_trip(i8::MIN);
    round_trip(0u16);
    round_trip(u16::MAX);
    round_trip(0x8000u16);
    round_trip(-1i16);
    round_trip(i16::MIN);
    round_trip(i16::MAX);
    round_trip(0u32);
    round_trip(u32::MAX);
    round_trip(i32::MIN);
    round_trip(-1i32);
    round_trip(u64::MAX);
    round_trip(0x8000_0000_0000_0000u64);
    round_trip(i64::MIN);
    round_trip(-1i64);
    round_trip(HardwareAddress::from(&[0u8, 0xff, 0x80, 1, 2, 3][..]));
}

#[test]
fn pack_leaves_short_buffer_untouched() {
    let mut buffer = vec![0xccu8; 3];
    assert!(0x11223344u32.pack(&mut buffer).is_err());
    assert_eq!(buffer, vec![0xcc, 0xcc, 0xcc]);
}

#[test]
fn unpack_reports_not_enough_data() {
    match u32::unpack(&[1, 2, 3]) {
        Err(netlink_rust::Error::Netlink(e)) => {
            assert_eq!(e.kind, netlink_rust::NetlinkErrorKind::NotEnoughData)
        }
        other => panic!("unexpected {:?}", other),
    }
}

#[test]
fn byte_vectors_take_the_whole_buffer() {
    let (size, bytes) = Vec::<u8>::unpack_with_size(&[1, 2, 3]).unwrap();
    assert_eq!(size, 3);
    assert_eq!(bytes, vec![1, 2, 3]);
    let (size, bytes) = Vec::<u8>::unpack_with_size(&[]).unwrap();
    assert_eq!(size, 0);
    assert!(bytes.is_empty());
}

#[test]
fn word_vectors_skip_the_incomplete_tail() {
    let data = [1u8, 0, 0, 0, 2, 0, 0, 0, 9, 9];
    let (size, words) = Vec::<u32>::unpack_with_size(&data).unwrap();
    assert_eq!(size, 8);
    assert_eq!(words, vec![1u32.to_le(), 2u32.to_le()]);
}

#[test]
fn pack_vec_stops_at_the_item_that_does_not_fit() {
    let v = vec![1u16.to_le(), 2u16.to_le(), 3u16.to_le()];
    let mut buffer = vec![0xeeu8; 5];
    assert!(pack_vec(&mut buffer, &v).is_err());
    assert_eq!(buffer, vec![1, 0, 2, 0, 0xee]);
}

#[test]
fn slice_copy_writes_the_front_only() {
    let mut dst = vec![9u8; 4];
    netlink_rust::base::slice_copy(&[1, 2, 3], &mut dst, 2);
    assert_eq!(dst, vec![1, 2, 9, 9]);
}

#[test]
fn byte_order_probe_matches_the_target() {
    assert_eq!(
        netlink_rust::base::byte_order::is_little_endian(),
        u16::from_ne_bytes([1, 0]) == 1
    );
}

#[test]
fn hardware_address_text() {
    let address = HardwareAddress::from(&[0x00u8, 0x1b, 0xa4, 0x0f, 0xf0, 0xff][..]);
    assert_eq!(address.to_string(), "00:1b:a4:0f:f0:ff");
    assert_eq!(address.bytes(), [0x00, 0x1b, 0xa4, 0x0f, 0xf0, 0xff]);
    let converted: HardwareAddress = [1u8, 2, 3, 4, 5, 6].into();
    assert_eq!(converted.bytes(), [1, 2, 3, 4, 5, 6]);
    assert_eq!(converted.to_string(), "01:02:03:04:05:06");
}
