use netlink_rust::base::message::{
    align_to, netlink_align, netlink_padding, ErrorMessage, MessageFlags, RecordKind,
};
use netlink_rust::base::Header;
use netlink_rust::{Error, Message, MessageMode, NativePack, NativeUnpack, NetlinkErrorKind};

#[test]
fn unpack_header() {
    let data = [
        0x12, 0x00, 0x00, 0x00, // size
        0x00, 0x10, // identifier
        0x10, 0x00, // flags
        0x01, 0x00, 0x00, 0x00, // sequence
        0x04, 0x00, 0x00,
    ]; // pid
    assert!(Header::unpack(&data).is_err());
    let data = [
        0x12, 0x00, 0x00, 0x00, // size
        0x00, 0x10, // identifier
        0x10, 0x00, // flags
        0x01, 0x00, 0x00, 0x00, // sequence
        0x04, 0x00, 0x00, 0x00,
    ]; // pid
    let (used, header) = Header::unpack_with_size(&data).unwrap();
    assert_eq!(used, Header::HEADER_SIZE);
    assert_eq!(header.length, 18u32);
    assert_eq!(header.length(), 18usize);
    assert_eq!(header.data_length(), 2usize);
    assert_eq!(header.identifier, 0x1000u16);
    assert_eq!(header.flags, 0x0010u16);
    assert_eq!(header.sequence, 0x00000001u32);
    assert_eq!(header.pid, 0x00000004u32);
}

#[test]
fn pack_header() {
    let header = Header {
        length: 18,
        identifier: 0x1000,
        flags: 0x0010,
        sequence: 1,
        pid: 4,
    };
    let mut buffer = [0u8; 32];
    {
        let slice = header.pack(&mut buffer).unwrap();
        assert_eq!(slice.len(), 16usize);
    }
    let data = [
        0x12, 0x00, 0x00, 0x00, // size
        0x00, 0x10, // identifier
        0x10, 0x00, // flags
        0x01, 0x00, 0x00, 0x00, // sequence
        0x04, 0x00, 0x00, 0x00,
    ]; // pid
    assert_eq!(&buffer[..data.len()], data);
}

#[test]
fn unpack_data_message() {
    let data = [
        0x12, 0x00, 0x00, 0x00, // size
        0x00, 0x10, // identifier
        0x10, 0x00, // flags
        0x01, 0x00, 0x00, 0x00, // sequence
        0x04, 0x00, 0x00, 0x00, // pid
        0xaa, 0x55, 0x00, 0x00,
    ]; // data with padding
    let (used, header) = Header::unpack_with_size(&data).unwrap();
    assert_eq!(used, Header::HEADER_SIZE);
    assert_eq!(header.length, 18u32);
    assert_eq!(header.length(), 18usize);
    assert_eq!(header.data_length(), 2usize);
    assert_eq!(header.aligned_data_length(), 4usize);
    assert_eq!(header.identifier, 0x1000u16);
    assert_eq!(header.flags, 0x0010u16);
    assert_eq!(header.sequence, 0x00000001u32);
    assert_eq!(header.pid, 0x00000004u32);
    let (used, msg) = Message::unpack(&data[used..], header).unwrap();
    assert_eq!(used, 4usize);
    assert_eq!(msg.data.len(), 2usize);
    assert_eq!(msg.data[0], 0xaau8);
    assert_eq!(msg.data[1], 0x55u8);
}

#[test]
fn pack_data_message() {
    let message = Message {
        header: Header {
            length: 18,
            identifier: 0x1000,
            flags: 0x0010,
            sequence: 0x12345678,
            pid: 1,
        },
        data: vec![0xaa, 0x55],
    };
    let mut buffer = [0xffu8; 32];
    {
        let slice = message.pack(&mut buffer).unwrap();
        assert_eq!(slice.len(), 12usize);
    }
    let data = [
        0x12, 0x00, 0x00, 0x00, // size
        0x00, 0x10, // identifier
        0x10, 0x00, // flags
        0x78, 0x56, 0x34, 0x12, // sequence
        0x01, 0x00, 0x00, 0x00, // pid
        0xaa, 0x55, 0xff, 0xff,
    ]; // padded data
    assert_eq!(&buffer[..data.len()], data);
}

#[test]
fn unpack_error_message() {
    let data = [
        0x24, 0x00, 0x00, 0x00, // size
        0x00, 0x10, // identifier
        0x10, 0x00, // flags
        0x01, 0x00, 0x00, 0x00, // sequence
        0x04, 0x00, 0x00, 0x00, // pid
        0xff, 0xff, 0xff, 0xff, // error code
        0x12, 0x00, 0x00, 0x00, // size
        0x00, 0x11, // identifier
        0x11, 0x00, // flags
        0xff, 0xff, 0xff, 0xff, // sequence
        0x05, 0x00, 0x00, 0x00, // pid
    ];
    let (used, header) = Header::unpack_with_size(&data).unwrap();
    assert_eq!(used, Header::HEADER_SIZE);
    assert_eq!(header.length, 36u32);
    assert_eq!(header.length(), 36usize);
    assert_eq!(header.data_length(), 20usize);
    assert_eq!(header.aligned_data_length(), 20usize);
    assert_eq!(header.identifier, 0x1000u16);
    assert_eq!(header.flags, 0x0010u16);
    assert_eq!(header.sequence, 0x00000001u32);
    assert_eq!(header.pid, 0x00000004u32);
    let (used, msg) = ErrorMessage::unpack(&data[used..], header).unwrap();
    assert_eq!(used, 20usize);
    assert_eq!(msg.code, -1);
    assert_eq!(msg.original_header.length, 18u32);
    assert_eq!(msg.original_header.identifier, 0x1100u16);
    assert_eq!(msg.original_header.flags, 0x0011u16);
    assert_eq!(msg.original_header.sequence, u32::max_value());
    assert_eq!(msg.original_header.pid, 5u32);
}

fn kind_of<T: std::fmt::Debug>(r: Result<T, Error>) -> NetlinkErrorKind {
    match r {
        Err(Error::Netlink(e)) => e.kind,
        other => panic!("unexpected {:?}", other),
    }
}

#[test]
fn header_decode_needs_sixteen_bytes() {
    for len in 0..16 {
        let data = vec![0xffu8; len];
        assert_eq!(kind_of(Header::unpack(&data)), NetlinkErrorKind::NotEnoughData);
    }
    let (used, header) = Header::unpack_with_size(&[0xffu8; 16]).unwrap();
    assert_eq!(used, 16);
    assert_eq!(header.length, u32::MAX);
    assert_eq!(header.pid, u32::MAX);
    let (used, header) = Header::unpack_with_size(&[0u8; 16]).unwrap();
    assert_eq!(used, 16);
    assert_eq!(header.length, 0);
}

#[test]
fn header_round_trip() {
    let header = Header {
        length: 0xfedcba98,
        identifier: 0x8001,
        flags: 0x0305,
        sequence: 0x80000000,
        pid: u32::MAX,
    };
    let mut buffer = [0u8; 16];
    header.pack(&mut buffer).unwrap();
    assert_eq!(Header::unpack(&buffer).unwrap(), header);
}

#[test]
fn alignment() {
    assert_eq!(netlink_align(0), 0);
    assert_eq!(netlink_align(1), 4);
    assert_eq!(netlink_align(4), 4);
    assert_eq!(netlink_align(5), 8);
    assert_eq!(netlink_padding(0), 0);
    assert_eq!(netlink_padding(1), 3);
    assert_eq!(netlink_padding(7), 1);
    assert_eq!(netlink_padding(8), 0);
    assert_eq!(align_to(17, 16), 32);
    assert_eq!(align_to(16, 16), 16);
    assert_eq!(align_to(9, 8), 16);
}

#[test]
fn header_derived_lengths() {
    let header = Header { length: 21, identifier: 0, flags: 0, sequence: 0, pid: 7 };
    assert_eq!(header.length(), 21);
    assert_eq!(header.data_length(), 5);
    assert_eq!(header.padding(), 3);
    assert_eq!(header.aligned_length(), 24);
    assert_eq!(header.aligned_data_length(), 8);
    assert!(header.check_pid(7));
    assert!(!header.check_pid(8));
    let broadcast = Header { pid: 0, ..header };
    assert!(broadcast.check_pid(8));
}

#[test]
fn header_flags_drop_undefined_bits() {
    let header = Header { length: 16, identifier: 0, flags: 0xffff, sequence: 0, pid: 0 };
    assert_eq!(header.flags().bits(), 0x0307);
}

#[test]
fn data_message_errors() {
    let short = Header { length: 15, identifier: 16, flags: 0, sequence: 0, pid: 0 };
    assert_eq!(kind_of(Message::unpack(&[0u8; 8], short)), NetlinkErrorKind::InvalidLength);
    let long = Header { length: 16 + 5, identifier: 16, flags: 0, sequence: 0, pid: 0 };
    assert_eq!(kind_of(Message::unpack(&[0u8; 7], long)), NetlinkErrorKind::NotEnoughData);
    let (used, message) = Message::unpack(&[1, 2, 3, 4, 5, 6, 7, 8], long).unwrap();
    assert_eq!(used, 8);
    assert_eq!(message.data, vec![1, 2, 3, 4, 5]);
}

#[test]
fn error_message_needs_twenty_bytes() {
    let header = Header { length: 36, identifier: 2, flags: 0, sequence: 1, pid: 0 };
    assert_eq!(kind_of(ErrorMessage::unpack(&[0u8; 19], header)), NetlinkErrorKind::NotEnoughData);
    let (used, message) = ErrorMessage::unpack(&[0u8; 20], header).unwrap();
    assert_eq!(used, 20);
    assert_eq!(message.code, 0);
    assert_eq!(message.header, header);
}

#[test]
fn message_pack_leaves_short_buffer_untouched() {
    let message = Message {
        header: Header { length: 18, identifier: 1, flags: 0, sequence: 0, pid: 0 },
        data: vec![0xaa, 0x55],
    };
    let mut buffer = [0xeeu8; 19];
    assert_eq!(kind_of(message.pack(&mut buffer).map(|r| r.len())), NetlinkErrorKind::NotEnoughData);
    assert_eq!(buffer, [0xeeu8; 19]);
    let mut buffer = [0xeeu8; 20];
    assert_eq!(message.pack(&mut buffer).unwrap().len(), 0);
}

#[test]
fn modes_and_flags() {
    assert_eq!(MessageFlags::from(MessageMode::Plain).bits(), 0x0001);
    assert_eq!(MessageFlags::from(MessageMode::Acknowledge).bits(), 0x0005);
    assert_eq!(MessageFlags::from(MessageMode::Dump).bits(), 0x0301);
    assert_eq!(MessageMode::from(MessageFlags::from(MessageMode::Plain)), MessageMode::Plain);
    assert_eq!(
        MessageMode::from(MessageFlags::from(MessageMode::Acknowledge)),
        MessageMode::Acknowledge
    );
    assert_eq!(MessageMode::from(MessageFlags::from(MessageMode::Dump)), MessageMode::Dump);
    assert_eq!(MessageMode::from(MessageFlags::from_bits_truncate(0x0104)), MessageMode::Dump);
    assert_eq!((MessageFlags::request() | MessageFlags::multipart()).bits(), 3);
    assert!(MessageFlags::from_bits(0x0008).is_none());
    assert_eq!(MessageFlags::from_bits(0x0306).unwrap().bits(), 0x0306);
    assert!(MessageFlags::dump().contains(MessageFlags::from_bits_truncate(0x0100)));
    assert!(!MessageFlags::from_bits_truncate(0x0100).contains(MessageFlags::dump()));
    assert!(MessageFlags::from_bits_truncate(0x0100).intersects(MessageFlags::dump()));
    assert!(!MessageFlags::empty().intersects(MessageFlags::dump()));
}

#[test]
fn classification() {
    let header = Header { length: 16, identifier: 0, flags: 0, sequence: 0, pid: 0 };
    assert_eq!(header.classify(), RecordKind::Data);
    assert_eq!(Header { identifier: 1, ..header }.classify(), RecordKind::Noop);
    assert_eq!(Header { identifier: 2, ..header }.classify(), RecordKind::Error);
    assert_eq!(Header { identifier: 3, ..header }.classify(), RecordKind::Done);
    assert_eq!(Header { identifier: 4, ..header }.classify(), RecordKind::Data);
    assert_eq!(Header { identifier: 16, ..header }.classify(), RecordKind::Data);
    assert_eq!(Header { identifier: u16::MAX, ..header }.classify(), RecordKind::Data);
}

#[test]
fn error_conversions() {
    let error: Error = netlink_rust::NetlinkError::new(NetlinkErrorKind::InvalidValue).into();
    assert_eq!(kind_of::<()>(Err(error)), NetlinkErrorKind::InvalidValue);
    let invalid = std::str::from_utf8(&[0xff]).unwrap_err();
    assert!(matches!(Error::from(invalid), Error::Utf8(_)));
    let invalid = String::from_utf8(vec![0xff]).unwrap_err();
    assert!(matches!(Error::from(invalid), Error::FromUtf8(_)));
}
