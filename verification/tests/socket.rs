use netlink_rust::base::{Header, SendMessage};
use netlink_rust::{
    generic, route, Attribute, Error, Message, NativePack, NativeUnpack, NetlinkErrorKind,
    SocketState,
};

const PID: u32 = 0x1234;

fn record(identifier: u16, flags: u16, sequence: u32, pid: u32, payload: &[u8]) -> Vec<u8> {
    let header = Header {
        length: 16 + payload.len() as u32,
        identifier,
        flags,
        sequence,
        pid,
    };
    let padded = (payload.len() + 3) / 4 * 4;
    let mut bytes = vec![0u8; 16 + padded];
    header.pack(&mut bytes).unwrap();
    bytes[16..16 + payload.len()].copy_from_slice(payload);
    bytes
}

fn error_record(sequence: u32, pid: u32, code: i32) -> Vec<u8> {
    let mut payload = vec![0u8; 20];
    code.pack(&mut payload).unwrap();
    let original = Header { length: 20, identifier: 16, flags: 5, sequence, pid };
    original.pack(&mut payload[4..]).unwrap();
    record(2, 0, sequence, pid, &payload)
}

fn kind_of<T: std::fmt::Debug>(r: Result<T, Error>) -> NetlinkErrorKind {
    match r {
        Err(Error::Netlink(e)) => e.kind,
        other => panic!("unexpected {:?}", other),
    }
}

fn dump_request() -> route::Message {
    route::Message::new(route::FamilyId::GetLink)
}

#[test]
fn new_state() {
    let state = SocketState::new(PID, 4096);
    assert_eq!(state.local_pid(), PID);
    assert_eq!(state.sequence_next(), 1);
    assert_eq!(state.send_buffer().len(), 4096);
    assert!(state.check_sequence(&0));
    assert!(!state.check_sequence(&1));
    assert!(!state.expect_more(&0));
    assert!(!state.expect_more(&1));
}

#[test]
fn send_message_frames_the_request() {
    let mut state = SocketState::new(PID, 64);
    let mut request = generic::Message::new(
        generic::FamilyId::Control,
        generic::Command::GetFamily,
        netlink_rust::MessageMode::Acknowledge,
    );
    request.append_attribute(Attribute::new_bytes(2u16, b"abc"));
    let size = state.send_message(&request).unwrap();
    assert_eq!(size, 16 + 4 + 8);
    let sent = &state.send_buffer()[..size];
    let (_, header) = Header::unpack_with_size(sent).unwrap();
    assert_eq!(
        header,
        Header { length: 28, identifier: 16, flags: 0x0005, sequence: 1, pid: PID }
    );
    assert_eq!(&sent[16..], &[3, 1, 0, 0, 7, 0, 2, 0, b'a', b'b', b'c', 0]);
    assert_eq!(state.sequence_next(), 2);
    assert!(state.check_sequence(&1));
    assert!(state.expect_more(&1));
    assert!(!state.check_sequence(&2));

    let size = state.send_message(&request).unwrap();
    assert_eq!(size, 28);
    let (_, header) = Header::unpack_with_size(state.send_buffer()).unwrap();
    assert_eq!(header.sequence, 2);
    assert_eq!(state.sequence_next(), 3);
    assert!(state.check_sequence(&1));
    assert!(state.check_sequence(&2));
}

#[test]
fn send_message_that_does_not_fit_changes_no_bookkeeping() {
    let mut state = SocketState::new(PID, 24);
    let mut request = dump_request();
    request.attributes.push(Attribute::new_bytes(1u16, &[0u8; 8]));
    assert_eq!(kind_of(state.send_message(&request)), NetlinkErrorKind::NotEnoughData);
    assert_eq!(state.sequence_next(), 1);
    assert!(!state.check_sequence(&1));
}

#[test]
fn plain_requests_expect_no_closing_record() {
    let plain = generic::Message::new(20u8, 1u8, netlink_rust::MessageMode::Plain);
    let mut state = SocketState::new(PID, 20);
    assert_eq!(state.send_message(&plain).unwrap(), 20);
    assert!(state.check_sequence(&1));
    assert!(!state.expect_more(&1));
    let mut messages = Vec::new();
    let data = record(20, 0, 1, PID, &[1]);
    assert!(!state.unpack_data(&data, &mut messages).unwrap());
    assert_eq!(messages.len(), 1);
    // multipart asks for more whatever the request was
    let data = record(20, 2, 1, PID, &[1]);
    assert!(state.unpack_data(&data, &mut messages).unwrap());
}

#[test]
fn dump_is_read_to_its_end() {
    let mut state = SocketState::new(PID, 4096);
    assert!(state.is_idle());
    state.send_message(&dump_request()).unwrap();
    assert!(!state.is_idle());
    assert!(state.expect_more(&1));
    let mut datagram = record(16, 2, 1, PID, &[1, 2, 3]);
    datagram.extend(record(16, 2, 1, PID, &[4, 5, 6, 7, 8]));
    datagram.extend(record(3, 2, 1, PID, &[]));
    let mut messages: Vec<Message> = Vec::new();
    let more = state.unpack_data(&datagram, &mut messages).unwrap();
    assert!(!more);
    assert_eq!(messages.len(), 2);
    assert_eq!(messages[0].data, vec![1, 2, 3]);
    assert_eq!(messages[0].header.length, 19);
    assert_eq!(messages[1].data, vec![4, 5, 6, 7, 8]);
    assert!(!state.check_sequence(&1));
    assert_eq!(state.sequence_next(), 2);
    assert!(state.is_idle());
}

#[test]
fn dump_over_several_datagrams() {
    let mut state = SocketState::new(PID, 4096);
    state.send_message(&dump_request()).unwrap();
    let mut messages: Vec<Message> = Vec::new();
    let first = record(16, 2, 1, PID, &[1]);
    assert!(state.unpack_data(&first, &mut messages).unwrap());
    assert!(state.check_sequence(&1));
    // a dump reply without the multipart flag still awaits the done record
    let second = record(16, 0, 1, PID, &[2]);
    assert!(state.unpack_data(&second, &mut messages).unwrap());
    // the done record carries the dump's status word
    let done = record(3, 2, 1, PID, &[0, 0, 0, 0]);
    assert!(!state.unpack_data(&done, &mut messages).unwrap());
    assert_eq!(messages.len(), 2);
    assert!(!state.check_sequence(&1));
    // nothing read: nothing more to read
    assert!(!state.unpack_data(&[], &mut messages).unwrap());
}

#[test]
fn foreign_pid_is_rejected() {
    let mut state = SocketState::new(PID, 4096);
    state.send_message(&dump_request()).unwrap();
    let mut messages: Vec<Message> = Vec::new();
    let datagram = record(16, 2, 1, PID + 1, &[1, 2, 3]);
    assert_eq!(kind_of(state.unpack_data(&datagram, &mut messages)), NetlinkErrorKind::InvalidValue);
    assert!(messages.is_empty());
    assert!(state.check_sequence(&1));
    // the kernel's own address is fine
    let datagram = record(16, 2, 1, 0, &[1, 2, 3]);
    assert!(state.unpack_data(&datagram, &mut messages).unwrap());
    assert_eq!(messages.len(), 1);
}

#[test]
fn unknown_sequence_is_rejected() {
    let mut state = SocketState::new(PID, 4096);
    let mut messages: Vec<Message> = Vec::new();
    let datagram = record(16, 0, 1, PID, &[1]);
    assert_eq!(kind_of(state.unpack_data(&datagram, &mut messages)), NetlinkErrorKind::InvalidValue);
    // unsolicited records have the sequence number zero
    let datagram = record(16, 0, 0, 0, &[1]);
    assert!(!state.unpack_data(&datagram, &mut messages).unwrap());
    assert_eq!(messages.len(), 1);
}

#[test]
fn error_record_surfaces_the_errno() {
    let mut state = SocketState::new(PID, 4096);
    state.send_message(&dump_request()).unwrap();
    let mut messages: Vec<Message> = Vec::new();
    let datagram = error_record(1, PID, -1);
    match state.unpack_data(&datagram, &mut messages) {
        Err(Error::Io(errno)) => assert_eq!(errno, 1),
        other => panic!("unexpected {:?}", other),
    }
    assert!(!state.check_sequence(&1));
    assert_eq!(std::io::Error::from_raw_os_error(1).kind(), std::io::ErrorKind::PermissionDenied);
}

#[test]
fn error_record_after_data_keeps_the_data() {
    let mut state = SocketState::new(PID, 4096);
    state.send_message(&dump_request()).unwrap();
    let mut messages: Vec<Message> = Vec::new();
    let mut datagram = record(16, 2, 1, PID, &[1]);
    datagram.extend(error_record(1, PID, -19));
    match state.unpack_data(&datagram, &mut messages) {
        Err(Error::Io(errno)) => assert_eq!(errno, 19),
        other => panic!("unexpected {:?}", other),
    }
    assert_eq!(messages.len(), 1);
    match state.unpack_data(&error_record(0, PID, i32::MIN), &mut messages) {
        Err(Error::Io(errno)) => assert_eq!(errno, i32::MIN),
        other => panic!("unexpected {:?}", other),
    }
}

#[test]
fn acknowledgement_retires_the_request() {
    let mut state = SocketState::new(PID, 4096);
    let request = generic::Family::id_request(21);
    state.send_message(&request).unwrap();
    let mut messages: Vec<Message> = Vec::new();
    let mut datagram = record(16, 0, 1, PID, &[1, 2, 0, 0]);
    datagram.extend(error_record(1, PID, 0));
    assert!(!state.unpack_data(&datagram, &mut messages).unwrap());
    assert_eq!(messages.len(), 1);
    assert!(!state.check_sequence(&1));
}

#[test]
fn noop_records_are_skipped() {
    let mut state = SocketState::new(PID, 4096);
    state.send_message(&dump_request()).unwrap();
    let mut messages: Vec<Message> = Vec::new();
    let mut datagram = record(1, 0, 0, 0, &[]);
    datagram.extend(record(16, 2, 1, PID, &[7]));
    datagram.extend(record(1, 0, 0, 0, &[]));
    assert!(state.unpack_data(&datagram, &mut messages).unwrap());
    assert_eq!(messages.len(), 1);
    assert_eq!(messages[0].data, vec![7]);
}

#[test]
fn malformed_datagrams() {
    let mut state = SocketState::new(PID, 4096);
    state.send_message(&dump_request()).unwrap();
    let mut messages: Vec<Message> = Vec::new();
    // a header cut short
    assert_eq!(
        kind_of(state.unpack_data(&[0u8; 15], &mut messages)),
        NetlinkErrorKind::NotEnoughData
    );
    // a data record that claims more than the datagram holds
    let mut datagram = record(16, 2, 1, PID, &[1, 2, 3, 4, 5]);
    datagram.truncate(20);
    assert_eq!(
        kind_of(state.unpack_data(&datagram, &mut messages)),
        NetlinkErrorKind::NotEnoughData
    );
    // a length below the header's own
    let mut datagram = vec![0u8; 16];
    Header { length: 8, identifier: 16, flags: 0, sequence: 1, pid: PID }
        .pack(&mut datagram)
        .unwrap();
    assert_eq!(
        kind_of(state.unpack_data(&datagram, &mut messages)),
        NetlinkErrorKind::InvalidLength
    );
    // an error record cut short
    let mut datagram = error_record(1, PID, -1);
    datagram.truncate(30);
    assert_eq!(
        kind_of(state.unpack_data(&datagram, &mut messages)),
        NetlinkErrorKind::NotEnoughData
    );
    assert!(messages.is_empty());
}

#[test]
fn unpack_record_reads_one_record() {
    let mut state = SocketState::new(PID, 4096);
    state.send_message(&dump_request()).unwrap();
    let mut messages: Vec<Message> = Vec::new();
    let mut datagram = record(16, 2, 1, PID, &[1, 2, 3]);
    datagram.extend(record(3, 2, 1, PID, &[]));
    let (used, more) = state.unpack_record(&datagram, false, &mut messages).unwrap();
    assert_eq!(used, 20);
    assert!(more);
    let (used, more) = state.unpack_record(&datagram[20..], more, &mut messages).unwrap();
    assert_eq!(used, 16);
    assert!(!more);
    assert_eq!(messages.len(), 1);
}

#[test]
fn route_request_payload() {
    let mut request = dump_request();
    request.attributes.push(Attribute::new_bytes(3u16, b"lo\0"));
    assert_eq!(request.message_type(), 18);
    assert_eq!(request.query_flags().bits(), 0x0301);
    let mut buffer = [0xeeu8; 12];
    assert_eq!(request.pack(&mut buffer).unwrap(), 9);
    assert_eq!(buffer, [17, 7, 0, 3, 0, b'l', b'o', 0, 0xee, 0xee, 0xee, 0xee]);
    assert_eq!(kind_of(request.pack(&mut [])), NetlinkErrorKind::NotEnoughData);
    assert_eq!(kind_of(request.pack(&mut [0u8; 8])), NetlinkErrorKind::NotEnoughData);
    assert_eq!(i32::from(route::AF_PACKET), libc::AF_PACKET);
    let (_, back) = u8::unpack_with_size(&buffer).unwrap();
    assert_eq!(back, 17);
}
