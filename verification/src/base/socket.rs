use std::collections::HashMap;
use vstd::prelude::*;
use vstd::slice::slice_subrange;

use crate::base::message::{
    aligned, lemma_unpack_packed_header, mode_of, record_kind, ErrorMessage, Header, Message,
    MessageFlags, MessageMode, Messages, RecordKind, MULTIPART, NLMSG_DONE,
};
use crate::base::pack::{NativePack, NativeUnpack};
use crate::errors::{Error, NetlinkError, NetlinkErrorKind};

verus! {

broadcast use vstd::std_specs::hash::group_hash_axioms;

/// Trait for message to be sent by the socket
pub trait SendMessage {
    /// Whether the message can be packed: its lengths fit their fields.
    spec fn sendable(&self) -> bool;

    /// What packing does: the buffer afterwards, and the number of bytes
    /// that the payload takes up or the reason why it was not packed.
    spec fn packing(&self, buffer: Seq<u8>) -> (Seq<u8>, Result<nat, Error>);

    /// The message type, as a specification.
    spec fn kind(&self) -> u16;

    /// The bits of the query flags, as a specification.
    spec fn flag_bits(&self) -> u16;

    /// Pack the message into the provided byte slice
    fn pack(&self, data: &mut [u8]) -> (r: Result<usize, Error>)
        requires
            self.sendable(),
        ensures
            final(data)@.len() == old(data)@.len(),
            final(data)@ == self.packing(old(data)@).0,
            match r {
                Ok(size) => self.packing(old(data)@).1 == Ok::<nat, Error>(size as nat) && size
                    <= old(data)@.len(),
                Err(e) => self.packing(old(data)@).1 == Err::<nat, Error>(e),
            },
    ;

    /// Get the message type
    fn message_type(&self) -> (r: u16)
        ensures
            r == self.kind(),
    ;

    /// Get the query flags
    fn query_flags(&self) -> (r: MessageFlags)
        ensures
            r.bits() == self.flag_bits(),
    ;
}

/// The views of the messages of a list, in order.
pub open spec fn message_views(messages: Seq<Message>) -> Seq<(Header, Seq<u8>)> {
    messages.map_values(|m: Message| m@)
}

/// The error number that an error record's code stands for: the code
/// negated, and the one code that has no negation unchanged.
pub open spec fn errno_of(code: i32) -> i32 {
    if code == i32::MIN {
        code
    } else {
        (-code) as i32
    }
}

/// Whether a record of this sequence number may arrive: it is unsolicited
/// or answers a pending request.
pub open spec fn sequence_known(pending: Map<u32, MessageMode>, sequence: u32) -> bool {
    sequence == 0 || pending.contains_key(sequence)
}

/// Whether the request that a data record answers is closed by a later
/// record.
pub open spec fn more_expected(pending: Map<u32, MessageMode>, sequence: u32) -> bool {
    sequence != 0 && pending.contains_key(sequence) && pending[sequence] != MessageMode::Plain
}

/// What the record at the front of a datagram does: the requests pending
/// afterwards, the data message that it carries if it carries one, and
/// either the number of bytes that it takes up with whether more datagrams
/// are to be read, or the failure that ends the reading. `pid` is the
/// socket's own address, `pending` the requests pending before, `more` what
/// the records before this one amount to.
#[verifier::opaque]
pub open spec fn record(data: Seq<u8>, pid: u32, pending: Map<u32, MessageMode>, more: bool) -> (
    Map<u32, MessageMode>,
    Seq<(Header, Seq<u8>)>,
    Result<(nat, bool), Error>,
) {
    if data.len() < 16 {
        (pending, Seq::empty(), Err(failure(NetlinkErrorKind::NotEnoughData)))
    } else {
        let header = Header::of_bytes(data);
        let rest = data.skip(16);
        if !(header.pid == 0 || header.pid == pid) {
            (pending, Seq::empty(), Err(failure(NetlinkErrorKind::InvalidValue)))
        } else if !sequence_known(pending, header.sequence) {
            (pending, Seq::empty(), Err(failure(NetlinkErrorKind::InvalidValue)))
        } else {
            let retired = pending.remove(header.sequence);
            match record_kind(header.identifier) {
                RecordKind::Noop => (pending, Seq::empty(), Ok((16, more))),
                RecordKind::Error => match ErrorMessage::decoded(rest, header) {
                    Err(kind) => (retired, Seq::empty(), Err(failure(kind))),
                    Ok((used, message)) => if message.code != 0 {
                        (retired, Seq::empty(), Err(Error::Io(errno_of(message.code))))
                    } else {
                        (retired, Seq::empty(), Ok((16 + used, false)))
                    },
                },
                RecordKind::Done => if header.length < 16 {
                    (retired, Seq::empty(), Err(failure(NetlinkErrorKind::InvalidLength)))
                } else {
                    let used = aligned((header.length - 16) as nat, 4);
                    if used >= rest.len() {
                        (retired, Seq::empty(), Ok((data.len(), false)))
                    } else {
                        (retired, Seq::empty(), Ok((16 + used, false)))
                    }
                },
                RecordKind::Data => {
                    let more_now = header.flags & MULTIPART != 0 || more_expected(
                        pending,
                        header.sequence,
                    );
                    match Message::decoded(rest, header) {
                        Err(kind) => (pending, Seq::empty(), Err(failure(kind))),
                        Ok((used, message)) => (pending, seq![message], Ok((16 + used, more_now))),
                    }
                },
            }
        }
    }
}

/// What the records of a datagram amount to, read one behind the other:
/// the requests still pending afterwards, the data messages in order, and
/// either whether more datagrams are to be read or the failure that ended the
/// reading.
pub open spec fn demux(data: Seq<u8>, pid: u32, pending: Map<u32, MessageMode>, more: bool) -> (
    Map<u32, MessageMode>,
    Seq<(Header, Seq<u8>)>,
    Result<bool, Error>,
)
    decreases data.len(),
{
    if data.len() == 0 {
        (pending, Seq::empty(), Ok(more))
    } else {
        let first = record(data, pid, pending, more);
        match first.2 {
            Err(e) => (first.0, first.1, Err(e)),
            Ok((used, more_now)) => {
                if 0 < used <= data.len() {
                    let then = demux(data.skip(used as int), pid, first.0, more_now);
                    (then.0, first.1 + then.1, then.2)
                } else {
                    (first.0, first.1, Ok(more_now))
                }
            },
        }
    }
}

/// A record that is read takes up at least its header and no more than the
/// datagram.
pub proof fn lemma_record_bounds(
    data: Seq<u8>,
    pid: u32,
    pending: Map<u32, MessageMode>,
    more: bool,
)
    ensures
        record(data, pid, pending, more).2 matches Ok((used, _)) ==> 16 <= used <= data.len(),
{
    reveal(record);
}

/// The protocol error of the given kind.
pub open spec fn failure(kind: NetlinkErrorKind) -> Error {
    Error::Netlink(NetlinkError { kind: kind })
}

/// The bookkeeping of one netlink socket: its address, the sequence number
/// of the next request, the requests that still await their closing record,
/// and the buffer in which requests are put together.
pub struct SocketState {
    local_pid: u32,
    sequence_next: u32,
    send_buffer: Vec<u8>,
    sent: HashMap<u32, MessageMode>,
}

impl SocketState {
    /// Whether the send buffer has room for a header and a length that a
    /// header can state.
    pub closed spec fn wf(&self) -> bool {
        16 <= self.send_buffer@.len() <= u32::MAX
    }

    /// The socket's own address.
    pub closed spec fn pid(&self) -> u32 {
        self.local_pid
    }

    /// The sequence number that the next request gets.
    pub closed spec fn next_sequence(&self) -> u32 {
        self.sequence_next
    }

    /// The requests that await their closing record, by sequence number.
    pub closed spec fn pending(&self) -> Map<u32, MessageMode> {
        self.sent@
    }

    /// What the send buffer holds.
    pub closed spec fn buffer(&self) -> Seq<u8> {
        self.send_buffer@
    }

    /// The state of a socket bound to the address `pid`, with a send buffer
    /// of `buffer_size` bytes. The first request gets the sequence number 1.
    pub fn new(pid: u32, buffer_size: usize) -> (state: SocketState)
        requires
            16 <= buffer_size <= u32::MAX,
        ensures
            state.wf(),
            state.pid() == pid,
            state.next_sequence() == 1,
            state.pending() == Map::<u32, MessageMode>::empty(),
            state.buffer() == Seq::new(buffer_size as nat, |i: int| 0u8),
    {
        let buffer = vec![0u8; buffer_size];
        assert(buffer@ =~= Seq::new(buffer_size as nat, |i: int| 0u8));
        SocketState {
            local_pid: pid,
            sequence_next: 1,
            send_buffer: buffer,
            sent: HashMap::new(),
        }
    }

    /// The socket's own address.
    pub fn local_pid(&self) -> (pid: u32)
        ensures
            pid == self.pid(),
    {
        self.local_pid
    }

    /// The sequence number that the next request gets.
    pub fn sequence_next(&self) -> (sequence: u32)
        ensures
            sequence == self.next_sequence(),
    {
        self.sequence_next
    }

    /// The send buffer; its front holds the request packed last.
    pub fn send_buffer(&self) -> (buffer: &[u8])
        ensures
            buffer@ == self.buffer(),
    {
        self.send_buffer.as_slice()
    }

    /// Whether no request awaits its closing record
    pub fn is_idle(&self) -> (idle: bool)
        ensures
            idle == (self.pending().len() == 0),
    {
        self.sent.is_empty()
    }

    /// Whether a record of this sequence number may arrive
    pub fn check_sequence(&self, sequence: &u32) -> (known: bool)
        ensures
            known == sequence_known(self.pending(), *sequence),
    {
        if *sequence == 0 {
            return true;
        }
        self.sent.contains_key(sequence)
    }

    /// Whether the request of this sequence number is closed by a later record
    pub fn expect_more(&self, sequence: &u32) -> (more: bool)
        ensures
            more == more_expected(self.pending(), *sequence),
    {
        if *sequence == 0 {
            return false;
        }
        match self.sent.get(sequence) {
            Some(mode) => match mode {
                MessageMode::Plain => false,
                _ => true,
            },
            None => false,
        }
    }

    /// Puts the next request together in the send buffer: the header with
    /// a fresh sequence number, then the payload. Records what closing record
    /// the request awaits and returns the number of bytes to send from the
    /// front of the send buffer.
    pub fn send_message<S: SendMessage>(&mut self, payload: &S) -> (r: Result<usize, Error>)
        requires
            old(self).wf(),
            payload.sendable(),
            old(self).next_sequence() < u32::MAX,
        ensures
            final(self).wf(),
            final(self).pid() == old(self).pid(),
            final(self).buffer().len() == old(self).buffer().len(),
            ({
                let body = payload.packing(old(self).buffer().skip(16));
                match r {
                    Ok(size) => {
                        &&& 16 <= size <= old(self).buffer().len()
                        &&& body.1 == Ok::<nat, Error>((size - 16) as nat)
                        &&& final(self).buffer() == (Header {
                            length: size as u32,
                            identifier: payload.kind(),
                            flags: payload.flag_bits(),
                            sequence: old(self).next_sequence(),
                            pid: old(self).pid(),
                        }).to_bytes() + body.0
                        &&& final(self).pending() == old(self).pending().insert(
                            old(self).next_sequence(),
                            mode_of(payload.flag_bits()),
                        )
                        &&& final(self).next_sequence() == old(self).next_sequence() + 1
                    },
                    Err(e) => {
                        &&& body.1 == Err::<nat, Error>(e)
                        &&& final(self).buffer() == old(self).buffer().take(16) + body.0
                        &&& final(self).pending() == old(self).pending()
                        &&& final(self).next_sequence() == old(self).next_sequence()
                    },
                }
            }),
    {
        let flags = payload.query_flags();
        let ghost before = self.send_buffer@;
        let (_, body) = self.send_buffer.as_mut_slice().split_at_mut(Header::HEADER_SIZE);
        let packed = payload.pack(body);
        assert(self.send_buffer@ =~= before.take(16) + payload.packing(before.skip(16)).0);
        let payload_size = match packed {
            Ok(size) => size,
            Err(e) => {
                return Err(e);
            },
        };
        let size = Header::HEADER_SIZE + payload_size;
        let hdr = Header {
            length: size as u32,
            identifier: payload.message_type(),
            flags: flags.bits(),
            sequence: self.sequence_next,
            pid: self.local_pid,
        };
        proof {
            hdr.lemma_to_bytes_len();
        }
        hdr.pack_unchecked(self.send_buffer.as_mut_slice());
        assert(self.send_buffer@ =~= hdr.to_bytes() + payload.packing(before.skip(16)).0);
        self.sent.insert(self.sequence_next, MessageMode::from(flags));
        self.sequence_next += 1;
        Ok(size)
    }

    /// Reads the record at the front of `data`: checks it against the
    /// socket's address and the pending requests, retires the request that an
    /// error or done record closes, and appends a data message to `messages`.
    /// Returns the number of bytes that the record takes up and whether more
    /// datagrams are to be read.
    pub fn unpack_record(&mut self, data: &[u8], more: bool, messages: &mut Messages) -> (r:
        Result<(usize, bool), Error>)
        ensures
            final(self).wf() == old(self).wf(),
            final(self).pid() == old(self).pid(),
            final(self).next_sequence() == old(self).next_sequence(),
            final(self).buffer() == old(self).buffer(),
            ({
                let out = record(data@, old(self).pid(), old(self).pending(), more);
                &&& final(self).pending() == out.0
                &&& message_views(final(messages)@) == message_views(old(messages)@) + out.1
                &&& match r {
                    Ok((used, more_now)) => out.2 == Ok::<(nat, bool), Error>(
                        (used as nat, more_now),
                    ),
                    Err(e) => out.2 == Err::<(nat, bool), Error>(e),
                }
            }),
    {
        let bytes = data.len();
        proof {
            reveal(record);
        }
        assert(message_views(messages@) + Seq::<(Header, Seq<u8>)>::empty() =~= message_views(
            messages@,
        ));
        if bytes < Header::HEADER_SIZE {
            return Err(Error::netlink(NetlinkErrorKind::NotEnoughData));
        }
        let header = Header::unpack_unchecked(data);
        let rest = slice_subrange(data, Header::HEADER_SIZE, bytes);
        assert(rest@ =~= data@.skip(16));
        if !header.check_pid(self.local_pid) {
            return Err(Error::netlink(NetlinkErrorKind::InvalidValue));
        }
        if !self.check_sequence(&header.sequence) {
            return Err(Error::netlink(NetlinkErrorKind::InvalidValue));
        }
        let sequence = header.sequence;
        match header.classify() {
            RecordKind::Noop => Ok((Header::HEADER_SIZE, more)),
            RecordKind::Error => {
                self.sent.remove(&sequence);
                let emsg = match ErrorMessage::unpack(rest, header) {
                    Ok(r) => r.1,
                    Err(e) => {
                        return Err(e);
                    },
                };
                if emsg.code != 0 {
                    let errno = if emsg.code == i32::MIN {
                        emsg.code
                    } else {
                        -emsg.code
                    };
                    return Err(Error::Io(errno));
                }
                Ok((Header::HEADER_SIZE + 4 + Header::HEADER_SIZE, false))
            },
            RecordKind::Done => {
                self.sent.remove(&sequence);
                if header.length() < Header::HEADER_SIZE {
                    return Err(Error::netlink(NetlinkErrorKind::InvalidLength));
                }
                let used = header.aligned_data_length();
                if used >= bytes - Header::HEADER_SIZE {
                    Ok((bytes, false))
                } else {
                    Ok((Header::HEADER_SIZE + used, false))
                }
            },
            RecordKind::Data => {
                let multipart = header.flags & MULTIPART != 0;
                let more_now = multipart || self.expect_more(&sequence);
                let (used, msg) = match Message::unpack(rest, header) {
                    Ok(r) => r,
                    Err(e) => {
                        return Err(e);
                    },
                };
                let ghost before = messages@;
                let ghost view = msg@;
                messages.push(msg);
                assert(message_views(messages@) =~= message_views(before) + seq![view]);
                Ok((Header::HEADER_SIZE + used, more_now))
            },
        }
    }

    /// Reads the records of one datagram: checks each against the socket's
    /// address and the pending requests, retires the requests that an error
    /// or done record closes, and appends the data messages to `messages`.
    /// Returns whether more datagrams are to be read.
    pub fn unpack_data(&mut self, data: &[u8], messages: &mut Messages) -> (r: Result<
        bool,
        Error,
    >)
        ensures
            final(self).wf() == old(self).wf(),
            final(self).pid() == old(self).pid(),
            final(self).next_sequence() == old(self).next_sequence(),
            final(self).buffer() == old(self).buffer(),
            ({
                let out = demux(data@, old(self).pid(), old(self).pending(), false);
                &&& final(self).pending() == out.0
                &&& message_views(final(messages)@) == message_views(old(messages)@) + out.1
                &&& r == out.2
            }),
    {
        let mut more_messages = false;
        let bytes = data.len();
        let mut pos: usize = 0;
        let ghost mut found: Seq<(Header, Seq<u8>)> = Seq::empty();
        proof {
            assert(data@.skip(0) =~= data@);
            assert(message_views(messages@) + found =~= message_views(messages@));
            let total = demux(data@, self.pid(), self.pending(), false);
            assert(found + total.1 =~= total.1);
        }
        while pos < bytes
            invariant
                pos <= bytes == data@.len(),
                self.wf() == old(self).wf(),
                self.pid() == old(self).pid(),
                self.next_sequence() == old(self).next_sequence(),
                self.buffer() == old(self).buffer(),
                message_views(messages@) == message_views(old(messages)@) + found,
                ({
                    let total = demux(data@, old(self).pid(), old(self).pending(), false);
                    let here = demux(
                        data@.skip(pos as int),
                        self.pid(),
                        self.pending(),
                        more_messages,
                    );
                    total.0 == here.0 && total.1 == found + here.1 && total.2 == here.2
                }),
            decreases bytes - pos,
        {
            let rest = slice_subrange(data, pos, bytes);
            let ghost first = record(rest@, self.pid(), self.pending(), more_messages);
            proof {
                assert(rest@ =~= data@.skip(pos as int));
                lemma_record_bounds(rest@, self.pid(), self.pending(), more_messages);
            }
            let (used, more_now) = match self.unpack_record(rest, more_messages, messages) {
                Ok(r) => r,
                Err(e) => {
                    return Err(e);
                },
            };
            pos = pos + used;
            more_messages = more_now;
            proof {
                assert(data@.skip(pos as int) =~= rest@.skip(used as int));
                let then = demux(data@.skip(pos as int), self.pid(), self.pending(), more_messages);
                assert(found + (first.1 + then.1) =~= (found + first.1) + then.1);
                assert(message_views(old(messages)@) + (found + first.1) =~= (message_views(
                    old(messages)@,
                ) + found) + first.1);
                found = found + first.1;
            }
        }
        assert(found + Seq::<(Header, Seq<u8>)>::empty() =~= found);
        Ok(more_messages)
    }
}

/// A datagram whose first record is addressed to another socket is
/// rejected: it changes nothing and yields no message.
pub proof fn lemma_foreign_pid_rejected(
    data: Seq<u8>,
    pid: u32,
    pending: Map<u32, MessageMode>,
)
    requires
        data.len() >= 16,
        Header::of_bytes(data).pid != 0,
        Header::of_bytes(data).pid != pid,
    ensures
        demux(data, pid, pending, false) == (
            pending,
            Seq::<(Header, Seq<u8>)>::empty(),
            Err::<bool, Error>(failure(NetlinkErrorKind::InvalidValue)),
        ),
{
    reveal(record);
}

/// A datagram whose first record answers a request that is not pending is
/// rejected: it changes nothing and yields no message.
pub proof fn lemma_unknown_sequence_rejected(
    data: Seq<u8>,
    pid: u32,
    pending: Map<u32, MessageMode>,
)
    requires
        data.len() >= 16,
        !sequence_known(pending, Header::of_bytes(data).sequence),
    ensures
        demux(data, pid, pending, false) == (
            pending,
            Seq::<(Header, Seq<u8>)>::empty(),
            Err::<bool, Error>(failure(NetlinkErrorKind::InvalidValue)),
        ),
{
    reveal(record);
}

/// An error record with a code other than zero retires its request and
/// ends the reading with the error number that the code stands for; the code
/// -1 stands for the error number 1.
pub proof fn lemma_error_record(data: Seq<u8>, pid: u32, pending: Map<u32, MessageMode>)
    requires
        data.len() >= 36,
        Header::of_bytes(data).pid == 0 || Header::of_bytes(data).pid == pid,
        sequence_known(pending, Header::of_bytes(data).sequence),
        record_kind(Header::of_bytes(data).identifier) == RecordKind::Error,
        ErrorMessage::code_of(data.skip(16)) != 0,
    ensures
        demux(data, pid, pending, false) == (
            pending.remove(Header::of_bytes(data).sequence),
            Seq::<(Header, Seq<u8>)>::empty(),
            Err::<bool, Error>(Error::Io(errno_of(ErrorMessage::code_of(data.skip(16))))),
        ),
        errno_of(-1i32) == 1,
{
    reveal(record);
}

/// The bytes of a data record: the header, the payload, and zeros up to
/// the next multiple of four.
pub open spec fn data_record(message: (Header, Seq<u8>)) -> Seq<u8> {
    message.0.to_bytes() + message.1 + Seq::new(
        (aligned(message.1.len(), 4) - message.1.len()) as nat,
        |i: int| 0u8,
    )
}

/// The bytes of data records that stand one behind the other.
pub open spec fn data_records(messages: Seq<(Header, Seq<u8>)>) -> Seq<u8>
    decreases messages.len(),
{
    if messages.len() == 0 {
        Seq::empty()
    } else {
        data_record(messages[0]) + data_records(messages.drop_first())
    }
}

/// Whether a message is a data message in answer to the request
/// `sequence` of the socket `pid`, with a header that states its length.
pub open spec fn answers(message: (Header, Seq<u8>), pid: u32, sequence: u32) -> bool {
    &&& message.0.length == 16 + message.1.len()
    &&& (message.0.pid == 0 || message.0.pid == pid)
    &&& message.0.sequence == sequence
    &&& record_kind(message.0.identifier) == RecordKind::Data
}

/// A data record that answers a pending or unsolicited sequence number
/// yields its message and takes up its header, payload and padding.
pub proof fn lemma_data_record(
    message: (Header, Seq<u8>),
    tail: Seq<u8>,
    pid: u32,
    sequence: u32,
    pending: Map<u32, MessageMode>,
    more: bool,
)
    requires
        answers(message, pid, sequence),
        sequence_known(pending, sequence),
    ensures
        record(data_record(message) + tail, pid, pending, more) == (
            pending,
            seq![message],
            Ok::<(nat, bool), Error>(
                (
                    16 + aligned(message.1.len(), 4),
                    message.0.flags & MULTIPART != 0 || more_expected(pending, sequence),
                ),
            ),
        ),
        (data_record(message) + tail).skip(16 + aligned(message.1.len(), 4) as int) == tail,
        data_record(message).len() == 16 + aligned(message.1.len(), 4),
{
    reveal(record);
    let padding = Seq::new((aligned(message.1.len(), 4) - message.1.len()) as nat, |i: int| 0u8);
    let body = message.1 + padding + tail;
    let data = data_record(message) + tail;
    assert(data =~= message.0.to_bytes() + body);
    lemma_unpack_packed_header(message.0, body);
    assert(data.skip(16) =~= body);
    assert(body.subrange(0, message.1.len() as int) =~= message.1);
    assert(data.skip(16 + aligned(message.1.len(), 4) as int) =~= tail);
}

/// A done record without payload retires its request, asks for no further
/// datagram and takes up its header.
pub proof fn lemma_done_record(
    done: Header,
    tail: Seq<u8>,
    pid: u32,
    pending: Map<u32, MessageMode>,
    more: bool,
)
    requires
        done.identifier == NLMSG_DONE,
        done.length == 16,
        done.pid == 0 || done.pid == pid,
        sequence_known(pending, done.sequence),
    ensures
        record(done.to_bytes() + tail, pid, pending, more) == (
            pending.remove(done.sequence),
            Seq::<(Header, Seq<u8>)>::empty(),
            Ok::<(nat, bool), Error>((16, false)),
        ),
{
    reveal(record);
    lemma_unpack_packed_header(done, tail);
    assert((done.to_bytes() + tail).skip(16) =~= tail);
}

/// A dump: the data records that answer a pending request, closed by a
/// done record, yield exactly their messages, retire the request and ask for
/// no further datagram.
pub proof fn lemma_dump_completes(
    messages: Seq<(Header, Seq<u8>)>,
    done: Header,
    pid: u32,
    sequence: u32,
    pending: Map<u32, MessageMode>,
    more: bool,
)
    requires
        sequence != 0,
        pending.contains_key(sequence),
        forall|i: int| 0 <= i < messages.len() ==> answers(#[trigger] messages[i], pid, sequence),
        done.identifier == NLMSG_DONE,
        done.length == 16,
        done.pid == 0 || done.pid == pid,
        done.sequence == sequence,
    ensures
        demux(data_records(messages) + done.to_bytes(), pid, pending, more) == (
            pending.remove(sequence),
            messages,
            Ok::<bool, Error>(false),
        ),
    decreases messages.len(),
{
    let data = data_records(messages) + done.to_bytes();
    let nothing = Seq::<(Header, Seq<u8>)>::empty();
    if messages.len() == 0 {
        let retired = pending.remove(sequence);
        assert(data == done.to_bytes() + Seq::<u8>::empty()) by {
            assert(data =~= done.to_bytes() + Seq::<u8>::empty());
        }
        lemma_done_record(done, Seq::empty(), pid, pending, more);
        lemma_unpack_packed_header(done, Seq::empty());
        assert(data.len() == 16);
        assert(data.skip(16).len() == 0);
        assert(demux(data.skip(16), pid, retired, false) == (retired, nothing, Ok::<bool, Error>(false)));
        assert(nothing + nothing =~= nothing);
        assert(messages =~= nothing);
    } else {
        let first = messages[0];
        let others = messages.drop_first();
        let tail = data_records(others) + done.to_bytes();
        assert(data == data_record(first) + tail) by {
            assert(data =~= data_record(first) + tail);
        }
        lemma_data_record(first, tail, pid, sequence, pending, more);
        let more_now = first.0.flags & MULTIPART != 0 || more_expected(pending, sequence);
        let used = 16 + aligned(first.1.len(), 4);
        assert forall|i: int| 0 <= i < others.len() implies answers(
            #[trigger] others[i],
            pid,
            sequence,
        ) by {
            assert(others[i] == messages[i + 1]);
        }
        lemma_dump_completes(others, done, pid, sequence, pending, more_now);
        assert(0 < used <= data.len());
        assert(data.skip(used as int) == tail);
        assert(seq![first] + others =~= messages);
    }
}

} // verus!
