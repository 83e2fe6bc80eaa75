//! The host link: message types, errors and their texts, and the protocol
//! engine that frames, acknowledges and chunks what travels on the serial
//! line.
use vstd::prelude::*;
use vstd::string::StringSliceAdditionalSpecFns;
use crate::buffer::{
    buffer_as_mut_slice, buffer_as_slice, buffer_bytes, buffer_clear, buffer_extend_from_slice,
    buffer_new, buffer_push,
};
use crate::bytes::{
    push_u16_le, push_u32_le, push_u64_le, read_u32_le, read_u64_le, u16_from_le, u16_to_le,
    u32_from_le, u32_to_le, u64_from_le, u64_to_le,
};
use crate::crypto::{decrypt_decoder_encrypted_packet, packet_open, DECODER_KEY};
use crate::decoder::{decode_outcome, Decoder, Subscription, Table, MAX_FRAME_BYTES};

verus! {

/// The byte that opens every header on the wire.
pub const MAGIC_BYTE: u8 = 0x25;

/// Command byte of a list request and of its response: `L`.
pub const CMD_LIST: u8 = 0x4C;

/// Command byte of a subscription update and of its response: `S`.
pub const CMD_SUBSCRIBE: u8 = 0x53;

/// Command byte of a frame to decode and of the decoded frame: `D`.
pub const CMD_DECODE: u8 = 0x44;

/// Command byte of an acknowledgment: `A`.
pub const CMD_ACK: u8 = 0x41;

/// Command byte of an error response: `E`.
pub const CMD_ERROR: u8 = 0x45;

/// Command byte of a debug message: `G`.
pub const CMD_DEBUG: u8 = 0x47;

/// The types of message that the decoder receives.
#[derive(Debug, Clone, Copy, PartialEq, Eq, Structural)]
pub enum DecoderMessageType {
    List,
    Subscribe,
    Decode,
}

/// Why a request failed.
#[derive(Debug, Clone, Copy, PartialEq, Eq, Structural)]
pub enum DecoderError {
    /// The decoder expected an ACK and got something else.
    ExpectedAckButGotOther,
    /// The subscription cannot be stored: the table is full, or the
    /// subscription is one that no table may hold.
    NoMoreSubscriptionSpace,
    /// The frame claims to be more than 64 bytes long.
    FrameTooLarge,
    /// There is no subscription for the channel of the frame.
    NoSubscription,
    /// The timestamp of the frame lies outside the subscription's window.
    SubscriptionTimeMismatch,
    /// The subscription table could not be serialized.
    SerializationFailed,
    /// The subscription table could not be saved to flash.
    SavingFailed,
    /// The payload did not decrypt, or its signature did not verify.
    FailedDecryption,
    /// The frame is older than one already decoded.
    FrameOutOfOrder,
    /// A packet of fixed size was announced with another size.
    PacketWrongSize,
    /// The command byte is none of `L`, `S` and `D`.
    InvalidCommand,
}

impl DecoderError {
    /// The fixed text that stands for the error on the wire.
    pub open spec fn text(self) -> Seq<char> {
        match self {
            DecoderError::ExpectedAckButGotOther => "Expected ACK but got unexpected byte"@,
            DecoderError::NoMoreSubscriptionSpace => "Attempted to add a subscription, but subscription space is full"@,
            DecoderError::FrameTooLarge => "Was asked to decode a frame which is larger than 64 bytes"@,
            DecoderError::NoSubscription => "Was asked to decode a frame for channel that we have no subscription for"@,
            DecoderError::SubscriptionTimeMismatch => "Was asked to decode a frame with timestamp thats invalid for our subscription."@,
            DecoderError::SerializationFailed => "Failed to serialize subscription updates for flash"@,
            DecoderError::SavingFailed => "Failed to save subscriptions to flash"@,
            DecoderError::FailedDecryption => "Failed to decrypt a encrypted payload. This can mean that you used a subscription for a different decoder, or that your message was corrupted or tampered with."@,
            DecoderError::FrameOutOfOrder => "Was asked to decode a frame with timestamp in the past"@,
            DecoderError::PacketWrongSize => "Received a packet which has a constant expected size with an invalid size for the packet type"@,
            DecoderError::InvalidCommand => "Received a command with a type byte that is not L, S, or D"@,
        }
    }

    /// The message that is sent to the host when this error occurs.
    pub fn message(&self) -> (message: &'static str)
        ensures
            message@ == self.text(),
    {
        match self {
            DecoderError::ExpectedAckButGotOther => "Expected ACK but got unexpected byte",
            DecoderError::NoMoreSubscriptionSpace => "Attempted to add a subscription, but subscription space is full",
            DecoderError::FrameTooLarge => "Was asked to decode a frame which is larger than 64 bytes",
            DecoderError::NoSubscription => "Was asked to decode a frame for channel that we have no subscription for",
            DecoderError::SubscriptionTimeMismatch => "Was asked to decode a frame with timestamp thats invalid for our subscription.",
            DecoderError::SerializationFailed => "Failed to serialize subscription updates for flash",
            DecoderError::SavingFailed => "Failed to save subscriptions to flash",
            DecoderError::FailedDecryption => "Failed to decrypt a encrypted payload. This can mean that you used a subscription for a different decoder, or that your message was corrupted or tampered with.",
            DecoderError::FrameOutOfOrder => "Was asked to decode a frame with timestamp in the past",
            DecoderError::PacketWrongSize => "Received a packet which has a constant expected size with an invalid size for the packet type",
            DecoderError::InvalidCommand => "Received a command with a type byte that is not L, S, or D",
        }
    }
}

impl DecoderError {
    /// Writes this error to the console: begins the `E` message whose
    /// payload is the text of the error.
    pub fn write_to_console(&self, console: &mut DecoderConsole)
        ensures
            final(console)@ == transfer_started(
                old(console)@,
                CMD_ERROR,
                message_payload(vstd::utf8::encode_utf8(self.text())),
                false,
                true,
            ),
            old(console)@.reader.wf() ==> final(console)@.wf(),
    {
        console.print_error(self.message());
    }
}

/// The header of a request: its type and the length of its body.
#[derive(Debug, Clone, Copy, PartialEq, Eq, Structural)]
pub struct DecoderPacketHeader {
    pub msg_type: DecoderMessageType,
    pub size: u16,
}


/// Bytes of payload between two acknowledgments.
pub const CHUNK_BYTES: usize = 256;

/// Number of chunks that a payload of `len` bytes travels in: each chunk
/// holds 256 bytes, but for the last, which may hold fewer.
pub open spec fn chunk_count(len: nat) -> nat {
    (len + 255) / 256
}

/// Number of acknowledgments that a payload of `len` bytes takes: one for
/// each chunk, and one more at the end of the payload.
pub open spec fn ack_count(len: nat) -> nat {
    chunk_count(len) + 1
}

/// The four bytes of a header: the magic, the command byte and the length
/// of the payload, little-endian.
pub open spec fn header_bytes(command: u8, size: u16) -> Seq<u8> {
    seq![MAGIC_BYTE, command] + u16_to_le(size)
}

/// The four bytes of an acknowledgment.
pub open spec fn ack_frame() -> Seq<u8> {
    header_bytes(CMD_ACK, 0)
}

/// That many acknowledgments, one behind the other.
pub open spec fn ack_frames(count: nat) -> Seq<u8>
    decreases count,
{
    if count == 0 {
        Seq::<u8>::empty()
    } else {
        ack_frames((count - 1) as nat) + ack_frame()
    }
}

/// Queues a header for transmission.
fn push_header(tx: &mut Vec<u8>, command: u8, size: u16)
    ensures
        final(tx)@ == old(tx)@ + header_bytes(command, size),
{
    tx.push(MAGIC_BYTE);
    tx.push(command);
    push_u16_le(tx, size);
    assert(tx@ =~= old(tx)@ + header_bytes(command, size));
}

/// Queues an acknowledgment for transmission.
fn push_ack(tx: &mut Vec<u8>)
    ensures
        final(tx)@ == old(tx)@ + ack_frame(),
{
    push_header(tx, CMD_ACK, 0);
}

/// The receiving side of a payload transfer.  It counts the bytes of the
/// payload as they come and sends the acknowledgments that the sender
/// waits for: one after every chunk, and one more at the end.
#[derive(Debug, Clone, Copy, PartialEq, Eq)]
pub struct DecoderPayloadReader {
    /// Length of the payload in bytes.
    pub expected: usize,
    /// Bytes of the payload received so far.
    pub bytes_read: usize,
    /// Acknowledgments sent so far.
    pub acks_sent: usize,
    /// Whether the transfer is over.
    pub finished: bool,
}

impl DecoderPayloadReader {
    /// Length of the payload in bytes.
    pub open spec fn expected(&self) -> nat {
        self.expected as nat
    }

    /// Bytes of the payload received so far.
    pub open spec fn bytes_read(&self) -> nat {
        self.bytes_read as nat
    }

    /// Acknowledgments sent so far.
    pub open spec fn acks_sent(&self) -> nat {
        self.acks_sent as nat
    }

    /// Whether the transfer is over: all bytes received, all
    /// acknowledgments sent.
    pub open spec fn finished(&self) -> bool {
        self.finished
    }

    /// What holds of every reader.  While the payload comes in, one
    /// acknowledgment has been sent for every 256 bytes received; once the
    /// transfer is over, as many as the payload takes.
    pub open spec fn wf(&self) -> bool {
        &&& self.bytes_read() <= self.expected()
        &&& self.finished() ==> self.bytes_read() == self.expected()
        &&& self.acks_sent() == if self.finished() {
            ack_count(self.expected())
        } else {
            self.bytes_read() / 256
        }
    }

    /// A reader for a payload of `expected` bytes, with nothing received.
    pub fn new(expected: usize) -> (reader: DecoderPayloadReader)
        ensures
            reader.wf(),
            reader.expected() == expected,
            reader.bytes_read() == 0,
            reader.acks_sent() == 0,
            !reader.finished(),
    {
        DecoderPayloadReader { expected, bytes_read: 0, acks_sent: 0, finished: false }
    }

    /// Whether all bytes of the payload have been received.
    pub fn is_complete(&self) -> (complete: bool)
        ensures
            complete == (self.bytes_read() == self.expected()),
    {
        self.bytes_read == self.expected
    }

    /// Whether the transfer is over.
    pub fn is_finished(&self) -> (finished: bool)
        ensures
            finished == self.finished(),
    {
        self.finished
    }

    /// Acknowledgments sent so far.
    pub fn acks(&self) -> (acks: usize)
        ensures
            acks == self.acks_sent(),
    {
        self.acks_sent
    }

    /// Takes one byte of the payload.  The byte goes to the end of `dest`
    /// if there is room for it.  Where the byte completes a chunk of 256,
    /// the acknowledgment of the chunk is queued in `tx`.  A byte beyond
    /// the end of the payload is not taken.
    pub fn read_byte(&mut self, byte: u8, dest: &mut heapless::Vec<u8, 1024>, tx: &mut Vec<u8>) -> (taken:
        bool)
        requires
            old(self).wf(),
        ensures
            final(self).wf(),
            final(self).expected() == old(self).expected(),
            final(self).finished() == old(self).finished(),
            taken == (old(self).bytes_read() < old(self).expected()),
            final(self).bytes_read() == old(self).bytes_read() + if taken { 1nat } else { 0nat },
            final(tx)@ == old(tx)@ + ack_frames((final(self).acks_sent() - old(self).acks_sent()) as nat),
            buffer_bytes(*final(dest)) == if taken && buffer_bytes(*old(dest)).len() < 1024 {
                buffer_bytes(*old(dest)).push(byte)
            } else {
                buffer_bytes(*old(dest))
            },
    {
        if self.bytes_read >= self.expected {
            assert(tx@ =~= tx@ + ack_frames(0));
            return false;
        }
        let _ = buffer_push(dest, byte);
        self.bytes_read = self.bytes_read + 1;
        if self.bytes_read % CHUNK_BYTES == 0 {
            push_ack(tx);
            self.acks_sent = self.acks_sent + 1;
            assert(ack_frames(1) =~= ack_frame()) by {
                assert(ack_frames(0) =~= Seq::<u8>::empty());
            }
        } else {
            assert(tx@ =~= tx@ + ack_frames(0));
        }
        true
    }

    /// Ends the transfer once all bytes have been received: queues the
    /// acknowledgment of a last chunk of fewer than 256 bytes, and the
    /// acknowledgment that ends the payload.  Before that, and a second
    /// time, it does nothing.
    pub fn finish_payload(&mut self, tx: &mut Vec<u8>) -> (ended: bool)
        requires
            old(self).wf(),
        ensures
            final(self).wf(),
            final(self).expected() == old(self).expected(),
            final(self).bytes_read() == old(self).bytes_read(),
            ended == (!old(self).finished() && old(self).bytes_read() == old(self).expected()),
            final(self).finished() == (old(self).finished() || ended),
            final(tx)@ == old(tx)@ + ack_frames((final(self).acks_sent() - old(self).acks_sent()) as nat),
            ended ==> final(self).acks_sent() == ack_count(old(self).expected()),
    {
        if self.finished || self.bytes_read != self.expected {
            assert(tx@ =~= tx@ + ack_frames(0));
            return false;
        }
        proof {
            assert(ack_frames(0) =~= Seq::<u8>::empty());
            assert(ack_frames(1) =~= ack_frame());
            assert(ack_frames(2) =~= ack_frame() + ack_frame());
        }
        if self.bytes_read % CHUNK_BYTES != 0 {
            push_ack(tx);
            self.acks_sent = self.acks_sent + 1;
        }
        push_ack(tx);
        self.acks_sent = self.acks_sent + 1;
        self.finished = true;
        assert(tx@ =~= old(tx)@ + ack_frames((self.acks_sent - old(self).acks_sent) as nat));
        true
    }
}

/// The sending side of a payload transfer.  It writes the payload chunk by
/// chunk and counts the acknowledgments of the receiver: a chunk goes out
/// only when the one before it has been acknowledged, and the transfer is
/// over when the payload has been acknowledged as a whole.
#[derive(Debug, Clone, Copy, PartialEq, Eq)]
pub struct DecoderPayloadWriter {
    /// Length of the payload in bytes.
    pub total: usize,
    /// Bytes of the payload written so far.
    pub bytes_written: usize,
    /// Acknowledgments received so far.
    pub acks_read: usize,
}

impl DecoderPayloadWriter {
    /// Length of the payload in bytes.
    pub open spec fn total(&self) -> nat {
        self.total as nat
    }

    /// Bytes of the payload written so far.
    pub open spec fn bytes_written(&self) -> nat {
        self.bytes_written as nat
    }

    /// Acknowledgments received so far.
    pub open spec fn acks_read(&self) -> nat {
        self.acks_read as nat
    }

    /// Whether the transfer is over: all acknowledgments that the payload
    /// takes have been received.
    pub open spec fn finished(&self) -> bool {
        self.acks_read() == ack_count(self.total())
    }

    /// Whether every chunk written so far has been acknowledged.
    pub open spec fn acknowledged(&self) -> bool {
        self.acks_read() >= chunk_count(self.bytes_written())
    }

    /// What holds of every writer: only whole chunks are written before the
    /// last, at most one chunk awaits its acknowledgment, and nothing is
    /// acknowledged beyond what the payload takes.
    pub open spec fn wf(&self) -> bool {
        &&& self.bytes_written() <= self.total()
        &&& self.bytes_written() % 256 == 0 || self.bytes_written() == self.total()
        &&& self.acks_read() + 1 >= chunk_count(self.bytes_written())
        &&& self.acks_read() <= ack_count(self.total())
        &&& self.acks_read() > chunk_count(self.bytes_written()) ==> self.finished()
        &&& self.finished() ==> self.bytes_written() == self.total()
    }

    /// A writer for a payload of `total` bytes, with nothing written.
    pub fn new(total: usize) -> (writer: DecoderPayloadWriter)
        ensures
            writer.wf(),
            writer.total() == total,
            writer.bytes_written() == 0,
            writer.acks_read() == 0,
    {
        DecoderPayloadWriter { total, bytes_written: 0, acks_read: 0 }
    }

    /// Whether the transfer is over.
    pub fn is_finished(&self) -> (finished: bool)
        requires
            self.wf(),
        ensures
            finished == self.finished(),
    {
        let chunks = self.total / CHUNK_BYTES + if self.total % CHUNK_BYTES != 0 { 1usize } else { 0usize };
        self.bytes_written == self.total && self.acks_read == chunks + 1
    }

    /// Acknowledgments received so far.
    pub fn acks(&self) -> (acks: usize)
        ensures
            acks == self.acks_read(),
    {
        self.acks_read
    }

    /// Queues the next chunk of the payload in `tx`, if the chunk before it
    /// has been acknowledged and there is one left.  Returns the number of
    /// bytes queued.
    pub fn write_bytes(&mut self, payload: &[u8], tx: &mut Vec<u8>) -> (queued: usize)
        requires
            old(self).wf(),
            payload@.len() == old(self).total(),
        ensures
            final(self).wf(),
            final(self).total() == old(self).total(),
            final(self).acks_read() == old(self).acks_read(),
            queued == if old(self).acknowledged() {
                vstd::math::min(256, old(self).total() - old(self).bytes_written())
            } else {
                0
            },
            final(self).bytes_written() == old(self).bytes_written() + queued,
            final(tx)@ == old(tx)@ + payload@.subrange(
                old(self).bytes_written() as int,
                final(self).bytes_written() as int,
            ),
    {
        let chunks_written = self.bytes_written / CHUNK_BYTES + if self.bytes_written % CHUNK_BYTES
            != 0 { 1usize } else { 0usize };
        if self.acks_read < chunks_written || self.bytes_written == self.total {
            assert(tx@ =~= tx@ + payload@.subrange(
                self.bytes_written as int,
                self.bytes_written as int,
            ));
            return 0;
        }
        let left = self.total - self.bytes_written;
        let count = if left < CHUNK_BYTES { left } else { CHUNK_BYTES };
        let start = self.bytes_written;
        let len = payload.len();
        let mut i: usize = 0;
        while i < count
            invariant
                i <= count,
                len == payload@.len(),
                start + count <= len,
                tx@ == old(tx)@ + payload@.subrange(start as int, start + i),
            decreases count - i,
        {
            tx.push(payload[start + i]);
            assert(tx@ =~= old(tx)@ + payload@.subrange(start as int, start + i + 1));
            i += 1;
        }
        self.bytes_written = start + count;
        count
    }

    /// Counts one acknowledgment of the receiver.  An acknowledgment beyond
    /// those that the payload takes is not counted.
    pub fn read_ack(&mut self) -> (counted: bool)
        requires
            old(self).wf(),
        ensures
            final(self).wf(),
            final(self).total() == old(self).total(),
            final(self).bytes_written() == old(self).bytes_written(),
            counted == (!old(self).finished() && (old(self).acks_read() < chunk_count(
                old(self).bytes_written(),
            ) || old(self).bytes_written() == old(self).total())),
            final(self).acks_read() == old(self).acks_read() + if counted { 1nat } else { 0nat },
    {
        let chunks_written = self.bytes_written / CHUNK_BYTES + if self.bytes_written % CHUNK_BYTES
            != 0 { 1usize } else { 0usize };
        if self.acks_read < chunks_written {
            self.acks_read = self.acks_read + 1;
            true
        } else if self.bytes_written == self.total && self.acks_read == chunks_written {
            self.acks_read = self.acks_read + 1;
            true
        } else {
            false
        }
    }
}


/// The message type that a command byte stands for.
pub open spec fn message_type(command: u8) -> Option<DecoderMessageType> {
    if command == CMD_DECODE {
        Some(DecoderMessageType::Decode)
    } else if command == CMD_SUBSCRIBE {
        Some(DecoderMessageType::Subscribe)
    } else if command == CMD_LIST {
        Some(DecoderMessageType::List)
    } else {
        None
    }
}

/// What the link waits for.
#[derive(Debug, Clone, Copy, PartialEq, Eq, Structural)]
pub enum LinkState {
    /// The magic byte that opens the header of a request.  Any other byte
    /// is a stray byte and is dropped.
    AwaitMagic,
    /// The command byte of the header.
    AwaitCommand,
    /// The low byte of the length in the header.
    AwaitSizeLow(DecoderMessageType),
    /// The high byte of the length in the header.
    AwaitSizeHigh(DecoderMessageType, u8),
    /// The next byte of the body of a request.
    ReadingBody,
    /// The magic byte that opens an acknowledgment of the host.
    AwaitAckMagic,
    /// The command byte of an acknowledgment of the host.
    AwaitAckCommand,
    /// Nothing: a request has failed, and its error waits to be reported.
    Faulted(DecoderError),
}

/// What a received byte has brought about.
#[derive(Debug, Clone, Copy, PartialEq, Eq, Structural)]
pub enum LinkEvent {
    /// Nothing yet: more bytes are needed.
    Pending,
    /// The header of a request is complete and has been acknowledged.
    Header(DecoderPacketHeader),
    /// A header came with a command byte that is no request.
    BadCommand(u8),
    /// The body of the request is complete and has been acknowledged.
    Body,
    /// The host has acknowledged all of the message that was being sent.
    Sent,
    /// Something else came where an acknowledgment was due.
    AckFailed,
    /// The byte was not taken: an error waits to be reported.
    Refused,
}

/// How a byte moves the link along in reading the header of a request,
/// and the header or the rejected command byte once there is one.
pub open spec fn header_step(state: LinkState, byte: u8) -> (
    LinkState,
    Option<Result<DecoderPacketHeader, u8>>,
) {
    match state {
        LinkState::AwaitCommand => match message_type(byte) {
            Some(msg_type) => (LinkState::AwaitSizeLow(msg_type), None),
            None => (LinkState::AwaitMagic, Some(Err(byte))),
        },
        LinkState::AwaitSizeLow(msg_type) => (LinkState::AwaitSizeHigh(msg_type, byte), None),
        LinkState::AwaitSizeHigh(msg_type, low) => (
            LinkState::AwaitMagic,
            Some(Ok(DecoderPacketHeader { msg_type, size: u16_from_le(seq![low, byte]) })),
        ),
        _ => if byte == MAGIC_BYTE {
            (LinkState::AwaitCommand, None)
        } else {
            (LinkState::AwaitMagic, None)
        },
    }
}

/// How a byte moves the link along in reading an acknowledgment, and
/// whether it was one, once that is known.
pub open spec fn ack_step(state: LinkState, byte: u8) -> (LinkState, Option<Result<(), DecoderError>>) {
    match state {
        LinkState::AwaitAckCommand => if byte == CMD_ACK {
            (LinkState::AwaitAckMagic, Some(Ok(())))
        } else {
            (LinkState::AwaitAckMagic, Some(Err(DecoderError::ExpectedAckButGotOther)))
        },
        _ => if byte == MAGIC_BYTE {
            (LinkState::AwaitAckCommand, None)
        } else {
            (LinkState::AwaitAckMagic, None)
        },
    }
}

/// The state of the host link, as contracts speak of it.
pub struct ConsoleView {
    /// What the link waits for.
    pub state: LinkState,
    /// The bytes queued for transmission, oldest first.
    pub output: Seq<u8>,
    /// The header of the request whose body is being read or was read last.
    pub request: DecoderPacketHeader,
    /// The bytes of that body received so far.
    pub body: Seq<u8>,
    /// The reader of that body.
    pub reader: DecoderPayloadReader,
    /// The payload of the message that is being sent or was sent last.
    pub payload: Seq<u8>,
    /// The writer of that payload.
    pub writer: DecoderPayloadWriter,
    /// Whether that message is a header alone, with no payload transfer
    /// behind it.
    pub bare: bool,
    /// Whether the host has acknowledged the header of that message.
    pub header_acked: bool,
    /// Whether that message reports an error.
    pub reporting: bool,
}

impl ConsoleView {
    /// Whether the link waits for an acknowledgment of the host.
    pub open spec fn sending(self) -> bool {
        self.state == LinkState::AwaitAckMagic || self.state == LinkState::AwaitAckCommand
    }

    /// Whether the link waits for a request.
    pub open spec fn idle(self) -> bool {
        !self.sending() && self.state != LinkState::ReadingBody && !(self.state is Faulted)
    }

    /// What holds of every console: reader and writer are well formed; a
    /// body is read only while bytes of it are missing; and while a payload
    /// is being sent, either a chunk awaits its acknowledgment or the
    /// payload as a whole does.
    pub open spec fn wf(self) -> bool {
        &&& self.reader.wf()
        &&& self.writer.wf()
        &&& self.writer.total() == self.payload.len()
        &&& self.state == LinkState::ReadingBody ==> !self.reader.finished() && self.reader.bytes_read()
            < self.reader.expected()
        &&& self.sending() && self.header_acked ==> {
            &&& !self.bare
            &&& !self.writer.finished()
            &&& (self.writer.acks_read() < chunk_count(self.writer.bytes_written())
                || self.writer.bytes_written() == self.writer.total())
        }
        &&& self.sending() && !self.header_acked ==> self.writer.bytes_written() == 0
            && self.writer.acks_read() == 0
    }
}

/// The host link of the decoder.  Bytes that arrive are handed to it one
/// by one; what it has to say in return it queues for transmission.
pub struct DecoderConsole {
    state: LinkState,
    tx: Vec<u8>,
    request: DecoderPacketHeader,
    body: heapless::Vec<u8, 1024>,
    reader: DecoderPayloadReader,
    payload: Vec<u8>,
    writer: DecoderPayloadWriter,
    bare: bool,
    header_acked: bool,
    reporting: bool,
}

impl View for DecoderConsole {
    type V = ConsoleView;

    closed spec fn view(&self) -> ConsoleView {
        ConsoleView {
            state: self.state,
            output: self.tx@,
            request: self.request,
            body: buffer_bytes(self.body),
            reader: self.reader,
            payload: self.payload@,
            writer: self.writer,
            bare: self.bare,
            header_acked: self.header_acked,
            reporting: self.reporting,
        }
    }
}

impl DecoderConsole {
    /// A console that waits for its first request, with nothing to send.
    pub fn new() -> (console: DecoderConsole)
        ensures
            console@.wf(),
            console@.state == LinkState::AwaitMagic,
            console@.output == Seq::<u8>::empty(),
            console@.body == Seq::<u8>::empty(),
            console@.payload == Seq::<u8>::empty(),
    {
        DecoderConsole {
            state: LinkState::AwaitMagic,
            tx: Vec::new(),
            request: DecoderPacketHeader { msg_type: DecoderMessageType::List, size: 0 },
            body: buffer_new(),
            reader: DecoderPayloadReader::new(0),
            payload: Vec::new(),
            writer: DecoderPayloadWriter::new(0),
            bare: true,
            header_acked: false,
            reporting: false,
        }
    }

    /// What the link waits for.
    pub fn state(&self) -> (state: LinkState)
        ensures
            state == self@.state,
    {
        self.state
    }

    /// The header of the request whose body is being read or was read last.
    pub fn request(&self) -> (request: DecoderPacketHeader)
        ensures
            request == self@.request,
    {
        self.request
    }

    /// Whether the message that is being sent reports an error.
    pub fn is_reporting(&self) -> (reporting: bool)
        ensures
            reporting == self@.reporting,
    {
        self.reporting
    }

    /// Hands over the bytes queued for transmission, oldest first, and
    /// empties the queue.
    pub fn take_output(&mut self) -> (bytes: Vec<u8>)
        ensures
            bytes@ == old(self)@.output,
            final(self)@ == (ConsoleView { output: Seq::<u8>::empty(), ..old(self)@ }),
    {
        let mut bytes: Vec<u8> = Vec::new();
        std::mem::swap(&mut bytes, &mut self.tx);
        bytes
    }

    /// Takes one byte of the header of a request.  Bytes before the magic
    /// are dropped.  With the command byte it is known whether the header
    /// is that of a request: if not, the command byte is the error, and the
    /// length is not read.  With the second byte of the length the header
    /// is complete, and its acknowledgment is queued.
    pub fn read_command_header(&mut self, byte: u8) -> (header: Option<Result<DecoderPacketHeader, u8>>)
        ensures
            header == header_step(old(self)@.state, byte).1,
            final(self)@ == (ConsoleView {
                state: header_step(old(self)@.state, byte).0,
                output: if header matches Some(Ok(_)) {
                    old(self)@.output + ack_frame()
                } else {
                    old(self)@.output
                },
                ..old(self)@
            }),
    {
        match self.state {
            LinkState::AwaitCommand => {
                let msg_type = if byte == CMD_DECODE {
                    DecoderMessageType::Decode
                } else if byte == CMD_SUBSCRIBE {
                    DecoderMessageType::Subscribe
                } else if byte == CMD_LIST {
                    DecoderMessageType::List
                } else {
                    self.state = LinkState::AwaitMagic;
                    return Some(Err(byte));
                };
                self.state = LinkState::AwaitSizeLow(msg_type);
                None
            },
            LinkState::AwaitSizeLow(msg_type) => {
                self.state = LinkState::AwaitSizeHigh(msg_type, byte);
                None
            },
            LinkState::AwaitSizeHigh(msg_type, low) => {
                let size = low as u16 + (byte as u16) * 0x100;
                self.state = LinkState::AwaitMagic;
                self.write_ack();
                Some(Ok(DecoderPacketHeader { msg_type, size }))
            },
            _ => {
                if byte == MAGIC_BYTE {
                    self.state = LinkState::AwaitCommand;
                } else {
                    self.state = LinkState::AwaitMagic;
                }
                None
            },
        }
    }

    /// Takes one byte of an acknowledgment of the host.  Bytes before the
    /// magic are dropped.  The byte behind the magic decides: `A` is the
    /// acknowledgment, anything else is an error.
    pub fn read_ack(&mut self, byte: u8) -> (ack: Option<Result<(), DecoderError>>)
        ensures
            ack == ack_step(old(self)@.state, byte).1,
            final(self)@ == (ConsoleView { state: ack_step(old(self)@.state, byte).0, ..old(self)@ }),
    {
        match self.state {
            LinkState::AwaitAckCommand => {
                self.state = LinkState::AwaitAckMagic;
                if byte == CMD_ACK {
                    Some(Ok(()))
                } else {
                    Some(Err(DecoderError::ExpectedAckButGotOther))
                }
            },
            _ => {
                if byte == MAGIC_BYTE {
                    self.state = LinkState::AwaitAckCommand;
                } else {
                    self.state = LinkState::AwaitAckMagic;
                }
                None
            },
        }
    }

    /// Queues an acknowledgment.
    pub fn write_ack(&mut self)
        ensures
            final(self)@ == (ConsoleView { output: old(self)@.output + ack_frame(), ..old(self)@ }),
    {
        push_ack(&mut self.tx);
    }

    /// Sends a debug message: its header and its bytes, with no
    /// acknowledgment asked for.  The message is cut at 65535 bytes.
    pub fn print_debug(&mut self, message: &str)
        ensures
            final(self)@ == (ConsoleView {
                output: old(self)@.output + header_bytes(
                    CMD_DEBUG,
                    message_payload(message.spec_bytes()).len() as u16,
                ) + message_payload(message.spec_bytes()),
                ..old(self)@
            }),
    {
        let bytes = message.as_bytes();
        let len = if bytes.len() > 0xFFFF { 0xFFFFusize } else { bytes.len() };
        push_header(&mut self.tx, CMD_DEBUG, len as u16);
        let ghost queued = self.tx@;
        let mut i: usize = 0;
        while i < len
            invariant
                i <= len,
                len <= bytes@.len(),
                self.tx@ == queued + bytes@.subrange(0, i as int),
                self.state == old(self).state,
                self.request == old(self).request,
                self.body == old(self).body,
                self.reader == old(self).reader,
                self.payload == old(self).payload,
                self.writer == old(self).writer,
                self.bare == old(self).bare,
                self.header_acked == old(self).header_acked,
                self.reporting == old(self).reporting,
            decreases len - i,
        {
            self.tx.push(bytes[i]);
            assert(self.tx@ =~= queued + bytes@.subrange(0, i + 1));
            i += 1;
        }
        assert(bytes@.subrange(0, len as int) =~= message_payload(message.spec_bytes()));
    }

    /// Begins to send a message: queues its header and waits for the host
    /// to acknowledge it.  The payload follows chunk by chunk as the
    /// acknowledgments come in.
    fn start_transfer(&mut self, command: u8, payload: Vec<u8>, bare: bool, reporting: bool)
        requires
            payload@.len() <= 0xFFFF,
            bare ==> payload@.len() == 0,
        ensures
            final(self)@ == transfer_started(old(self)@, command, payload@, bare, reporting),
            old(self)@.reader.wf() ==> final(self)@.wf(),
    {
        let len = payload.len();
        push_header(&mut self.tx, command, len as u16);
        self.payload = payload;
        self.writer = DecoderPayloadWriter::new(len);
        self.bare = bare;
        self.header_acked = false;
        self.reporting = reporting;
        self.state = LinkState::AwaitAckMagic;
    }

    /// Sends an error message to the host: begins to send an `E` message
    /// whose payload is the text.  The text is cut at 65535 bytes.
    pub fn print_error(&mut self, message: &str)
        ensures
            final(self)@ == transfer_started(
                old(self)@,
                CMD_ERROR,
                message_payload(message.spec_bytes()),
                false,
                true,
            ),
            old(self)@.reader.wf() ==> final(self)@.wf(),
    {
        let bytes = message.as_bytes();
        let len = if bytes.len() > 0xFFFF { 0xFFFFusize } else { bytes.len() };
        let payload = vstd::slice::slice_to_vec(vstd::slice::slice_subrange(bytes, 0, len));
        assert(payload@ =~= message_payload(message.spec_bytes()));
        self.start_transfer(CMD_ERROR, payload, false, true);
    }

    /// Begins to send a message that is a header alone: the host
    /// acknowledges the header, and that is all.
    pub fn send_empty_payload(&mut self, msg_type: u8)
        ensures
            final(self)@ == transfer_started(old(self)@, msg_type, Seq::<u8>::empty(), true, false),
            old(self)@.reader.wf() ==> final(self)@.wf(),
    {
        self.start_transfer(msg_type, Vec::new(), true, false);
    }

    /// Begins to send the list of subscriptions: the number of taken slots,
    /// and for each of them the channel and the window, without the key.
    pub fn send_list(&mut self, subscriptions: &[Option<Subscription>])
        requires
            subscriptions@.len() <= MAX_LISTED,
        ensures
            final(self)@ == transfer_started(
                old(self)@,
                CMD_LIST,
                list_payload(subscriptions@),
                false,
                false,
            ),
            old(self)@.reader.wf() ==> final(self)@.wf(),
    {
        let len = subscriptions.len();
        let mut count: u32 = 0;
        let mut entries: Vec<u8> = Vec::new();
        let mut i: usize = 0;
        while i < len
            invariant
                i <= len,
                len == subscriptions@.len(),
                len <= MAX_LISTED,
                count == occupied(subscriptions@.take(i as int)),
                count <= i,
                entries@ == list_entries(subscriptions@.take(i as int)),
                entries@.len() == 20 * count,
            decreases len - i,
        {
            proof {
                assert(subscriptions@.take(i + 1).drop_last() =~= subscriptions@.take(i as int));
            }
            match &subscriptions[i] {
                Some(sub) => {
                    push_u32_le(&mut entries, sub.channel_id);
                    push_u64_le(&mut entries, sub.start_time);
                    push_u64_le(&mut entries, sub.end_time);
                    count = count + 1;
                    assert(entries@ =~= list_entries(subscriptions@.take(i + 1)));
                },
                None => {
                    assert(entries@ =~= list_entries(subscriptions@.take(i + 1)));
                },
            }
            i += 1;
        }
        assert(subscriptions@.take(len as int) =~= subscriptions@);
        let mut payload: Vec<u8> = Vec::new();
        push_u32_le(&mut payload, count);
        let mut k: usize = 0;
        let total = entries.len();
        while k < total
            invariant
                k <= total,
                total == entries@.len(),
                payload@ == u32_to_le(count) + entries@.subrange(0, k as int),
            decreases total - k,
        {
            payload.push(entries[k]);
            assert(payload@ =~= u32_to_le(count) + entries@.subrange(0, k + 1));
            k += 1;
        }
        assert(payload@ =~= list_payload(subscriptions@));
        self.start_transfer(CMD_LIST, payload, false, false);
    }

    /// Makes ready to read the body of a request.  Where the body is
    /// empty, the transfer ends at once, with the acknowledgment that ends
    /// a payload, and the link goes on to wait for a request.
    pub fn begin_body(&mut self, header: DecoderPacketHeader) -> (complete: bool)
        ensures
            complete == (header.size == 0),
            final(self)@ == body_begun(old(self)@, header),
            old(self)@.writer.wf() && old(self)@.writer.total() == old(self)@.payload.len() ==> final(self)@.wf(),
    {
        self.request = header;
        buffer_clear(&mut self.body);
        self.reader = DecoderPayloadReader::new(header.size as usize);
        if header.size == 0 {
            self.reader.finish_payload(&mut self.tx);
            self.state = LinkState::AwaitMagic;
            assert(ack_frames(1) =~= ack_frame()) by {
                assert(ack_frames(0) =~= Seq::<u8>::empty());
            }
            true
        } else {
            self.state = LinkState::ReadingBody;
            false
        }
    }

    /// Marks the request as failed.  The link takes no more bytes until the
    /// error has been reported.
    pub fn fail(&mut self, error: DecoderError)
        ensures
            final(self)@ == (ConsoleView { state: LinkState::Faulted(error), ..old(self)@ }),
    {
        self.state = LinkState::Faulted(error);
    }

    /// Takes one received byte and moves the link along.  While a request
    /// is awaited the byte goes to the header; while a body is read it is
    /// the next byte of the body, and acknowledgments are queued as chunks
    /// and payload are completed; while a message is being sent it is a
    /// byte of the host's acknowledgment, and the next chunk is queued when
    /// the acknowledgment is complete.  While an error waits to be reported
    /// the byte is refused.
    pub fn receive(&mut self, byte: u8) -> (event: LinkEvent)
        requires
            old(self)@.wf(),
        ensures
            final(self)@.wf(),
            (final(self)@, event) == link_step(old(self)@, byte),
    {
        match self.state {
            LinkState::Faulted(_) => LinkEvent::Refused,
            LinkState::ReadingBody => {
                let ghost acks_before = self.reader.acks_sent();
                self.reader.read_byte(byte, &mut self.body, &mut self.tx);
                let ghost acks_between = self.reader.acks_sent();
                if self.reader.is_complete() {
                    self.reader.finish_payload(&mut self.tx);
                    self.state = LinkState::AwaitMagic;
                    proof {
                        let first = ack_frames((acks_between - acks_before) as nat);
                        let second = ack_frames((self.reader.acks_sent() - acks_between) as nat);
                        lemma_ack_frames_add(
                            (acks_between - acks_before) as nat,
                            (self.reader.acks_sent() - acks_between) as nat,
                        );
                        let want = link_step(old(self)@, byte).0;
                        assert(self@.reader == want.reader);
                        assert(self@.output =~= old(self)@.output + (first + second));
                        assert(self@.output =~= want.output);
                        assert(self@.body =~= want.body);
                        assert(self@ =~= want);
                    }
                    LinkEvent::Body
                } else {
                    assert(self@ =~= link_step(old(self)@, byte).0);
                    LinkEvent::Pending
                }
            },
            LinkState::AwaitAckMagic | LinkState::AwaitAckCommand => {
                match self.read_ack(byte) {
                    None => LinkEvent::Pending,
                    Some(Err(_)) => {
                        self.state = LinkState::AwaitMagic;
                        LinkEvent::AckFailed
                    },
                    Some(Ok(())) => {
                        if !self.header_acked {
                            self.header_acked = true;
                            if self.bare {
                                self.state = LinkState::AwaitMagic;
                                return LinkEvent::Sent;
                            }
                        } else {
                            self.writer.read_ack();
                            if self.writer.is_finished() {
                                self.state = LinkState::AwaitMagic;
                                return LinkEvent::Sent;
                            }
                        }
                        self.writer.write_bytes(self.payload.as_slice(), &mut self.tx);
                        self.state = LinkState::AwaitAckMagic;
                        proof {
                            let want = link_step(old(self)@, byte).0;
                            assert(ack_step(old(self)@.state, byte).1 == Some(Ok::<(), DecoderError>(())));
                            assert(self@.writer == want.writer);
                            assert(self@.output =~= want.output);
                            assert(self@.header_acked == want.header_acked);
                            assert(self@.state == want.state);
                            assert(self@ =~= want);
                        }
                        LinkEvent::Pending
                    },
                }
            },
            _ => {
                match self.read_command_header(byte) {
                    None => LinkEvent::Pending,
                    Some(Err(command)) => LinkEvent::BadCommand(command),
                    Some(Ok(header)) => LinkEvent::Header(header),
                }
            },
        }
    }

    /// Takes the subscription out of the body that was read: the body is
    /// nonce, tag and signature followed by the ciphertext of channel,
    /// window and key, encrypted for this decoder.
    pub fn read_subscription(&self) -> (read: Result<Subscription, DecoderError>)
        ensures
            match read {
                Ok(sub) => {
                    &&& self@.body.len() == SUBSCRIPTION_MESSAGE_BYTES
                    &&& subscription_plaintext(self@.body) matches Some(plaintext)
                        && subscription_in(plaintext, sub)
                },
                Err(e) => if self@.body.len() != SUBSCRIPTION_MESSAGE_BYTES {
                    e == DecoderError::PacketWrongSize
                } else {
                    e == DecoderError::FailedDecryption && subscription_plaintext(self@.body) is None
                },
            },
    {
        let body = buffer_as_slice(&self.body);
        if body.len() != SUBSCRIPTION_MESSAGE_BYTES {
            return Err(DecoderError::PacketWrongSize);
        }
        let nonce = copy_24(body, 0);
        let tag = copy_16(body, 24);
        let signature = copy_64(body, 40);
        let mut work = buffer_new();
        let copied = buffer_extend_from_slice(
            &mut work,
            vstd::slice::slice_subrange(body, 104, SUBSCRIPTION_MESSAGE_BYTES),
        );
        assert(buffer_bytes(work) =~= self@.body.subrange(104, 156));
        let opened = decrypt_decoder_encrypted_packet(
            &nonce,
            &tag,
            &signature,
            buffer_as_mut_slice(&mut work),
        );
        if opened.is_err() {
            return Err(DecoderError::FailedDecryption);
        }
        Ok(parse_subscription(buffer_as_slice(&work)))
    }

    /// Decodes the frame in the body that was read and begins to send it
    /// back.  The body is the channel, then nonce, tag and signature, then
    /// the ciphertext of the timestamp and the frame.
    pub fn decode_frame(&mut self, decoder: &mut Decoder) -> (sent: Result<(), DecoderError>)
        requires
            old(self)@.wf(),
            old(decoder).wf(),
        ensures
            final(self)@.wf(),
            final(decoder).wf(),
            final(decoder).table() == old(decoder).table(),
            final(decoder).storage() == old(decoder).storage(),
            match frame_outcome(
                old(decoder).table(),
                old(decoder).last_timestamp(),
                old(self)@.body,
            ) {
                Ok((timestamp, frame)) => {
                    &&& sent is Ok
                    &&& final(decoder).last_timestamp() == Some(timestamp)
                    &&& final(self)@ == transfer_started(old(self)@, CMD_DECODE, frame, false, false)
                },
                Err(e) => {
                    &&& sent == Err::<(), DecoderError>(e)
                    &&& final(decoder).last_timestamp() == old(decoder).last_timestamp()
                    &&& final(self)@ == old(self)@
                },
            },
    {
        let body = buffer_as_slice(&self.body);
        let len = body.len();
        if len < FRAME_HEADER_BYTES || len > FRAME_HEADER_BYTES + MAX_FRAME_BYTES {
            return Err(DecoderError::FrameTooLarge);
        }
        let channel_id = read_u32_le(body, 0);
        let nonce = copy_24(body, 4);
        let tag = copy_16(body, 28);
        let signature = copy_64(body, 44);
        let mut work = buffer_new();
        let copied = buffer_extend_from_slice(&mut work, vstd::slice::slice_subrange(body, 108, len));
        assert(buffer_bytes(work) =~= old(self)@.body.subrange(108, len as int));
        let frame = match decoder.decode_frame(channel_id, &nonce, &tag, &signature, &mut work) {
            Ok(frame) => vstd::slice::slice_to_vec(frame),
            Err(e) => {
                return Err(e);
            },
        };
        self.start_transfer(CMD_DECODE, frame, false, false);
        Ok(())
    }
}

/// Bytes of a subscription in the clear: channel, start and end of the
/// window, key.
pub const SUBSCRIPTION_BYTES: usize = 52;

/// Reads a subscription from its bytes in the clear: the channel, the
/// start and the end of the window, little-endian, and the key.
pub fn parse_subscription(plaintext: &[u8]) -> (sub: Subscription)
    requires
        plaintext@.len() == SUBSCRIPTION_BYTES,
    ensures
        subscription_in(plaintext@, sub),
{
    Subscription {
        channel_id: read_u32_le(plaintext, 0),
        start_time: read_u64_le(plaintext, 4),
        end_time: read_u64_le(plaintext, 12),
        channel_key: copy_32(plaintext, 20),
    }
}

/// Bytes of the body of a subscription update: nonce, tag, signature and
/// the ciphertext of the subscription.
pub const SUBSCRIPTION_MESSAGE_BYTES: usize = 156;

/// Bytes of the body of a frame to decode, the frame left out: channel,
/// nonce, tag, signature and the ciphertext of the timestamp.
pub const FRAME_HEADER_BYTES: usize = 116;

/// What the body of a subscription update opens to under the key of this
/// decoder.
pub open spec fn subscription_plaintext(body: Seq<u8>) -> Option<Seq<u8>> {
    packet_open(
        DECODER_KEY@,
        body.subrange(0, 24),
        body.subrange(24, 40),
        body.subrange(40, 104),
        body.subrange(104, 156),
    )
}

/// Whether the subscription is the one that the plaintext spells out:
/// channel, start and end little-endian, then the 32 bytes of the key.
pub open spec fn subscription_in(plaintext: Seq<u8>, sub: Subscription) -> bool {
    &&& sub.channel_id == u32_from_le(plaintext.subrange(0, 4))
    &&& sub.start_time == u64_from_le(plaintext.subrange(4, 12))
    &&& sub.end_time == u64_from_le(plaintext.subrange(12, 20))
    &&& sub.channel_key@ == plaintext.subrange(20, 52)
}

/// What decoding the body of a frame request gives: the timestamp and the
/// frame, or the error.  A body that has no room for a timestamp, or room
/// for more than 64 bytes of frame, is refused as too large.
pub open spec fn frame_outcome(table: Table, last_timestamp: Option<u64>, body: Seq<u8>) -> Result<
    (u64, Seq<u8>),
    DecoderError,
> {
    if body.len() < FRAME_HEADER_BYTES || body.len() > FRAME_HEADER_BYTES + MAX_FRAME_BYTES {
        Err(DecoderError::FrameTooLarge)
    } else {
        decode_outcome(
            table,
            last_timestamp,
            u32_from_le(body.subrange(0, 4)),
            body.subrange(4, 28),
            body.subrange(28, 44),
            body.subrange(44, 108),
            body.subrange(108, body.len() as int),
        )
    }
}

/// Copies 16 bytes out of a slice.
fn copy_16(src: &[u8], at: usize) -> (out: [u8; 16])
    requires
        at + 16 <= src@.len(),
    ensures
        out@ == src@.subrange(at as int, at + 16),
{
    let len = src.len();
    let mut out = [0u8; 16];
    let mut i: usize = 0;
    while i < 16
        invariant
            i <= 16,
            len == src@.len(),
            at + 16 <= len,
            forall|k: int| 0 <= k < i ==> out@[k] == src@[at + k],
        decreases 16 - i,
    {
        out[i] = src[at + i];
        i += 1;
    }
    assert(out@ =~= src@.subrange(at as int, at + 16));
    out
}

/// Copies 24 bytes out of a slice.
fn copy_24(src: &[u8], at: usize) -> (out: [u8; 24])
    requires
        at + 24 <= src@.len(),
    ensures
        out@ == src@.subrange(at as int, at + 24),
{
    let len = src.len();
    let mut out = [0u8; 24];
    let mut i: usize = 0;
    while i < 24
        invariant
            i <= 24,
            len == src@.len(),
            at + 24 <= len,
            forall|k: int| 0 <= k < i ==> out@[k] == src@[at + k],
        decreases 24 - i,
    {
        out[i] = src[at + i];
        i += 1;
    }
    assert(out@ =~= src@.subrange(at as int, at + 24));
    out
}

/// Copies 32 bytes out of a slice.
fn copy_32(src: &[u8], at: usize) -> (out: [u8; 32])
    requires
        at + 32 <= src@.len(),
    ensures
        out@ == src@.subrange(at as int, at + 32),
{
    let len = src.len();
    let mut out = [0u8; 32];
    let mut i: usize = 0;
    while i < 32
        invariant
            i <= 32,
            len == src@.len(),
            at + 32 <= len,
            forall|k: int| 0 <= k < i ==> out@[k] == src@[at + k],
        decreases 32 - i,
    {
        out[i] = src[at + i];
        i += 1;
    }
    assert(out@ =~= src@.subrange(at as int, at + 32));
    out
}

/// Copies 64 bytes out of a slice.
fn copy_64(src: &[u8], at: usize) -> (out: [u8; 64])
    requires
        at + 64 <= src@.len(),
    ensures
        out@ == src@.subrange(at as int, at + 64),
{
    let len = src.len();
    let mut out = [0u8; 64];
    let mut i: usize = 0;
    while i < 64
        invariant
            i <= 64,
            len == src@.len(),
            at + 64 <= len,
            forall|k: int| 0 <= k < i ==> out@[k] == src@[at + k],
        decreases 64 - i,
    {
        out[i] = src[at + i];
        i += 1;
    }
    assert(out@ =~= src@.subrange(at as int, at + 64));
    out
}

/// The receiver of a payload has sent, once the transfer is over, one
/// acknowledgment for every chunk of the payload and one more; for an empty
/// payload that is the one alone.
pub proof fn lemma_reader_acknowledgments(reader: DecoderPayloadReader)
    requires
        reader.wf(),
        reader.finished(),
    ensures
        reader.bytes_read() == reader.expected(),
        reader.acks_sent() == chunk_count(reader.expected()) + 1,
        reader.expected() == 0 ==> reader.acks_sent() == 1,
        reader.expected() > 0 ==> reader.acks_sent() == (reader.expected() - 1) / 256 + 2,
{
}

/// The sender of a payload has received, once the transfer is over, one
/// acknowledgment for every chunk of the payload and one more, and has
/// written all of the payload.
pub proof fn lemma_writer_acknowledgments(writer: DecoderPayloadWriter)
    requires
        writer.wf(),
        writer.finished(),
    ensures
        writer.bytes_written() == writer.total(),
        writer.acks_read() == chunk_count(writer.total()) + 1,
        writer.total() == 0 ==> writer.acks_read() == 1,
        writer.total() > 0 ==> writer.acks_read() == (writer.total() - 1) / 256 + 2,
{
}

/// A chunk is written only when the chunk before it has been acknowledged:
/// of what a writer has written, all but the last chunk is acknowledged.
pub proof fn lemma_writer_waits_for_acknowledgment(writer: DecoderPayloadWriter)
    requires
        writer.wf(),
    ensures
        writer.bytes_written() <= 256 * (writer.acks_read() + 1),
{
}

/// That many acknowledgments and then some more are as many as both
/// together.
pub proof fn lemma_ack_frames_add(a: nat, b: nat)
    ensures
        ack_frames(a) + ack_frames(b) == ack_frames(a + b),
    decreases b,
{
    if b == 0 {
        assert(ack_frames(a) + ack_frames(0) =~= ack_frames(a));
    } else {
        lemma_ack_frames_add(a, (b - 1) as nat);
        assert(ack_frames(a) + ack_frames(b) =~= ack_frames(a) + ack_frames((b - 1) as nat)
            + ack_frame());
    }
}

/// The link after a run of received bytes.
pub open spec fn link_run(view: ConsoleView, bytes: Seq<u8>) -> ConsoleView
    decreases bytes.len(),
{
    if bytes.len() == 0 {
        view
    } else {
        link_step(link_run(view, bytes.drop_last()), bytes.last()).0
    }
}

/// Receiving two runs of bytes one after the other is receiving them as
/// one run.
pub proof fn lemma_link_run_add(view: ConsoleView, first: Seq<u8>, second: Seq<u8>)
    ensures
        link_run(view, first + second) == link_run(link_run(view, first), second),
    decreases second.len(),
{
    if second.len() == 0 {
        assert(first + second =~= first);
    } else {
        lemma_link_run_add(view, first, second.drop_last());
        assert((first + second).drop_last() =~= first + second.drop_last());
    }
}

/// The link in the middle of a body: `k` bytes of it are in, and one
/// acknowledgment has gone out for every full chunk among them.
pub open spec fn body_partly_read(
    view: ConsoleView,
    header: DecoderPacketHeader,
    body: Seq<u8>,
    k: int,
) -> ConsoleView {
    ConsoleView {
        state: LinkState::ReadingBody,
        output: view.output + ack_frames((k / 256) as nat),
        request: header,
        body: body.take(k),
        reader: DecoderPayloadReader {
            expected: header.size as usize,
            bytes_read: k as usize,
            acks_sent: (k / 256) as usize,
            finished: false,
        },
        ..view
    }
}

/// While the bytes of a body come in, the link acknowledges every full
/// chunk of 256 bytes, and nothing else.
pub proof fn lemma_body_partly_read(
    view: ConsoleView,
    header: DecoderPacketHeader,
    body: Seq<u8>,
    k: int,
)
    requires
        body.len() == header.size,
        header.size <= 1024,
        0 <= k < body.len(),
    ensures
        link_run(body_begun(view, header), body.take(k)) == body_partly_read(view, header, body, k),
    decreases k,
{
    let begun = body_begun(view, header);
    let want = body_partly_read(view, header, body, k);
    if k == 0 {
        assert(body.take(0) =~= Seq::<u8>::empty());
        assert(view.output + ack_frames(0) =~= view.output);
        assert(begun.body =~= want.body);
        assert(begun.output =~= want.output);
    } else {
        lemma_body_partly_read(view, header, body, k - 1);
        let before = body_partly_read(view, header, body, k - 1);
        assert(body.take(k).drop_last() =~= body.take(k - 1));
        assert(body.take(k).last() == body[k - 1]);
        let after = link_step(before, body[k - 1]).0;
        assert(link_run(begun, body.take(k)) == after);
        let sent = ((k - 1) / 256) as nat;
        let more = (k / 256 - (k - 1) / 256) as nat;
        lemma_ack_frames_add(sent, more);
        assert(after.reader == want.reader);
        assert(after.body =~= want.body);
        assert(after.output =~= view.output + (ack_frames(sent) + ack_frames(more)));
        assert(after.output =~= want.output);
    }
}

/// The acknowledgments on the wire follow the formula, on the receiving
/// side.  From the header of a request to the last byte of its body of
/// `n` bytes the link sends one acknowledgment for every chunk of the body
/// and one more, and nothing besides; the body read is the body sent.
pub proof fn lemma_body_is_acknowledged_by_the_formula(
    view: ConsoleView,
    header: DecoderPacketHeader,
    body: Seq<u8>,
)
    requires
        body.len() == header.size,
        header.size <= 1024,
    ensures
        ({
            let end = link_run(body_begun(view, header), body);
            &&& end.state == LinkState::AwaitMagic
            &&& end.request == header
            &&& end.body == body
            &&& end.reader.finished
            &&& end.output == view.output + ack_frames(ack_count(body.len()))
        }),
{
    let begun = body_begun(view, header);
    let n = body.len() as int;
    assert(ack_frames(1) =~= ack_frame()) by {
        assert(ack_frames(0) =~= Seq::<u8>::empty());
    }
    if n == 0 {
        assert(body =~= Seq::<u8>::empty());
        assert(begun.body =~= body);
    } else {
        lemma_body_partly_read(view, header, body, n - 1);
        let before = body_partly_read(view, header, body, n - 1);
        assert(body.drop_last() =~= body.take(n - 1));
        let end = link_step(before, body.last()).0;
        assert(link_run(begun, body) == end);
        let sent = ((n - 1) / 256) as nat;
        let more = (ack_count(n as nat) - sent) as nat;
        lemma_ack_frames_add(sent, more);
        assert(end.body =~= body);
        assert(end.output =~= view.output + (ack_frames(sent) + ack_frames(more)));
    }
}

/// Stray bytes before the magic are dropped: they leave a link that waits
/// for a request as it was.
pub proof fn lemma_stray_bytes_are_dropped(view: ConsoleView, stray: Seq<u8>)
    requires
        view.state == LinkState::AwaitMagic,
        forall|i: int| 0 <= i < stray.len() ==> stray[i] != MAGIC_BYTE,
    ensures
        link_run(view, stray) == view,
    decreases stray.len(),
{
    if stray.len() > 0 {
        lemma_stray_bytes_are_dropped(view, stray.drop_last());
    }
}

/// A header is read as what it spells out.  Whatever stray bytes come
/// first, the magic, the command byte of a request and the two bytes of the
/// length give the header with that type and that length, little-endian,
/// and the link acknowledges it.
pub proof fn lemma_header_is_read(
    view: ConsoleView,
    stray: Seq<u8>,
    command: u8,
    low: u8,
    high: u8,
)
    requires
        view.state == LinkState::AwaitMagic,
        forall|i: int| 0 <= i < stray.len() ==> stray[i] != MAGIC_BYTE,
        message_type(command) is Some,
    ensures
        link_step(link_run(view, stray + seq![MAGIC_BYTE, command, low]), high) == (
            ConsoleView { output: view.output + ack_frame(), ..view },
            LinkEvent::Header(
                DecoderPacketHeader {
                    msg_type: message_type(command).unwrap(),
                    size: (low + 256 * high) as u16,
                },
            ),
        ),
{
    let head = seq![MAGIC_BYTE, command, low];
    lemma_stray_bytes_are_dropped(view, stray);
    lemma_link_run_add(view, stray, head);
    let one = head.take(1);
    let two = head.take(2);
    assert(head.drop_last() =~= two);
    assert(two.drop_last() =~= one);
    assert(one.drop_last() =~= Seq::<u8>::empty());
    assert(link_run(view, Seq::<u8>::empty()) == view);
    assert(one.last() == MAGIC_BYTE);
    assert(two.last() == command);
    assert(head.last() == low);
    assert(link_run(view, one) == ConsoleView { state: LinkState::AwaitCommand, ..view });
    assert(link_run(view, two) == ConsoleView {
        state: LinkState::AwaitSizeLow(message_type(command).unwrap()),
        ..view
    });
    assert(link_run(view, head) == ConsoleView {
        state: LinkState::AwaitSizeHigh(message_type(command).unwrap(), low),
        ..view
    });
}

/// A header whose command byte is that of no request is refused at the
/// command byte: nothing is acknowledged, and the length is not read.
pub proof fn lemma_unknown_command_is_refused(view: ConsoleView, stray: Seq<u8>, command: u8)
    requires
        view.state == LinkState::AwaitMagic,
        forall|i: int| 0 <= i < stray.len() ==> stray[i] != MAGIC_BYTE,
        message_type(command) is None,
    ensures
        link_step(link_run(view, stray.push(MAGIC_BYTE)), command) == (
            view,
            LinkEvent::BadCommand(command),
        ),
{
    lemma_stray_bytes_are_dropped(view, stray);
    assert(stray.push(MAGIC_BYTE).drop_last() =~= stray);
}

/// The link in the middle of sending a payload: the host has acknowledged
/// the header and `acked` chunks, and the chunk behind them has gone out.
pub open spec fn payload_partly_sent(
    view: ConsoleView,
    command: u8,
    payload: Seq<u8>,
    reporting: bool,
    acked: int,
) -> ConsoleView {
    let written = vstd::math::min(256 * (acked + 1), payload.len() as int);
    ConsoleView {
        state: LinkState::AwaitAckMagic,
        output: view.output + header_bytes(command, payload.len() as u16) + payload.take(written),
        payload,
        writer: DecoderPayloadWriter {
            total: payload.len() as usize,
            bytes_written: written as usize,
            acks_read: acked as usize,
        },
        bare: false,
        header_acked: true,
        reporting,
        ..view
    }
}

/// An acknowledgment of the host, all four bytes of it, moves a link that
/// waits for one as its command byte alone does: the magic leads up to it,
/// and the two bytes of the length behind it are dropped.
pub proof fn lemma_ack_frame_received(view: ConsoleView)
    requires
        view.state == LinkState::AwaitAckMagic,
    ensures
        link_run(view, ack_frame()) == link_step(
            ConsoleView { state: LinkState::AwaitAckCommand, ..view },
            CMD_ACK,
        ).0,
{
    let frame = ack_frame();
    assert(frame =~= seq![MAGIC_BYTE, CMD_ACK, 0u8, 0u8]);
    let one = frame.take(1);
    let two = frame.take(2);
    let three = frame.take(3);
    assert(frame.drop_last() =~= three);
    assert(three.drop_last() =~= two);
    assert(two.drop_last() =~= one);
    assert(one.drop_last() =~= Seq::<u8>::empty());
    assert(link_run(view, Seq::<u8>::empty()) == view);
    assert(link_run(view, one.drop_last()) == view);
    assert(one.last() == MAGIC_BYTE);
    assert(two.last() == CMD_ACK);
    assert(three.last() == 0u8);
    assert(frame.last() == 0u8);
    let after_magic = link_run(view, one);
    assert(after_magic == link_step(view, MAGIC_BYTE).0);
    assert(after_magic == ConsoleView { state: LinkState::AwaitAckCommand, ..view });
    let after_command = link_run(view, two);
    assert(after_command == link_step(after_magic, CMD_ACK).0);
    assert(after_command.state == LinkState::AwaitAckMagic || after_command.state
        == LinkState::AwaitMagic);
    assert(link_run(view, three) == link_step(after_command, 0u8).0);
    assert(link_run(view, three) == after_command);
    assert(link_run(view, frame) == link_step(after_command, 0u8).0);
}

/// While the host acknowledges chunk after chunk, the link sends the
/// payload chunk by chunk: each chunk follows the acknowledgment of the one
/// before it.
pub proof fn lemma_payload_partly_sent(
    view: ConsoleView,
    command: u8,
    payload: Seq<u8>,
    reporting: bool,
    acked: int,
)
    requires
        payload.len() <= 0xFFFF,
        0 <= acked <= chunk_count(payload.len()),
    ensures
        link_run(
            transfer_started(view, command, payload, false, reporting),
            ack_frames((1 + acked) as nat),
        ) == payload_partly_sent(view, command, payload, reporting, acked),
    decreases acked,
{
    let started = transfer_started(view, command, payload, false, reporting);
    let want = payload_partly_sent(view, command, payload, reporting, acked);
    let before = if acked == 0 {
        started
    } else {
        payload_partly_sent(view, command, payload, reporting, acked - 1)
    };
    if acked == 0 {
        assert(ack_frames(0) =~= Seq::<u8>::empty());
    } else {
        lemma_payload_partly_sent(view, command, payload, reporting, acked - 1);
    }
    assert(link_run(started, ack_frames(acked as nat)) == before);
    lemma_link_run_add(started, ack_frames(acked as nat), ack_frame());
    lemma_ack_frame_received(before);
    let after = link_step(ConsoleView { state: LinkState::AwaitAckCommand, ..before }, CMD_ACK).0;
    assert(link_run(started, ack_frames((1 + acked) as nat)) == after);
    assert(after.writer == want.writer);
    assert(after.output =~= want.output);
    assert(after.payload =~= want.payload);
}

/// The acknowledgments on the wire follow the formula, on the sending
/// side.  Behind the header of a message and its acknowledgment, a payload
/// of `n` bytes takes one acknowledgment of the host for every chunk and
/// one more.  With the last of them the message is sent: the link has
/// written the header and the payload and nothing else, and waits for the
/// next request.  With any fewer it still waits for an acknowledgment.
pub proof fn lemma_payload_is_acknowledged_by_the_formula(
    view: ConsoleView,
    command: u8,
    payload: Seq<u8>,
    reporting: bool,
)
    requires
        payload.len() <= 0xFFFF,
    ensures
        ({
            let started = transfer_started(view, command, payload, false, reporting);
            let end = link_run(started, ack_frames(1 + ack_count(payload.len())));
            &&& end.state == LinkState::AwaitMagic
            &&& end.output == view.output + header_bytes(command, payload.len() as u16) + payload
            &&& end.writer.finished()
            &&& forall|fewer: nat|
                fewer <= ack_count(payload.len()) ==> (#[trigger] link_run(
                    started,
                    ack_frames(fewer),
                )).state == LinkState::AwaitAckMagic
        }),
{
    let started = transfer_started(view, command, payload, false, reporting);
    let chunks = chunk_count(payload.len());
    lemma_payload_partly_sent(view, command, payload, reporting, chunks as int);
    let before = payload_partly_sent(view, command, payload, reporting, chunks as int);
    lemma_link_run_add(started, ack_frames(1 + chunks), ack_frame());
    lemma_ack_frame_received(before);
    let end = link_step(ConsoleView { state: LinkState::AwaitAckCommand, ..before }, CMD_ACK).0;
    assert(link_run(started, ack_frames(1 + ack_count(payload.len()))) == end);
    assert(payload.take(payload.len() as int) =~= payload);
    assert(end.output =~= view.output + header_bytes(command, payload.len() as u16) + payload);
    assert forall|fewer: nat| fewer <= ack_count(payload.len()) implies (#[trigger] link_run(
        started,
        ack_frames(fewer),
    )).state == LinkState::AwaitAckMagic by {
        if fewer == 0 {
            assert(ack_frames(0) =~= Seq::<u8>::empty());
        } else {
            lemma_payload_partly_sent(view, command, payload, reporting, fewer - 1);
        }
    }
}

/// A message that is a header alone is sent once the host has
/// acknowledged the header.
pub proof fn lemma_bare_message_takes_one_acknowledgment(view: ConsoleView, command: u8)
    ensures
        ({
            let started = transfer_started(view, command, Seq::<u8>::empty(), true, false);
            let end = link_run(started, ack_frame());
            &&& started.state == LinkState::AwaitAckMagic
            &&& end.state == LinkState::AwaitMagic
            &&& end.output == view.output + header_bytes(command, 0)
        }),
{
    let started = transfer_started(view, command, Seq::<u8>::empty(), true, false);
    lemma_ack_frame_received(started);
}

/// The reader once it has taken one more byte of a payload that was not
/// complete, and has ended the transfer if that byte completed it.
pub open spec fn reader_step(reader: DecoderPayloadReader) -> DecoderPayloadReader {
    let bytes_read = (reader.bytes_read + 1) as usize;
    if bytes_read == reader.expected {
        DecoderPayloadReader {
            bytes_read,
            acks_sent: ack_count(reader.expected as nat) as usize,
            finished: true,
            ..reader
        }
    } else {
        DecoderPayloadReader { bytes_read, acks_sent: (bytes_read / 256) as usize, ..reader }
    }
}

/// The writer once the receiver has acknowledged what was outstanding,
/// and the next chunk, if there is one, has been written.
pub open spec fn writer_step(writer: DecoderPayloadWriter, acknowledged: bool) -> DecoderPayloadWriter {
    let acks_read = if acknowledged {
        (writer.acks_read + 1) as usize
    } else {
        writer.acks_read
    };
    let left = writer.total - writer.bytes_written;
    DecoderPayloadWriter {
        acks_read,
        bytes_written: (writer.bytes_written + if left < 256 { left } else { 256 }) as usize,
        ..writer
    }
}

/// What one received byte makes of the link, and what it has brought
/// about.
pub open spec fn link_step(view: ConsoleView, byte: u8) -> (ConsoleView, LinkEvent) {
    match view.state {
        LinkState::Faulted(_) => (view, LinkEvent::Refused),
        LinkState::ReadingBody => {
            let reader = reader_step(view.reader);
            let body = if view.body.len() < 1024 {
                view.body.push(byte)
            } else {
                view.body
            };
            let output = view.output + ack_frames((reader.acks_sent - view.reader.acks_sent) as nat);
            if reader.finished {
                (
                    ConsoleView { state: LinkState::AwaitMagic, output, body, reader, ..view },
                    LinkEvent::Body,
                )
            } else {
                (ConsoleView { output, body, reader, ..view }, LinkEvent::Pending)
            }
        },
        LinkState::AwaitAckMagic | LinkState::AwaitAckCommand => match ack_step(view.state, byte).1 {
            None => (ConsoleView { state: ack_step(view.state, byte).0, ..view }, LinkEvent::Pending),
            Some(Err(_)) => (ConsoleView { state: LinkState::AwaitMagic, ..view }, LinkEvent::AckFailed),
            Some(Ok(_)) => if !view.header_acked && view.bare {
                (
                    ConsoleView { state: LinkState::AwaitMagic, header_acked: true, ..view },
                    LinkEvent::Sent,
                )
            } else if view.header_acked && view.writer.acks_read + 1 == ack_count(
                view.writer.total as nat,
            ) {
                (
                    ConsoleView {
                        state: LinkState::AwaitMagic,
                        writer: DecoderPayloadWriter {
                            acks_read: (view.writer.acks_read + 1) as usize,
                            ..view.writer
                        },
                        ..view
                    },
                    LinkEvent::Sent,
                )
            } else {
                let writer = writer_step(view.writer, view.header_acked);
                (
                    ConsoleView {
                        state: LinkState::AwaitAckMagic,
                        output: view.output + view.payload.subrange(
                            view.writer.bytes_written as int,
                            writer.bytes_written as int,
                        ),
                        writer,
                        header_acked: true,
                        ..view
                    },
                    LinkEvent::Pending,
                )
            },
        },
        _ => match header_step(view.state, byte).1 {
            None => (ConsoleView { state: header_step(view.state, byte).0, ..view }, LinkEvent::Pending),
            Some(Err(command)) => (
                ConsoleView { state: header_step(view.state, byte).0, ..view },
                LinkEvent::BadCommand(command),
            ),
            Some(Ok(header)) => (
                ConsoleView {
                    state: header_step(view.state, byte).0,
                    output: view.output + ack_frame(),
                    ..view
                },
                LinkEvent::Header(header),
            ),
        },
    }
}

/// Most slots that a list response can speak of: what its 16-bit length
/// leaves room for.
pub const MAX_LISTED: usize = 3276;

/// The bytes of a text that go on the wire: all of them, up to 65535.
pub open spec fn message_payload(bytes: Seq<u8>) -> Seq<u8> {
    if bytes.len() > 0xFFFF {
        bytes.subrange(0, 0xFFFF)
    } else {
        bytes
    }
}

/// Number of taken slots.
pub open spec fn occupied(slots: Table) -> nat
    decreases slots.len(),
{
    if slots.len() == 0 {
        0
    } else {
        occupied(slots.drop_last()) + if slots.last() is Some { 1nat } else { 0nat }
    }
}

/// The entries of a list response: for each taken slot, in the order of
/// the slots, the channel, the start and the end of the window.
pub open spec fn list_entries(slots: Table) -> Seq<u8>
    decreases slots.len(),
{
    if slots.len() == 0 {
        Seq::<u8>::empty()
    } else {
        list_entries(slots.drop_last()) + match slots.last() {
            Some(sub) => u32_to_le(sub.channel_id) + u64_to_le(sub.start_time) + u64_to_le(
                sub.end_time,
            ),
            None => Seq::<u8>::empty(),
        }
    }
}

/// The payload of a list response: the number of entries, then the
/// entries.
pub open spec fn list_payload(slots: Table) -> Seq<u8> {
    u32_to_le(occupied(slots) as u32) + list_entries(slots)
}

/// The link once it has begun to send a message.
pub open spec fn transfer_started(
    view: ConsoleView,
    command: u8,
    payload: Seq<u8>,
    bare: bool,
    reporting: bool,
) -> ConsoleView {
    ConsoleView {
        state: LinkState::AwaitAckMagic,
        output: view.output + header_bytes(command, payload.len() as u16),
        payload,
        writer: DecoderPayloadWriter { total: payload.len() as usize, bytes_written: 0, acks_read: 0 },
        bare,
        header_acked: false,
        reporting,
        ..view
    }
}

/// The link once it is ready to read the body of a request.
pub open spec fn body_begun(view: ConsoleView, header: DecoderPacketHeader) -> ConsoleView {
    if header.size == 0 {
        ConsoleView {
            state: LinkState::AwaitMagic,
            output: view.output + ack_frame(),
            request: header,
            body: Seq::<u8>::empty(),
            reader: DecoderPayloadReader { expected: 0, bytes_read: 0, acks_sent: 1, finished: true },
            ..view
        }
    } else {
        ConsoleView {
            state: LinkState::ReadingBody,
            request: header,
            body: Seq::<u8>::empty(),
            reader: DecoderPayloadReader {
                expected: header.size as usize,
                bytes_read: 0,
                acks_sent: 0,
                finished: false,
            },
            ..view
        }
    }
}

} // verus!
