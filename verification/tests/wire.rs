use decoder::bytes::{push_u16_le, push_u32_le, push_u64_le, read_u16_le, read_u32_le, read_u64_le};
use decoder::decoder::Subscription;
use decoder::host_comms::{
    parse_subscription, DecoderConsole, DecoderError, DecoderMessageType, DecoderPacketHeader, DecoderPayloadReader,
    DecoderPayloadWriter, LinkEvent, LinkState, CHUNK_BYTES, MAGIC_BYTE,
};

const ACK: [u8; 4] = [b'%', b'A', 0, 0];

fn expected_acks(len: usize) -> usize {
    (len + 255) / 256 + 1
}

/// Receives a payload of `len` bytes and returns where in the stream of
/// received bytes each acknowledgment was sent: after how many bytes.
fn receive_payload(len: usize) -> Vec<usize> {
    let mut reader = DecoderPayloadReader::new(len);
    let mut dest: heapless::Vec<u8, 1024> = heapless::Vec::new();
    let mut tx = Vec::new();
    let mut acks_at = Vec::new();
    let mut seen = 0;
    for i in 0..len {
        assert!(reader.read_byte(i as u8, &mut dest, &mut tx));
        if reader.is_complete() {
            assert!(reader.finish_payload(&mut tx));
        }
        assert_eq!(tx.len() % 4, 0);
        while seen < tx.len() / 4 {
            assert_eq!(&tx[4 * seen..4 * seen + 4], ACK);
            acks_at.push(i + 1);
            seen += 1;
        }
    }
    if len == 0 {
        assert!(reader.is_complete());
        assert!(reader.finish_payload(&mut tx));
        assert_eq!(tx, ACK);
        acks_at.push(0);
    }
    assert!(reader.is_finished());
    assert_eq!(reader.acks(), acks_at.len());
    assert_eq!(dest.len(), len);
    for i in 0..len {
        assert_eq!(dest[i], i as u8);
    }
    assert!(!reader.read_byte(0, &mut dest, &mut tx));
    assert!(!reader.finish_payload(&mut tx));
    assert_eq!(tx.len(), 4 * acks_at.len());
    acks_at
}

/// Sends a payload of `len` bytes and returns how many acknowledgments it
/// took and the sizes of the chunks written.
fn send_payload(len: usize) -> (usize, Vec<usize>) {
    let payload: Vec<u8> = (0..len).map(|i| (i % 251) as u8).collect();
    let mut writer = DecoderPayloadWriter::new(len);
    let mut tx = Vec::new();
    let mut chunks = Vec::new();
    let mut acks = 0;
    loop {
        let queued = writer.write_bytes(&payload, &mut tx);
        if queued > 0 {
            chunks.push(queued);
        }
        assert_eq!(writer.write_bytes(&payload, &mut tx), 0);
        if writer.is_finished() {
            break;
        }
        assert!(writer.read_ack());
        acks += 1;
    }
    assert!(!writer.read_ack());
    assert_eq!(writer.acks(), acks);
    assert_eq!(tx, payload);
    (acks, chunks)
}

#[test]
fn received_payloads_are_acknowledged_by_the_formula() {
    for len in [0usize, 255, 256, 257, 512, 1024] {
        assert_eq!(receive_payload(len).len(), expected_acks(len));
    }
    assert_eq!(receive_payload(0).len(), 1);
    assert_eq!(receive_payload(255).len(), 2);
    assert_eq!(receive_payload(256).len(), 2);
    assert_eq!(receive_payload(257).len(), 3);
    assert_eq!(receive_payload(512).len(), 3);
    assert_eq!(receive_payload(1024).len(), 5);
}

#[test]
fn acknowledgments_follow_each_chunk_and_the_end() {
    assert_eq!(receive_payload(0), [0]);
    assert_eq!(receive_payload(1), [1, 1]);
    assert_eq!(receive_payload(256), [256, 256]);
    assert_eq!(receive_payload(257), [256, 257, 257]);
    assert_eq!(receive_payload(600), [256, 512, 600, 600]);
}

#[test]
fn sent_payloads_wait_for_acknowledgments_by_the_formula() {
    for len in [0usize, 255, 256, 257, 512, 1024] {
        assert_eq!(send_payload(len).0, expected_acks(len));
    }
    assert_eq!(send_payload(0), (1, vec![]));
    assert_eq!(send_payload(255), (2, vec![255]));
    assert_eq!(send_payload(256), (2, vec![256]));
    assert_eq!(send_payload(257), (3, vec![256, 1]));
    assert_eq!(send_payload(512), (3, vec![256, 256]));
    assert_eq!(send_payload(1024), (5, vec![256, 256, 256, 256]));
    assert_eq!(CHUNK_BYTES, 256);
}

#[test]
fn next_chunk_waits_for_the_acknowledgment_of_the_last() {
    let payload = [7u8; 300];
    let mut writer = DecoderPayloadWriter::new(300);
    let mut tx = Vec::new();
    assert_eq!(writer.write_bytes(&payload, &mut tx), 256);
    assert_eq!(writer.write_bytes(&payload, &mut tx), 0);
    assert_eq!(tx.len(), 256);
    assert!(writer.read_ack());
    assert!(!writer.read_ack());
    assert_eq!(writer.write_bytes(&payload, &mut tx), 44);
    assert!(!writer.is_finished());
    assert!(writer.read_ack());
    assert!(!writer.is_finished());
    assert!(writer.read_ack());
    assert!(writer.is_finished());
    assert_eq!(writer, DecoderPayloadWriter { total: 300, bytes_written: 300, acks_read: 3 });
}

#[test]
fn reader_drops_what_the_buffer_cannot_hold() {
    let mut reader = DecoderPayloadReader::new(1030);
    let mut dest: heapless::Vec<u8, 1024> = heapless::Vec::new();
    let mut tx = Vec::new();
    for i in 0..1030 {
        assert!(reader.read_byte((i % 256) as u8, &mut dest, &mut tx));
    }
    assert_eq!(dest.len(), 1024);
    assert!(reader.finish_payload(&mut tx));
    assert_eq!(reader.acks(), 6);
    assert_eq!(
        reader,
        DecoderPayloadReader { expected: 1030, bytes_read: 1030, acks_sent: 6, finished: true }
    );
}

#[test]
fn header_is_read_byte_by_byte() {
    let mut console = DecoderConsole::new();
    assert_eq!(console.read_command_header(0x00), None);
    assert_eq!(console.state(), LinkState::AwaitMagic);
    assert_eq!(console.read_command_header(MAGIC_BYTE), None);
    assert_eq!(console.state(), LinkState::AwaitCommand);
    assert_eq!(console.read_command_header(b'D'), None);
    assert_eq!(console.state(), LinkState::AwaitSizeLow(DecoderMessageType::Decode));
    assert_eq!(console.read_command_header(0x34), None);
    assert_eq!(console.state(), LinkState::AwaitSizeHigh(DecoderMessageType::Decode, 0x34));
    assert!(console.take_output().is_empty());
    assert_eq!(
        console.read_command_header(0x12),
        Some(Ok(DecoderPacketHeader { msg_type: DecoderMessageType::Decode, size: 0x1234 }))
    );
    assert_eq!(console.state(), LinkState::AwaitMagic);
    assert_eq!(console.take_output(), ACK);
}

#[test]
fn header_with_an_unknown_command_gives_the_byte_back() {
    for command in [b'A', b'E', b'G', b'l', 0u8, 0xff] {
        let mut console = DecoderConsole::new();
        assert_eq!(console.read_command_header(b'%'), None);
        assert_eq!(console.read_command_header(command), Some(Err(command)));
        assert_eq!(console.state(), LinkState::AwaitMagic);
        assert!(console.take_output().is_empty());
    }
    for (command, msg_type) in [
        (b'L', DecoderMessageType::List),
        (b'S', DecoderMessageType::Subscribe),
        (b'D', DecoderMessageType::Decode),
    ] {
        let mut console = DecoderConsole::new();
        console.read_command_header(b'%');
        assert_eq!(console.read_command_header(command), None);
        assert_eq!(console.state(), LinkState::AwaitSizeLow(msg_type));
    }
}

#[test]
fn acknowledgment_is_read_byte_by_byte() {
    let mut console = DecoderConsole::new();
    console.send_empty_payload(b'S');
    assert_eq!(console.take_output(), [b'%', b'S', 0, 0]);
    assert_eq!(console.state(), LinkState::AwaitAckMagic);
    assert_eq!(console.read_ack(0), None);
    assert_eq!(console.read_ack(b'A'), None);
    assert_eq!(console.state(), LinkState::AwaitAckMagic);
    assert_eq!(console.read_ack(b'%'), None);
    assert_eq!(console.state(), LinkState::AwaitAckCommand);
    assert_eq!(console.read_ack(b'A'), Some(Ok(())));
    assert_eq!(console.read_ack(b'%'), None);
    assert_eq!(console.read_ack(b'%'), Some(Err(DecoderError::ExpectedAckButGotOther)));
}

#[test]
fn acknowledgment_written_is_four_bytes() {
    let mut console = DecoderConsole::new();
    console.write_ack();
    console.write_ack();
    assert_eq!(console.take_output(), [b'%', b'A', 0, 0, b'%', b'A', 0, 0]);
    assert!(console.take_output().is_empty());
}

#[test]
fn body_is_acknowledged_chunk_by_chunk_on_the_link() {
    let mut console = DecoderConsole::new();
    let header = DecoderPacketHeader { msg_type: DecoderMessageType::Decode, size: 300 };
    assert!(!console.begin_body(header));
    assert_eq!(console.state(), LinkState::ReadingBody);
    assert_eq!(console.request(), header);
    for i in 0..255 {
        assert_eq!(console.receive(i as u8), LinkEvent::Pending);
    }
    assert!(console.take_output().is_empty());
    assert_eq!(console.receive(0), LinkEvent::Pending);
    assert_eq!(console.take_output(), ACK);
    for _ in 0..43 {
        assert_eq!(console.receive(b'%'), LinkEvent::Pending);
    }
    assert!(console.take_output().is_empty());
    assert_eq!(console.receive(1), LinkEvent::Body);
    assert_eq!(console.take_output(), [ACK, ACK].concat());
    assert_eq!(console.state(), LinkState::AwaitMagic);
}

#[test]
fn empty_body_takes_the_one_acknowledgment() {
    let mut console = DecoderConsole::new();
    let header = DecoderPacketHeader { msg_type: DecoderMessageType::List, size: 0 };
    assert!(console.begin_body(header));
    assert_eq!(console.take_output(), ACK);
    assert_eq!(console.state(), LinkState::AwaitMagic);
}

#[test]
fn long_payload_is_sent_chunk_by_chunk_on_the_link() {
    let mut console = DecoderConsole::new();
    let text: String = std::iter::repeat("0123456789abcdef").take(20).collect();
    assert_eq!(text.len(), 320);
    console.print_error(&text);
    assert!(console.is_reporting());
    assert_eq!(console.take_output(), [b'%', b'E', 0x40, 0x01]);
    assert_eq!(console.receive(b'%'), LinkEvent::Pending);
    assert!(console.take_output().is_empty());
    assert_eq!(console.receive(b'A'), LinkEvent::Pending);
    assert_eq!(console.take_output(), text.as_bytes()[..256]);
    assert_eq!(console.receive(0), LinkEvent::Pending);
    assert_eq!(console.receive(0), LinkEvent::Pending);
    assert_eq!(console.receive(b'%'), LinkEvent::Pending);
    assert_eq!(console.receive(b'A'), LinkEvent::Pending);
    assert_eq!(console.take_output(), text.as_bytes()[256..]);
    assert_eq!(console.receive(b'%'), LinkEvent::Pending);
    assert_eq!(console.receive(b'A'), LinkEvent::Pending);
    assert!(console.take_output().is_empty());
    assert_eq!(console.receive(b'%'), LinkEvent::Pending);
    assert_eq!(console.receive(b'A'), LinkEvent::Sent);
    assert_eq!(console.state(), LinkState::AwaitMagic);
}

#[test]
fn failed_link_takes_nothing() {
    let mut console = DecoderConsole::new();
    console.fail(DecoderError::NoSubscription);
    assert_eq!(console.state(), LinkState::Faulted(DecoderError::NoSubscription));
    assert_eq!(console.receive(b'%'), LinkEvent::Refused);
    assert_eq!(console.state(), LinkState::Faulted(DecoderError::NoSubscription));
    DecoderError::NoSubscription.write_to_console(&mut console);
    let text = DecoderError::NoSubscription.message();
    assert_eq!(console.take_output(), [b'%', b'E', text.len() as u8, 0]);
}

#[test]
fn little_endian_integers_are_read_and_written() {
    let bytes = [0x01u8, 0x02, 0x03, 0x04, 0x05, 0x06, 0x07, 0x08, 0x09];
    assert_eq!(read_u16_le(&bytes, 0), 0x0201);
    assert_eq!(read_u16_le(&bytes, 7), 0x0908);
    assert_eq!(read_u32_le(&bytes, 0), 0x0403_0201);
    assert_eq!(read_u32_le(&bytes, 5), 0x0908_0706);
    assert_eq!(read_u64_le(&bytes, 0), 0x0807_0605_0403_0201);
    assert_eq!(read_u64_le(&bytes, 1), 0x0908_0706_0504_0302);
    let mut out = Vec::new();
    push_u16_le(&mut out, 0xbeef);
    push_u32_le(&mut out, 0xdead_beef);
    push_u64_le(&mut out, 0x0123_4567_89ab_cdef);
    assert_eq!(
        out,
        [
            0xef, 0xbe, 0xef, 0xbe, 0xad, 0xde, 0xef, 0xcd, 0xab, 0x89, 0x67, 0x45, 0x23, 0x01
        ]
    );
    let mut out = Vec::new();
    push_u64_le(&mut out, u64::MAX);
    push_u32_le(&mut out, 0);
    assert_eq!(read_u64_le(&out, 0), u64::MAX);
    assert_eq!(read_u32_le(&out, 8), 0);
    assert_eq!(out, [u64::MAX.to_le_bytes().to_vec(), 0u32.to_le_bytes().to_vec()].concat());
}

#[test]
fn every_error_has_its_text() {
    let texts = [
        (DecoderError::ExpectedAckButGotOther, "Expected ACK but got unexpected byte"),
        (
            DecoderError::NoMoreSubscriptionSpace,
            "Attempted to add a subscription, but subscription space is full",
        ),
        (DecoderError::FrameTooLarge, "Was asked to decode a frame which is larger than 64 bytes"),
        (
            DecoderError::NoSubscription,
            "Was asked to decode a frame for channel that we have no subscription for",
        ),
        (
            DecoderError::SubscriptionTimeMismatch,
            "Was asked to decode a frame with timestamp thats invalid for our subscription.",
        ),
        (DecoderError::SerializationFailed, "Failed to serialize subscription updates for flash"),
        (DecoderError::SavingFailed, "Failed to save subscriptions to flash"),
        (
            DecoderError::FailedDecryption,
            "Failed to decrypt a encrypted payload. This can mean that you used a subscription for a different decoder, or that your message was corrupted or tampered with.",
        ),
        (DecoderError::FrameOutOfOrder, "Was asked to decode a frame with timestamp in the past"),
        (
            DecoderError::PacketWrongSize,
            "Received a packet which has a constant expected size with an invalid size for the packet type",
        ),
        (DecoderError::InvalidCommand, "Received a command with a type byte that is not L, S, or D"),
    ];
    for (error, text) in texts {
        assert_eq!(error.message(), text);
        assert!(text.len() < 256);
    }
}

#[test]
fn subscription_is_read_from_its_bytes() {
    let mut plaintext = vec![0x07, 0x00, 0x00, 0x01];
    plaintext.extend_from_slice(&[0x64, 0, 0, 0, 0, 0, 0, 0]);
    plaintext.extend_from_slice(&[0xC8, 0, 0, 0, 0, 0, 0, 0x80]);
    let key: [u8; 32] = core::array::from_fn(|i| 0xA0 + i as u8);
    plaintext.extend_from_slice(&key);
    assert_eq!(
        parse_subscription(&plaintext),
        Subscription {
            channel_id: 0x0100_0007,
            start_time: 100,
            end_time: 0x8000_0000_0000_00C8,
            channel_key: key,
        }
    );
}
