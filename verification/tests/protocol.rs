use chacha20poly1305::aead::AeadInPlace;
use chacha20poly1305::{KeyInit, XChaCha20Poly1305};
use decoder::cmd_logic::{check_request, report_error, run_command, SUBSCRIPTION_MESSAGE_SIZE};
use decoder::crypto::{CHANNEL_0_KEY, DECODER_KEY};
use decoder::decoder::Decoder;
use decoder::flash::{DecoderStorage, FlashPage};
use decoder::host_comms::{
    DecoderConsole, DecoderError, DecoderMessageType, DecoderPacketHeader, LinkEvent, LinkState,
};
use decoder::led::Led;
use decoder::timer::{DecoderClock, TRANSACTION_TIME_TICKS};
use ed25519_dalek::{Signer, SigningKey};

const SIGNING_KEY: [u8; 32] = [
    0x9d, 0x61, 0xb1, 0x9d, 0xef, 0xfd, 0x5a, 0x60, 0xba, 0x84, 0x4a, 0xf4, 0x92, 0xec, 0x2c, 0xc4,
    0x44, 0x49, 0xc5, 0x69, 0x7b, 0x32, 0x69, 0x19, 0x70, 0x3b, 0xac, 0x03, 0x1c, 0xae, 0x7f, 0x60,
];

const ACK: [u8; 4] = [b'%', b'A', 0, 0];

/// Nonce, tag, signature and ciphertext of a plaintext, as the encoder
/// makes them: signed in the clear, then encrypted.
fn seal(key: &[u8; 32], nonce_seed: u8, plaintext: &[u8]) -> Vec<u8> {
    let nonce = [nonce_seed; 24];
    let signature = SigningKey::from_bytes(&SIGNING_KEY).sign(plaintext).to_bytes();
    let mut buffer = plaintext.to_vec();
    let tag = XChaCha20Poly1305::new(key.into())
        .encrypt_in_place_detached((&nonce).into(), &[], &mut buffer)
        .unwrap();
    let mut out = Vec::new();
    out.extend_from_slice(&nonce);
    out.extend_from_slice(&tag);
    out.extend_from_slice(&signature);
    out.extend_from_slice(&buffer);
    out
}

fn subscription_body(channel: u32, start: u64, end: u64, key: &[u8; 32], nonce_seed: u8) -> Vec<u8> {
    let mut plaintext = Vec::new();
    plaintext.extend_from_slice(&channel.to_le_bytes());
    plaintext.extend_from_slice(&start.to_le_bytes());
    plaintext.extend_from_slice(&end.to_le_bytes());
    plaintext.extend_from_slice(key);
    seal(&DECODER_KEY, nonce_seed, &plaintext)
}

fn frame_body(channel: u32, key: &[u8; 32], timestamp: u64, frame: &[u8], nonce_seed: u8) -> Vec<u8> {
    let mut plaintext = Vec::new();
    plaintext.extend_from_slice(&timestamp.to_le_bytes());
    plaintext.extend_from_slice(frame);
    let mut body = channel.to_le_bytes().to_vec();
    body.extend_from_slice(&seal(key, nonce_seed, &plaintext));
    body
}

fn header(command: u8, len: usize) -> Vec<u8> {
    vec![b'%', command, (len % 256) as u8, (len / 256) as u8]
}

/// The decoder with its peripherals simulated: the wire collects what it
/// sends, `now` is the tick counter.
struct Device {
    console: DecoderConsole,
    decoder: Decoder,
    led: Led,
    clock: DecoderClock,
    now: u32,
    nonce_counter: u8,
}

impl Device {
    fn boot(flash: FlashPage) -> Device {
        let storage = DecoderStorage::init(flash).unwrap();
        let mut led = Led::new();
        led.green();
        Device {
            console: DecoderConsole::new(),
            decoder: Decoder::new(storage),
            led,
            clock: DecoderClock::new(0),
            now: 1000,
            nonce_counter: 0,
        }
    }

    fn power_cycle(self) -> Device {
        let now = self.now;
        let mut device = Device::boot(self.decoder.into_storage().into_flash());
        device.now = now;
        device
    }

    /// Hands the device the bytes one by one and returns what it sent and
    /// the first error, if a request failed.
    fn feed(&mut self, bytes: &[u8]) -> (Vec<u8>, Result<(), DecoderError>) {
        let mut sent = Vec::new();
        for byte in bytes {
            self.nonce_counter = self.nonce_counter.wrapping_add(1);
            self.decoder.load_nonce([self.nonce_counter; 24]);
            self.now = self.now.wrapping_add(50);
            let done = run_command(
                &mut self.console,
                &mut self.decoder,
                &mut self.led,
                &mut self.clock,
                *byte,
                self.now,
            );
            sent.extend(self.console.take_output());
            if done.is_err() {
                return (sent, done);
            }
        }
        (sent, Ok(()))
    }

    /// Lets the transaction time pass and has the error reported; returns
    /// the ticks waited and what was sent.
    fn settle(&mut self) -> (u32, Vec<u8>) {
        let wait = report_error(&mut self.console, &self.clock, self.now);
        assert!(self.console.take_output().is_empty() || wait == 0);
        self.now = self.now.wrapping_add(wait);
        let again = report_error(&mut self.console, &self.clock, self.now);
        assert_eq!(again, 0);
        (wait, self.console.take_output())
    }

    /// Plays the host's side of a request whose body is sent in one chunk:
    /// returns the command byte and the payload of the response.
    fn request(&mut self, command: u8, body: &[u8]) -> Result<(u8, Vec<u8>), DecoderError> {
        let (sent, done) = self.feed(&header(command, body.len()));
        done?;
        assert_eq!(&sent[..4], ACK);
        let mut sent = sent[4..].to_vec();
        if !body.is_empty() {
            assert!(sent.is_empty());
            let (acks, done) = self.feed(body);
            match done {
                Ok(()) => {
                    assert_eq!(&acks[..8], [ACK, ACK].concat());
                    sent = acks[8..].to_vec();
                },
                Err(e) => {
                    assert_eq!(acks, [ACK, ACK].concat());
                    return Err(e);
                },
            }
        }
        assert_eq!(sent.len(), 4);
        assert_eq!(sent[0], b'%');
        let response = sent[1];
        let len = sent[2] as usize + 256 * sent[3] as usize;
        let (payload, done) = self.feed(&ACK);
        done?;
        if response == b'S' {
            assert!(payload.is_empty());
            return Ok((response, payload));
        }
        assert_eq!(payload.len(), len);
        if len > 0 {
            let (more, done) = self.feed(&ACK);
            done?;
            assert!(more.is_empty());
        }
        let (more, done) = self.feed(&ACK);
        done?;
        assert!(more.is_empty());
        assert_eq!(self.led.get_lights(), (false, true, false));
        Ok((response, payload))
    }

    /// Plays the host's side of an error report: returns the ticks that
    /// the device waited and the text.
    fn error_report(&mut self) -> (u32, String) {
        let (wait, sent) = self.settle();
        assert_eq!(&sent[..2], b"%E");
        let len = sent[2] as usize + 256 * sent[3] as usize;
        assert_eq!(sent.len(), 4);
        let (payload, done) = self.feed(&ACK);
        assert!(done.is_ok());
        assert_eq!(payload.len(), len);
        let (more, done) = self.feed(&[ACK, ACK].concat());
        assert!(done.is_ok());
        assert!(more.is_empty());
        assert_eq!(self.console.state(), LinkState::AwaitMagic);
        (wait, String::from_utf8(payload).unwrap())
    }
}

fn list_entry(channel: u32, start: u64, end: u64) -> Vec<u8> {
    let mut entry = channel.to_le_bytes().to_vec();
    entry.extend_from_slice(&start.to_le_bytes());
    entry.extend_from_slice(&end.to_le_bytes());
    entry
}

#[test]
fn fresh_boot_list() {
    let mut device = Device::boot(FlashPage::erased());
    let (sent, done) = device.feed(&[b'%', b'L', 0x00, 0x00]);
    assert!(done.is_ok());
    assert_eq!(sent, [b'%', b'A', 0, 0, b'%', b'L', 0x04, 0x00]);
    assert_eq!(device.led.get_lights(), (false, true, true));
    let (sent, done) = device.feed(&ACK);
    assert!(done.is_ok());
    assert_eq!(sent, [0, 0, 0, 0]);
    let (sent, done) = device.feed(&ACK);
    assert!(done.is_ok());
    assert!(sent.is_empty());
    assert_ne!(device.console.state(), LinkState::AwaitMagic);
    let (sent, done) = device.feed(&ACK);
    assert!(done.is_ok());
    assert!(sent.is_empty());
    assert_eq!(device.console.state(), LinkState::AwaitMagic);
}

#[test]
fn subscribe_then_list() {
    let mut device = Device::boot(FlashPage::erased());
    let key = [0x5a; 32];
    let response = device.request(b'S', &subscription_body(7, 100, 200, &key, 1)).unwrap();
    assert_eq!(response, (b'S', vec![]));
    let (command, payload) = device.request(b'L', &[]).unwrap();
    assert_eq!(command, b'L');
    assert_eq!(payload, [1u32.to_le_bytes().to_vec(), list_entry(7, 100, 200)].concat());
    assert_eq!(payload.len(), 24);
}

#[test]
fn channel_zero_decode() {
    let mut device = Device::boot(FlashPage::erased());
    let body = frame_body(0, &CHANNEL_0_KEY, 0, b"hello", 3);
    assert_eq!(body.len(), 116 + 5);
    let response = device.request(b'D', &body).unwrap();
    assert_eq!(response, (b'D', b"hello".to_vec()));
}

#[test]
fn reboot_persistence() {
    let mut device = Device::boot(FlashPage::erased());
    let key = [0x33; 32];
    device.request(b'S', &subscription_body(3, 5, 50, &key, 9)).unwrap();
    let mut device = device.power_cycle();
    let (command, payload) = device.request(b'L', &[]).unwrap();
    assert_eq!(command, b'L');
    assert_eq!(payload, [1u32.to_le_bytes().to_vec(), list_entry(3, 5, 50)].concat());
    let frame = device.request(b'D', &frame_body(3, &key, 20, b"still here", 4)).unwrap();
    assert_eq!(frame, (b'D', b"still here".to_vec()));
}

#[test]
fn replay_attack() {
    let mut device = Device::boot(FlashPage::erased());
    let first = device.request(b'D', &frame_body(0, &CHANNEL_0_KEY, 1_000_000, b"new", 1)).unwrap();
    assert_eq!(first, (b'D', b"new".to_vec()));
    let started = device.now;
    let second = device.request(b'D', &frame_body(0, &CHANNEL_0_KEY, 999_999, b"old", 2));
    assert_eq!(second, Err(DecoderError::FrameOutOfOrder));
    assert_eq!(device.console.state(), LinkState::Faulted(DecoderError::FrameOutOfOrder));
    let (wait, text) = device.error_report();
    assert!(wait > 0);
    assert!(device.now.wrapping_sub(started) >= TRANSACTION_TIME_TICKS);
    assert_eq!(text, "Was asked to decode a frame with timestamp in the past");
}

#[test]
fn forged_signature() {
    let mut device = Device::boot(FlashPage::erased());
    let mut body = frame_body(0, &CHANNEL_0_KEY, 10, b"frame", 1);
    let last_of_signature = 4 + 24 + 16 + 64 - 1;
    body[last_of_signature] ^= 0x01;
    let started = device.now;
    let response = device.request(b'D', &body);
    assert_eq!(response, Err(DecoderError::FailedDecryption));
    let (_, text) = device.error_report();
    assert!(device.now.wrapping_sub(started) >= TRANSACTION_TIME_TICKS);
    assert_eq!(text, DecoderError::FailedDecryption.message());
    let good = device.request(b'D', &frame_body(0, &CHANNEL_0_KEY, 10, b"frame", 1)).unwrap();
    assert_eq!(good, (b'D', b"frame".to_vec()));
}

#[test]
fn error_is_not_sent_before_the_deadline() {
    let mut device = Device::boot(FlashPage::erased());
    let (sent, done) = device.feed(&[b'%', b'L', 0x01, 0x00]);
    assert_eq!(done, Err(DecoderError::PacketWrongSize));
    assert_eq!(sent, ACK);
    let header_read_at = device.now;
    device.now = header_read_at.wrapping_add(TRANSACTION_TIME_TICKS - 1);
    let wait = report_error(&mut device.console, &device.clock, device.now);
    assert_eq!(wait, 1);
    assert!(device.console.take_output().is_empty());
    assert_eq!(device.console.state(), LinkState::Faulted(DecoderError::PacketWrongSize));
    device.now = device.now.wrapping_add(wait);
    let wait = report_error(&mut device.console, &device.clock, device.now);
    assert_eq!(wait, 0);
    let sent = device.console.take_output();
    let text = DecoderError::PacketWrongSize.message();
    assert_eq!(sent, [b'%', b'E', text.len() as u8, 0]);
    assert_eq!(device.console.state(), LinkState::AwaitAckMagic);
}

#[test]
fn successful_request_does_not_wait() {
    let mut device = Device::boot(FlashPage::erased());
    let started = device.now;
    device.request(b'L', &[]).unwrap();
    assert!(device.now.wrapping_sub(started) < TRANSACTION_TIME_TICKS);
    assert_eq!(report_error(&mut device.console, &device.clock, device.now), 0);
    assert!(device.console.take_output().is_empty());
}

#[test]
fn bytes_are_refused_while_an_error_waits() {
    let mut device = Device::boot(FlashPage::erased());
    let (_, done) = device.feed(&[b'%', b'X']);
    assert_eq!(done, Err(DecoderError::InvalidCommand));
    let before = device.console.state();
    let (sent, done) = device.feed(&[b'%']);
    assert_eq!(done, Err(DecoderError::InvalidCommand));
    assert!(sent.is_empty());
    assert_eq!(device.console.state(), before);
    assert_eq!(device.console.receive(b'%'), LinkEvent::Refused);
}

#[test]
fn invalid_command_is_reported() {
    let mut device = Device::boot(FlashPage::erased());
    let (sent, done) = device.feed(&[b'%', b'Q']);
    assert_eq!(done, Err(DecoderError::InvalidCommand));
    assert!(sent.is_empty());
    let (wait, text) = device.error_report();
    assert_eq!(wait, TRANSACTION_TIME_TICKS);
    assert_eq!(text, "Received a command with a type byte that is not L, S, or D");
    let response = device.request(b'L', &[]).unwrap();
    assert_eq!(response, (b'L', vec![0, 0, 0, 0]));
}

#[test]
fn acknowledgment_as_a_request_is_an_invalid_command() {
    let mut device = Device::boot(FlashPage::erased());
    let (_, done) = device.feed(&ACK[..2]);
    assert_eq!(done, Err(DecoderError::InvalidCommand));
}

#[test]
fn stray_bytes_before_the_magic_are_dropped() {
    let mut device = Device::boot(FlashPage::erased());
    let (sent, done) = device.feed(&[0x00, 0xff, b'L', b'A', 0x0a, b'%', b'L', 0, 0]);
    assert!(done.is_ok());
    assert_eq!(sent, [b'%', b'A', 0, 0, b'%', b'L', 0x04, 0x00]);
}

#[test]
fn list_with_a_body_is_the_wrong_size() {
    let mut device = Device::boot(FlashPage::erased());
    let (sent, done) = device.feed(&[b'%', b'L', 0x04, 0x00]);
    assert_eq!(done, Err(DecoderError::PacketWrongSize));
    assert_eq!(sent, ACK);
    assert_eq!(device.led.get_lights(), (false, true, true));
    let (_, text) = device.error_report();
    assert_eq!(
        text,
        "Received a packet which has a constant expected size with an invalid size for the packet type"
    );
}

#[test]
fn subscription_of_the_wrong_size_is_rejected_before_its_body() {
    let mut device = Device::boot(FlashPage::erased());
    let (sent, done) = device.feed(&header(b'S', 155));
    assert_eq!(done, Err(DecoderError::PacketWrongSize));
    assert_eq!(sent, ACK);
    assert_eq!(device.led.get_lights(), (true, true, false));
    assert_eq!(SUBSCRIPTION_MESSAGE_SIZE, 156);
    let mut device = Device::boot(FlashPage::erased());
    let (_, done) = device.feed(&header(b'S', 157));
    assert_eq!(done, Err(DecoderError::PacketWrongSize));
}

#[test]
fn frame_of_more_than_64_bytes_is_too_large() {
    let mut device = Device::boot(FlashPage::erased());
    let (sent, done) = device.feed(&header(b'D', 116 + 65));
    assert_eq!(done, Err(DecoderError::FrameTooLarge));
    assert_eq!(sent, ACK);
    assert_eq!(device.led.get_lights(), (true, false, true));
    let (_, text) = device.error_report();
    assert_eq!(text, "Was asked to decode a frame which is larger than 64 bytes");
    let frame = [0xabu8; 64];
    let response = device.request(b'D', &frame_body(0, &CHANNEL_0_KEY, 1, &frame, 7)).unwrap();
    assert_eq!(response, (b'D', frame.to_vec()));
}

#[test]
fn frame_request_without_room_for_a_timestamp_is_too_large() {
    let mut device = Device::boot(FlashPage::erased());
    let (_, done) = device.feed(&header(b'D', 115));
    assert_eq!(done, Err(DecoderError::FrameTooLarge));
    let mut device = Device::boot(FlashPage::erased());
    let (_, done) = device.feed(&header(b'D', 0));
    assert_eq!(done, Err(DecoderError::FrameTooLarge));
}

#[test]
fn empty_frame_is_decoded() {
    let mut device = Device::boot(FlashPage::erased());
    let response = device.request(b'D', &frame_body(0, &CHANNEL_0_KEY, 5, b"", 1)).unwrap();
    assert_eq!(response, (b'D', vec![]));
}

#[test]
fn request_sizes_are_checked() {
    let header = |msg_type, size| DecoderPacketHeader { msg_type, size };
    assert_eq!(check_request(&header(DecoderMessageType::List, 0)), Ok(()));
    assert_eq!(check_request(&header(DecoderMessageType::List, 1)), Err(DecoderError::PacketWrongSize));
    assert_eq!(check_request(&header(DecoderMessageType::Subscribe, 156)), Ok(()));
    assert_eq!(
        check_request(&header(DecoderMessageType::Subscribe, 0)),
        Err(DecoderError::PacketWrongSize)
    );
    assert_eq!(check_request(&header(DecoderMessageType::Decode, 116)), Ok(()));
    assert_eq!(check_request(&header(DecoderMessageType::Decode, 180)), Ok(()));
    assert_eq!(check_request(&header(DecoderMessageType::Decode, 181)), Err(DecoderError::FrameTooLarge));
    assert_eq!(check_request(&header(DecoderMessageType::Decode, 115)), Err(DecoderError::FrameTooLarge));
}

#[test]
fn subscription_for_another_decoder_fails_decryption() {
    let mut device = Device::boot(FlashPage::erased());
    let mut plaintext = Vec::new();
    plaintext.extend_from_slice(&7u32.to_le_bytes());
    plaintext.extend_from_slice(&1u64.to_le_bytes());
    plaintext.extend_from_slice(&2u64.to_le_bytes());
    plaintext.extend_from_slice(&[1u8; 32]);
    let other_decoder_key = [0x77u8; 32];
    let response = device.request(b'S', &seal(&other_decoder_key, 1, &plaintext));
    assert_eq!(response, Err(DecoderError::FailedDecryption));
    let (_, text) = device.error_report();
    assert_eq!(text, DecoderError::FailedDecryption.message());
    let (_, payload) = device.request(b'L', &[]).unwrap();
    assert_eq!(payload, [0, 0, 0, 0]);
}

#[test]
fn flipped_bits_of_a_subscription_fail_decryption() {
    let good = subscription_body(7, 100, 200, &[9u8; 32], 1);
    for position in [0usize, 23, 24, 39, 40, 103, 104, 155] {
        for bit in [0x01u8, 0x80] {
            let mut device = Device::boot(FlashPage::erased());
            let mut body = good.clone();
            body[position] ^= bit;
            assert_eq!(device.request(b'S', &body), Err(DecoderError::FailedDecryption));
        }
    }
    let mut device = Device::boot(FlashPage::erased());
    assert_eq!(device.request(b'S', &good), Ok((b'S', vec![])));
}

#[test]
fn flipped_bits_of_a_frame_fail_decryption() {
    let good = frame_body(0, &CHANNEL_0_KEY, 77, b"payload", 1);
    for position in 4..good.len() {
        let mut device = Device::boot(FlashPage::erased());
        let mut body = good.clone();
        body[position] ^= 0x10;
        assert_eq!(device.request(b'D', &body), Err(DecoderError::FailedDecryption));
    }
}

#[test]
fn frame_for_an_unknown_channel_has_no_subscription() {
    let mut device = Device::boot(FlashPage::erased());
    let response = device.request(b'D', &frame_body(9, &[1u8; 32], 1, b"x", 1));
    assert_eq!(response, Err(DecoderError::NoSubscription));
    let (_, text) = device.error_report();
    assert_eq!(text, "Was asked to decode a frame for channel that we have no subscription for");
}

#[test]
fn frame_outside_the_window_is_a_time_mismatch() {
    let mut device = Device::boot(FlashPage::erased());
    let key = [0x42u8; 32];
    device.request(b'S', &subscription_body(7, 100, 200, &key, 1)).unwrap();
    assert_eq!(
        device.request(b'D', &frame_body(7, &key, 99, b"early", 2)),
        Err(DecoderError::SubscriptionTimeMismatch)
    );
    let (_, text) = device.error_report();
    assert_eq!(
        text,
        "Was asked to decode a frame with timestamp thats invalid for our subscription."
    );
    assert_eq!(
        device.request(b'D', &frame_body(7, &key, 201, b"late", 3)),
        Err(DecoderError::SubscriptionTimeMismatch)
    );
    device.error_report();
    assert_eq!(device.request(b'D', &frame_body(7, &key, 100, b"first", 4)), Ok((b'D', b"first".to_vec())));
    assert_eq!(device.request(b'D', &frame_body(7, &key, 200, b"last", 5)), Ok((b'D', b"last".to_vec())));
}

#[test]
fn ninth_channel_finds_no_space() {
    let mut device = Device::boot(FlashPage::erased());
    for channel in 1..=8u32 {
        let body = subscription_body(channel, 0, 10, &[channel as u8; 32], channel as u8);
        assert_eq!(device.request(b'S', &body), Ok((b'S', vec![])));
    }
    let ninth = subscription_body(9, 0, 10, &[9u8; 32], 9);
    assert_eq!(device.request(b'S', &ninth), Err(DecoderError::NoMoreSubscriptionSpace));
    let (_, text) = device.error_report();
    assert_eq!(text, "Attempted to add a subscription, but subscription space is full");
    let update = subscription_body(4, 20, 30, &[0x44u8; 32], 10);
    assert_eq!(device.request(b'S', &update), Ok((b'S', vec![])));
    let (_, payload) = device.request(b'L', &[]).unwrap();
    assert_eq!(&payload[..4], 8u32.to_le_bytes());
    assert_eq!(payload.len(), 4 + 8 * 20);
    assert_eq!(&payload[4 + 3 * 20..4 + 4 * 20], list_entry(4, 20, 30));
}

#[test]
fn subscription_for_channel_zero_is_not_stored() {
    let mut device = Device::boot(FlashPage::erased());
    let body = subscription_body(0, 0, 10, &[1u8; 32], 1);
    assert_eq!(device.request(b'S', &body), Err(DecoderError::NoMoreSubscriptionSpace));
    device.error_report();
    let (_, payload) = device.request(b'L', &[]).unwrap();
    assert_eq!(payload, [0, 0, 0, 0]);
}

#[test]
fn something_else_than_an_acknowledgment_fails_the_response() {
    let mut device = Device::boot(FlashPage::erased());
    let (_, done) = device.feed(&[b'%', b'L', 0, 0]);
    assert!(done.is_ok());
    let (sent, done) = device.feed(&[b'x', b'%', b'L']);
    assert_eq!(done, Err(DecoderError::ExpectedAckButGotOther));
    assert!(sent.is_empty());
    let (wait, sent) = device.settle();
    assert!(wait > 0);
    let text = "Expected ACK but got unexpected byte";
    assert_eq!(sent, [b'%', b'E', text.len() as u8, 0]);
    let (sent, done) = device.feed(&ACK);
    assert!(done.is_ok());
    assert_eq!(sent, text.as_bytes());
}

#[test]
fn failed_acknowledgment_of_an_error_report_is_let_go() {
    let mut device = Device::boot(FlashPage::erased());
    let (_, done) = device.feed(&[b'%', b'?']);
    assert_eq!(done, Err(DecoderError::InvalidCommand));
    let (_, sent) = device.settle();
    assert_eq!(&sent[..2], b"%E");
    let (sent, done) = device.feed(&[b'%', b'N']);
    assert!(done.is_ok());
    assert!(sent.is_empty());
    assert_eq!(device.console.state(), LinkState::AwaitMagic);
    assert_eq!(device.led.get_lights(), (false, true, false));
}

#[test]
fn write_protected_flash_fails_saving() {
    let mut flash = FlashPage::erased();
    let mut formatted = DecoderStorage::init(flash).unwrap();
    formatted.take_journal();
    flash = formatted.into_flash();
    flash.disable_page_write();
    let mut device = Device::boot(flash);
    let body = subscription_body(7, 100, 200, &[1u8; 32], 1);
    assert_eq!(device.request(b'S', &body), Err(DecoderError::SavingFailed));
    let (_, text) = device.error_report();
    assert_eq!(text, "Failed to save subscriptions to flash");
    let (_, payload) = device.request(b'L', &[]).unwrap();
    assert_eq!(payload, [0, 0, 0, 0]);
}

#[test]
fn debug_message_needs_no_acknowledgment() {
    let mut console = DecoderConsole::new();
    console.print_debug("hi");
    assert_eq!(console.take_output(), [b'%', b'G', 2, 0, b'h', b'i']);
    assert_eq!(console.state(), LinkState::AwaitMagic);
}
