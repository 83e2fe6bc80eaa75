use chacha20poly1305::aead::AeadInPlace;
use chacha20poly1305::{KeyInit, XChaCha20Poly1305};
use decoder::crypto::CHANNEL_0_KEY;
use decoder::decoder::{
    check_table, Decoder, Subscription, MAX_FRAME_BYTES, MAX_SUBSCRIPTION_COUNT, TIMESTAMP_BYTES,
};
use decoder::flash::{DecoderStorage, FlashPage};
use decoder::host_comms::DecoderError;
use ed25519_dalek::{Signer, SigningKey};

const SIGNING_KEY: [u8; 32] = [
    0x9d, 0x61, 0xb1, 0x9d, 0xef, 0xfd, 0x5a, 0x60, 0xba, 0x84, 0x4a, 0xf4, 0x92, 0xec, 0x2c, 0xc4,
    0x44, 0x49, 0xc5, 0x69, 0x7b, 0x32, 0x69, 0x19, 0x70, 0x3b, 0xac, 0x03, 0x1c, 0xae, 0x7f, 0x60,
];

const NONCE: [u8; 24] = [0x24; 24];

struct Frame {
    tag: [u8; 16],
    signature: [u8; 64],
    payload: heapless::Vec<u8, 1024>,
}

fn frame(key: &[u8; 32], timestamp: u64, body: &[u8]) -> Frame {
    let mut plaintext = timestamp.to_le_bytes().to_vec();
    plaintext.extend_from_slice(body);
    let signature = SigningKey::from_bytes(&SIGNING_KEY).sign(&plaintext).to_bytes();
    let tag = XChaCha20Poly1305::new(key.into())
        .encrypt_in_place_detached((&NONCE).into(), &[], &mut plaintext)
        .unwrap();
    Frame { tag: tag.into(), signature, payload: heapless::Vec::from_slice(&plaintext).unwrap() }
}

fn decode(decoder: &mut Decoder, channel: u32, key: &[u8; 32], timestamp: u64, body: &[u8]) -> Result<
    Vec<u8>,
    DecoderError,
> {
    let mut sealed = frame(key, timestamp, body);
    decoder
        .decode_frame(channel, &NONCE, &sealed.tag, &sealed.signature, &mut sealed.payload)
        .map(|frame| frame.to_vec())
}

fn fresh() -> Decoder {
    Decoder::new(DecoderStorage::init(FlashPage::erased()).unwrap())
}

fn reboot(decoder: Decoder) -> Decoder {
    Decoder::new(DecoderStorage::init(decoder.into_storage().into_flash()).unwrap())
}

fn sub(channel_id: u32, start_time: u64, end_time: u64) -> Subscription {
    Subscription { channel_id, start_time, end_time, channel_key: [channel_id as u8; 32] }
}

fn register(decoder: &mut Decoder, sub: Subscription, seed: u8) -> Result<(), DecoderError> {
    decoder.load_nonce([seed; 24]);
    decoder.register_subscription(sub)
}

#[test]
fn table_has_eight_slots() {
    assert_eq!(MAX_SUBSCRIPTION_COUNT, 8);
    assert_eq!(MAX_FRAME_BYTES, 64);
    assert_eq!(TIMESTAMP_BYTES, 8);
    let decoder = fresh();
    assert_eq!(decoder.get_subscriptions(), [None; 8]);
}

#[test]
fn subscriptions_fill_the_first_empty_slot() {
    let mut decoder = fresh();
    assert_eq!(register(&mut decoder, sub(5, 1, 2), 1), Ok(()));
    assert_eq!(register(&mut decoder, sub(3, 10, 20), 2), Ok(()));
    let slots = decoder.get_subscriptions();
    assert_eq!(slots[0], Some(sub(5, 1, 2)));
    assert_eq!(slots[1], Some(sub(3, 10, 20)));
    assert!(slots[2..].iter().all(|slot| slot.is_none()));
    assert_eq!(decoder.get_subscription(3), Some(&sub(3, 10, 20)));
    assert_eq!(decoder.get_subscription(5), Some(&sub(5, 1, 2)));
    assert_eq!(decoder.get_subscription(4), None);
    assert_eq!(decoder.get_subscription(0), None);
}

#[test]
fn subscription_for_a_present_channel_updates_in_place() {
    let mut decoder = fresh();
    for channel in 1..=8 {
        assert_eq!(register(&mut decoder, sub(channel, 0, 9), channel as u8), Ok(()));
    }
    let renewed = Subscription { channel_id: 6, start_time: 100, end_time: 900, channel_key: [0xF6; 32] };
    assert_eq!(register(&mut decoder, renewed, 20), Ok(()));
    let slots = decoder.get_subscriptions();
    for channel in 1..=8u32 {
        let expected = if channel == 6 { renewed } else { sub(channel, 0, 9) };
        assert_eq!(slots[channel as usize - 1], Some(expected));
    }
}

#[test]
fn ninth_distinct_channel_is_refused() {
    let mut decoder = fresh();
    for channel in 1..=8 {
        assert_eq!(register(&mut decoder, sub(channel * 10, 0, 9), channel as u8), Ok(()));
    }
    let before = decoder.get_subscriptions().to_vec();
    assert_eq!(register(&mut decoder, sub(9, 0, 9), 9), Err(DecoderError::NoMoreSubscriptionSpace));
    assert_eq!(decoder.get_subscriptions(), before);
    assert_eq!(register(&mut decoder, sub(80, 5, 6), 10), Ok(()));
    assert_eq!(decoder.get_subscription(80), Some(&sub(80, 5, 6)));
}

#[test]
fn subscriptions_that_no_table_may_hold_are_refused() {
    let mut decoder = fresh();
    assert_eq!(register(&mut decoder, sub(0, 0, 9), 1), Err(DecoderError::NoMoreSubscriptionSpace));
    assert_eq!(register(&mut decoder, sub(4, 10, 9), 2), Err(DecoderError::NoMoreSubscriptionSpace));
    assert_eq!(decoder.get_subscriptions(), [None; 8]);
    assert_eq!(register(&mut decoder, sub(4, 9, 9), 3), Ok(()));
    assert_eq!(register(&mut decoder, sub(4, 10, 9), 4), Err(DecoderError::NoMoreSubscriptionSpace));
    assert_eq!(decoder.get_subscription(4), Some(&sub(4, 9, 9)));
}

#[test]
fn table_survives_every_reboot() {
    let mut decoder = fresh();
    let updates = [
        sub(3, 5, 50),
        sub(0xFFFF_FFFF, 0, u64::MAX),
        sub(3, 7, 70),
        sub(1, u64::MAX, u64::MAX),
        sub(300, 1 << 40, 1 << 50),
        sub(128, 127, 128),
    ];
    for (i, update) in updates.iter().enumerate() {
        assert_eq!(register(&mut decoder, *update, i as u8), Ok(()));
        let table = decoder.get_subscriptions().to_vec();
        decoder = reboot(decoder);
        assert_eq!(decoder.get_subscriptions(), table);
    }
    assert_eq!(decoder.get_subscription(3), Some(&sub(3, 7, 70)));
    assert_eq!(decoder.get_subscriptions().iter().flatten().count(), 5);
}

#[test]
fn table_is_stored_in_the_serializer_s_format() {
    let mut decoder = fresh();
    let entry = Subscription { channel_id: 300, start_time: 5, end_time: 128, channel_key: [0xCD; 32] };
    assert_eq!(register(&mut decoder, entry, 1), Ok(()));
    let mut storage = DecoderStorage::init(decoder.into_storage().into_flash()).unwrap();
    let stored = storage.get_buf_mut().to_vec();
    let mut expected = vec![0x01, 0xAC, 0x02, 0x05, 0x80, 0x01];
    expected.extend_from_slice(&[0xCD; 32]);
    expected.extend_from_slice(&[0x00; 7]);
    assert_eq!(stored, expected);
}

#[test]
fn registering_without_a_fresh_nonce_fails_and_changes_nothing() {
    let mut decoder = fresh();
    assert_eq!(register(&mut decoder, sub(1, 0, 9), 1), Ok(()));
    assert_eq!(decoder.register_subscription(sub(2, 0, 9)), Err(DecoderError::SavingFailed));
    assert_eq!(decoder.get_subscription(2), None);
    assert_eq!(decoder.get_subscription(1), Some(&sub(1, 0, 9)));
    let decoder = reboot(decoder);
    assert_eq!(decoder.get_subscription(2), None);
    assert_eq!(decoder.get_subscription(1), Some(&sub(1, 0, 9)));
}

#[test]
fn registering_writes_the_flash_before_it_returns() {
    let mut decoder = fresh();
    decoder.take_flash_journal();
    assert_eq!(register(&mut decoder, sub(1, 0, 9), 1), Ok(()));
    let journal = decoder.take_flash_journal();
    assert!(journal.len() > 5);
    assert!(decoder.take_flash_journal().is_empty());
}

#[test]
fn emergency_channel_needs_no_subscription() {
    let mut decoder = fresh();
    assert_eq!(decode(&mut decoder, 0, &CHANNEL_0_KEY, 0, b"hello"), Ok(b"hello".to_vec()));
    assert_eq!(decode(&mut decoder, 0, &CHANNEL_0_KEY, u64::MAX, b"end"), Ok(b"end".to_vec()));
}

#[test]
fn frame_needs_a_subscription() {
    let mut decoder = fresh();
    assert_eq!(decode(&mut decoder, 7, &[7; 32], 5, b"x"), Err(DecoderError::NoSubscription));
    assert_eq!(register(&mut decoder, sub(7, 1, 9), 1), Ok(()));
    assert_eq!(decode(&mut decoder, 7, &[7; 32], 5, b"x"), Ok(b"x".to_vec()));
    assert_eq!(decode(&mut decoder, 8, &[7; 32], 6, b"x"), Err(DecoderError::NoSubscription));
}

#[test]
fn frame_under_the_wrong_key_fails_decryption() {
    let mut decoder = fresh();
    assert_eq!(register(&mut decoder, sub(7, 1, 9), 1), Ok(()));
    assert_eq!(decode(&mut decoder, 7, &[8; 32], 5, b"x"), Err(DecoderError::FailedDecryption));
    assert_eq!(decode(&mut decoder, 0, &[7; 32], 5, b"x"), Err(DecoderError::FailedDecryption));
    assert_eq!(decode(&mut decoder, 7, &CHANNEL_0_KEY, 5, b"x"), Err(DecoderError::FailedDecryption));
}

#[test]
fn window_is_inclusive_at_both_ends() {
    let mut decoder = fresh();
    assert_eq!(register(&mut decoder, sub(7, 100, 200), 1), Ok(()));
    assert_eq!(decode(&mut decoder, 7, &[7; 32], 99, b"a"), Err(DecoderError::SubscriptionTimeMismatch));
    assert_eq!(decode(&mut decoder, 7, &[7; 32], 0, b"a"), Err(DecoderError::SubscriptionTimeMismatch));
    assert_eq!(decode(&mut decoder, 7, &[7; 32], 100, b"a"), Ok(b"a".to_vec()));
    assert_eq!(decode(&mut decoder, 7, &[7; 32], 200, b"b"), Ok(b"b".to_vec()));
    assert_eq!(decode(&mut decoder, 7, &[7; 32], 201, b"c"), Err(DecoderError::SubscriptionTimeMismatch));
    assert_eq!(
        decode(&mut decoder, 7, &[7; 32], u64::MAX, b"c"),
        Err(DecoderError::SubscriptionTimeMismatch)
    );
}

#[test]
fn older_frames_are_refused_on_every_channel() {
    let mut decoder = fresh();
    assert_eq!(register(&mut decoder, sub(7, 0, 1000), 1), Ok(()));
    assert_eq!(decode(&mut decoder, 0, &CHANNEL_0_KEY, 500, b"a"), Ok(b"a".to_vec()));
    assert_eq!(decode(&mut decoder, 7, &[7; 32], 499, b"b"), Err(DecoderError::FrameOutOfOrder));
    assert_eq!(decode(&mut decoder, 0, &CHANNEL_0_KEY, 0, b"c"), Err(DecoderError::FrameOutOfOrder));
    assert_eq!(decode(&mut decoder, 7, &[7; 32], 500, b"d"), Ok(b"d".to_vec()));
    assert_eq!(decode(&mut decoder, 7, &[7; 32], 501, b"e"), Ok(b"e".to_vec()));
    assert_eq!(decode(&mut decoder, 0, &CHANNEL_0_KEY, 500, b"f"), Err(DecoderError::FrameOutOfOrder));
}

#[test]
fn equal_timestamps_are_accepted() {
    let mut decoder = fresh();
    assert_eq!(decode(&mut decoder, 0, &CHANNEL_0_KEY, 42, b"a"), Ok(b"a".to_vec()));
    assert_eq!(decode(&mut decoder, 0, &CHANNEL_0_KEY, 42, b"b"), Ok(b"b".to_vec()));
}

#[test]
fn refused_frame_does_not_move_the_clock_of_frames() {
    let mut decoder = fresh();
    assert_eq!(register(&mut decoder, sub(7, 0, 100), 1), Ok(()));
    assert_eq!(decode(&mut decoder, 0, &CHANNEL_0_KEY, 50, b"a"), Ok(b"a".to_vec()));
    assert_eq!(decode(&mut decoder, 7, &[7; 32], 900, b"b"), Err(DecoderError::SubscriptionTimeMismatch));
    assert_eq!(decode(&mut decoder, 0, &[9; 32], 900, b"c"), Err(DecoderError::FailedDecryption));
    assert_eq!(decode(&mut decoder, 0, &CHANNEL_0_KEY, 40, b"d"), Err(DecoderError::FrameOutOfOrder));
    assert_eq!(decode(&mut decoder, 0, &CHANNEL_0_KEY, 50, b"e"), Ok(b"e".to_vec()));
}

#[test]
fn window_is_checked_before_the_order() {
    let mut decoder = fresh();
    assert_eq!(register(&mut decoder, sub(7, 100, 200), 1), Ok(()));
    assert_eq!(decode(&mut decoder, 0, &CHANNEL_0_KEY, 500, b"a"), Ok(b"a".to_vec()));
    assert_eq!(decode(&mut decoder, 7, &[7; 32], 50, b"b"), Err(DecoderError::SubscriptionTimeMismatch));
    assert_eq!(decode(&mut decoder, 7, &[7; 32], 150, b"b"), Err(DecoderError::FrameOutOfOrder));
}

#[test]
fn reboot_clears_the_order_of_frames() {
    let mut decoder = fresh();
    assert_eq!(decode(&mut decoder, 0, &CHANNEL_0_KEY, 500, b"a"), Ok(b"a".to_vec()));
    assert_eq!(decode(&mut decoder, 0, &CHANNEL_0_KEY, 400, b"b"), Err(DecoderError::FrameOutOfOrder));
    let mut decoder = reboot(decoder);
    assert_eq!(decode(&mut decoder, 0, &CHANNEL_0_KEY, 400, b"b"), Ok(b"b".to_vec()));
}

#[test]
fn frame_of_64_bytes_is_the_largest() {
    let mut decoder = fresh();
    assert_eq!(decode(&mut decoder, 0, &CHANNEL_0_KEY, 1, &[0x61; 64]), Ok(vec![0x61; 64]));
    assert_eq!(decode(&mut decoder, 0, &CHANNEL_0_KEY, 2, &[0x61; 65]), Err(DecoderError::FrameTooLarge));
    assert_eq!(decode(&mut decoder, 9, &[9; 32], 2, &[0x61; 65]), Err(DecoderError::FrameTooLarge));
    assert_eq!(decode(&mut decoder, 0, &CHANNEL_0_KEY, 3, &[]), Ok(vec![]));
}

#[test]
fn timestamp_is_little_endian() {
    let mut decoder = fresh();
    assert_eq!(register(&mut decoder, sub(7, 0x0102_0304_0506_0708, 0x0102_0304_0506_0708), 1), Ok(()));
    let mut plaintext = vec![0x08, 0x07, 0x06, 0x05, 0x04, 0x03, 0x02, 0x01, b'o', b'k'];
    let signature = SigningKey::from_bytes(&SIGNING_KEY).sign(&plaintext).to_bytes();
    let tag: [u8; 16] = XChaCha20Poly1305::new((&[7u8; 32]).into())
        .encrypt_in_place_detached((&NONCE).into(), &[], &mut plaintext)
        .unwrap()
        .into();
    let mut payload: heapless::Vec<u8, 1024> = heapless::Vec::from_slice(&plaintext).unwrap();
    let decoded = decoder.decode_frame(7, &NONCE, &tag, &signature, &mut payload);
    assert_eq!(decoded, Ok(&b"ok"[..]));
}

#[test]
fn authentic_frame_is_held_against_window_and_order() {
    let mut decoder = fresh();
    let frame = [0x2A, 0, 0, 0, 0, 0, 0, 0, b'a', b'b', b'c'];
    assert_eq!(decoder.accept_frame(43, 50, &frame), Err(DecoderError::SubscriptionTimeMismatch));
    assert_eq!(decoder.accept_frame(0, 41, &frame), Err(DecoderError::SubscriptionTimeMismatch));
    assert_eq!(decoder.accept_frame(42, 42, &frame), Ok(&b"abc"[..]));
    let older = [0x29, 0, 0, 0, 0, 0, 0, 0, b'x'];
    assert_eq!(decoder.accept_frame(0, u64::MAX, &older), Err(DecoderError::FrameOutOfOrder));
    assert_eq!(decoder.accept_frame(0, u64::MAX, &frame), Ok(&b"abc"[..]));
    let newer = [0x00, 0x01, 0, 0, 0, 0, 0, 0];
    assert_eq!(decoder.accept_frame(0, u64::MAX, &newer), Ok(&b""[..]));
    assert_eq!(decoder.accept_frame(0, u64::MAX, &frame), Err(DecoderError::FrameOutOfOrder));
    let last = [0xFF; 8];
    assert_eq!(decoder.accept_frame(0, u64::MAX, &last), Ok(&b""[..]));
    assert_eq!(decoder.accept_frame(0, u64::MAX - 1, &last), Err(DecoderError::SubscriptionTimeMismatch));
}

#[test]
fn table_is_checked_slot_by_slot() {
    let mut slots = [None; 8];
    assert!(check_table(&slots));
    slots[2] = Some(sub(5, 1, 2));
    slots[7] = Some(sub(6, 3, 3));
    assert!(check_table(&slots));
    slots[0] = Some(sub(6, 1, 2));
    assert!(!check_table(&slots));
    slots[0] = Some(sub(0, 1, 2));
    assert!(!check_table(&slots));
    slots[0] = Some(sub(7, 3, 2));
    assert!(!check_table(&slots));
    slots[0] = Some(sub(7, 2, 2));
    assert!(check_table(&slots));
}
