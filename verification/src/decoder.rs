//! The subscription store and the frame decoder.
use vstd::prelude::*;
use crate::buffer::{buffer_as_mut_slice, buffer_as_slice, buffer_bytes, buffer_len};
use crate::bytes::{read_u64_le, u64_from_le};
use crate::crypto::{
    aead_seal, decrypt_encrypted_packet, packet_open, Chacha20Key, Ed25519Signature,
    XChacha20Nonce, XChacha20Tag, CHANNEL_0_KEY, FLASH_KEY,
};
use crate::flash::{
    boot_buffer, flush_plan, image_complete, lemma_interrupted_flush_leaves_no_image, replay,
    stored_length, stored_plaintext, DecoderStorage, FlashOp, FLASH_PAGE_WORDS, STORAGE_MAX,
};
use crate::host_comms::DecoderError;

verus! {

/// Number of slots in the subscription table.
pub const MAX_SUBSCRIPTION_COUNT: usize = 8;

/// Most bytes of a frame.
pub const MAX_FRAME_BYTES: usize = 64;

/// Bytes of the timestamp that precedes a frame inside its ciphertext.
pub const TIMESTAMP_BYTES: usize = 8;

/// One entitlement: the right to decode the frames of a channel whose
/// timestamps lie in a window, and the key to do it with.
#[derive(Debug, Clone, Copy, PartialEq, Eq)]
pub struct Subscription {
    pub channel_id: u32,
    pub start_time: u64,
    pub end_time: u64,
    pub channel_key: Chacha20Key,
}

impl Subscription {
    /// A subscription that the table may hold: its window is not inverted,
    /// and its channel is not channel 0, which needs no subscription.
    pub open spec fn valid(self) -> bool {
        self.channel_id != 0 && self.start_time <= self.end_time
    }
}

/// The table of subscriptions: one entry for each slot, empty or taken.
pub type Table = Seq<Option<Subscription>>;

/// The channel of the subscription in slot `i`, if the slot is taken.
pub open spec fn channel_at(table: Table, i: int) -> Option<u32> {
    match table[i] {
        Some(sub) => Some(sub.channel_id),
        None => None,
    }
}

/// Whether slot `i` of the table holds a subscription for the channel.
pub open spec fn slot_holds(table: Table, i: int, channel_id: u32) -> bool {
    0 <= i < table.len() && channel_at(table, i) == Some(channel_id)
}

/// What makes a table well formed: it has all of its slots, it holds only
/// subscriptions that a table may hold, and no channel twice.
pub open spec fn table_valid(table: Table) -> bool {
    &&& table.len() == MAX_SUBSCRIPTION_COUNT
    &&& forall|i: int| 0 <= i < table.len() ==> (#[trigger] table[i] matches Some(sub) ==> sub.valid())
    &&& forall|i: int, j: int|
        0 <= i < j < table.len() && channel_at(table, i) is Some ==> #[trigger] channel_at(table, i)
            != #[trigger] channel_at(table, j)
}

/// The table with every slot empty.
pub open spec fn empty_table() -> Table {
    Seq::new(MAX_SUBSCRIPTION_COUNT as nat, |i: int| None::<Subscription>)
}

/// The first slot at or after `from` that holds a subscription for the
/// channel.
pub open spec fn slot_of(table: Table, channel_id: u32, from: int) -> Option<int>
    decreases table.len() - from,
{
    if from < 0 || from >= table.len() {
        None
    } else if slot_holds(table, from, channel_id) {
        Some(from)
    } else {
        slot_of(table, channel_id, from + 1)
    }
}

/// The first empty slot at or after `from`.
pub open spec fn free_slot(table: Table, from: int) -> Option<int>
    decreases table.len() - from,
{
    if from < 0 || from >= table.len() {
        None
    } else if table[from] is None {
        Some(from)
    } else {
        free_slot(table, from + 1)
    }
}

/// The subscription that the table holds for the channel.
pub open spec fn lookup(table: Table, channel_id: u32) -> Option<Subscription> {
    match slot_of(table, channel_id, 0) {
        Some(i) => table[i],
        None => None,
    }
}

/// The slot that a subscription goes to: the slot that holds its channel,
/// or else the first empty slot, or none where the table is full.
pub open spec fn slot_for(table: Table, sub: Subscription) -> Option<int> {
    match slot_of(table, sub.channel_id, 0) {
        Some(i) => Some(i),
        None => free_slot(table, 0),
    }
}

/// `slot_of` finds exactly the slots that hold the channel.
pub proof fn lemma_slot_of(table: Table, channel_id: u32, from: int)
    requires
        0 <= from,
    ensures
        match slot_of(table, channel_id, from) {
            Some(i) => from <= i < table.len() && slot_holds(table, i, channel_id) && forall|j: int|
                from <= j < i ==> !slot_holds(table, j, channel_id),
            None => forall|j: int| from <= j < table.len() ==> !slot_holds(table, j, channel_id),
        },
    decreases table.len() - from,
{
    if from < table.len() && !slot_holds(table, from, channel_id) {
        lemma_slot_of(table, channel_id, from + 1);
    }
}

/// `free_slot` finds the first empty slot.
pub proof fn lemma_free_slot(table: Table, from: int)
    requires
        0 <= from,
    ensures
        match free_slot(table, from) {
            Some(i) => from <= i < table.len() && table[i] is None && forall|j: int|
                from <= j < i ==> table[j] is Some,
            None => forall|j: int| from <= j < table.len() ==> table[j] is Some,
        },
    decreases table.len() - from,
{
    if from < table.len() && table[from] is Some {
        lemma_free_slot(table, from + 1);
    }
}

/// A slot as it is handed to the serializer: the fields of the
/// subscription in order.
pub type PlainSlot = Option<(u32, u64, u64, [u8; 32])>;

/// The table as it is handed to the serializer.
pub open spec fn to_plain(table: Table) -> Seq<PlainSlot> {
    Seq::new(
        table.len(),
        |i: int|
            match table[i] {
                Some(sub) => Some((sub.channel_id, sub.start_time, sub.end_time, sub.channel_key)),
                None => None,
            },
    )
}

/// The table that the deserializer's slots stand for.
pub open spec fn from_plain(plain: Seq<PlainSlot>) -> Table {
    Seq::new(
        plain.len(),
        |i: int|
            match plain[i] {
                Some(fields) => Some(
                    Subscription {
                        channel_id: fields.0,
                        start_time: fields.1,
                        end_time: fields.2,
                        channel_key: fields.3,
                    },
                ),
                None => None,
            },
    )
}

/// Going to the serializer's form and back gives the table again.
pub proof fn lemma_plain_round_trip(table: Table)
    ensures
        from_plain(to_plain(table)) == table,
{
    assert(from_plain(to_plain(table)) =~= table);
}

/// The bytes that postcard makes of a table, where it makes any.
pub uninterp spec fn postcard_table_bytes(table: Seq<Option<(u32, u64, u64, [u8; 32])>>) -> Option<Seq<u8>>;

/// The table that postcard reads from the front of the bytes, where it
/// reads one.
pub uninterp spec fn postcard_table_parse(bytes: Seq<u8>) -> Option<Seq<Option<(u32, u64, u64, [u8; 32])>>>;

/// `postcard::to_extend` on the eight slots of the table, into an empty
/// buffer.  The slots take 58 bytes each at most, so that the buffer has
/// room for all of them.
///
/// Claimed of it: the bytes are a function of the table, and
/// `postcard::from_bytes` reads the same table back from them.
#[verifier::external_body]
fn serialize_table(table: &[Option<Subscription>; 8]) -> (bytes: Result<heapless::Vec<u8, 1024>, ()>)
    ensures
        match bytes {
            Ok(buf) => postcard_table_bytes(to_plain(table@)) == Some(buffer_bytes(buf))
                && postcard_table_parse(buffer_bytes(buf)) == Some(to_plain(table@)),
            Err(_) => postcard_table_bytes(to_plain(table@)) is None,
        },
{
    let plain = table.map(
        |slot: Option<Subscription>|
            slot.map(|sub| (sub.channel_id, sub.start_time, sub.end_time, sub.channel_key)),
    );
    postcard::to_extend(&plain, heapless::Vec::new()).map_err(|_| ())
}

/// `postcard::from_bytes` for the eight slots of a table.  Bytes behind
/// the table are ignored.
#[verifier::external_body]
fn deserialize_table(bytes: &[u8]) -> (table: Option<[Option<Subscription>; 8]>)
    ensures
        match table {
            Some(slots) => postcard_table_parse(bytes@) == Some(to_plain(slots@)),
            None => postcard_table_parse(bytes@) is None,
        },
{
    match postcard::from_bytes::<[Option<(u32, u64, u64, [u8; 32])>; 8]>(bytes) {
        Ok(plain) => Some(
            plain.map(
                |slot|
                    slot.map(
                        |(channel_id, start_time, end_time, channel_key)|
                            Subscription { channel_id, start_time, end_time, channel_key },
                    ),
            ),
        ),
        Err(_) => None,
    }
}

/// The table that a buffer of serialized bytes stands for: the table read
/// from it if it is well formed, and the empty table otherwise.  A buffer
/// with less than a byte for each slot holds no table.
pub open spec fn table_from_bytes(bytes: Seq<u8>) -> Table {
    if bytes.len() < MAX_SUBSCRIPTION_COUNT {
        empty_table()
    } else {
        match postcard_table_parse(bytes) {
            Some(plain) => if table_valid(from_plain(plain)) {
                from_plain(plain)
            } else {
                empty_table()
            },
            None => empty_table(),
        }
    }
}

/// The table that a boot reconstructs from the flash page.
pub open spec fn boot_table(words: Seq<u32>) -> Table {
    table_from_bytes(boot_buffer(words))
}

/// The decoder: it decodes the frames that it holds a subscription for, and
/// takes new subscriptions.
pub struct Decoder {
    subscriptions: [Option<Subscription>; 8],
    storage: DecoderStorage,
    curr_time: Option<u64>,
}

/// Whether the slots hold a well-formed table: only subscriptions that a
/// table may hold, and no channel twice.
pub fn check_table(slots: &[Option<Subscription>; 8]) -> (valid: bool)
    ensures
        valid == table_valid(slots@),
{
    let mut i: usize = 0;
    while i < 8
        invariant
            i <= 8,
            forall|a: int| 0 <= a < i ==> (#[trigger] slots@[a] matches Some(sub) ==> sub.valid()),
            forall|a: int, b: int|
                0 <= a < b < slots@.len() && a < i && channel_at(slots@, a) is Some
                    ==> #[trigger] channel_at(slots@, a) != #[trigger] channel_at(slots@, b),
        decreases 8 - i,
    {
        match slots[i] {
            Some(sub) => {
                if sub.channel_id == 0 || sub.start_time > sub.end_time {
                    return false;
                }
                let mut j: usize = i + 1;
                while j < 8
                    invariant
                        i < j <= 8,
                        slots@[i as int] == Some(sub),
                        forall|b: int|
                            i < b < j ==> #[trigger] channel_at(slots@, b) != Some(sub.channel_id),
                    decreases 8 - j,
                {
                    match slots[j] {
                        Some(other) => {
                            if other.channel_id == sub.channel_id {
                                assert(channel_at(slots@, i as int) == Some(sub.channel_id));
                                assert(channel_at(slots@, j as int) == Some(sub.channel_id));
                                return false;
                            }
                        },
                        None => {},
                    }
                    j += 1;
                }
            },
            None => {},
        }
        i += 1;
    }
    true
}

impl Decoder {
    /// The subscription table.
    pub closed spec fn table(&self) -> Table {
        self.subscriptions@
    }

    /// The persistence layer.
    pub closed spec fn storage(&self) -> DecoderStorage {
        self.storage
    }

    /// The highest timestamp decoded since boot, if any frame was decoded.
    pub closed spec fn last_timestamp(&self) -> Option<u64> {
        self.curr_time
    }

    /// What holds of every decoder: its table is well formed.
    pub open spec fn wf(&self) -> bool {
        &&& self.storage().wf()
        &&& table_valid(self.table())
    }

    /// Whether the table is persisted: the flash page holds a complete
    /// image of a length that fits, so that a boot does not fail on it, and
    /// the table that a boot reconstructs from that image is the table in
    /// RAM.
    pub open spec fn persisted(&self) -> bool {
        &&& image_complete(self.storage().flash().words())
        &&& stored_length(self.storage().flash().words()) <= STORAGE_MAX
        &&& boot_table(self.storage().flash().words()) == self.table()
    }

    /// Makes the decoder from the storage.  The table is read from the
    /// buffer, and a buffer that holds no well-formed table gives the empty
    /// table; the buffer is wiped.  No frame has been decoded yet.  On the
    /// storage as `DecoderStorage::init` leaves it, the table is the one
    /// that was persisted.
    pub fn new(storage: DecoderStorage) -> (decoder: Decoder)
        requires
            storage.wf(),
        ensures
            decoder.wf(),
            decoder.table() == table_from_bytes(storage.buffer()),
            storage.booted() ==> decoder.persisted(),
            decoder.last_timestamp() is None,
            decoder.storage().flash() == storage.flash(),
            decoder.storage().fresh_nonce() == storage.fresh_nonce(),
    {
        let mut storage = storage;
        let empty: [Option<Subscription>; 8] = [None, None, None, None, None, None, None, None];
        assert(empty@ =~= empty_table());
        let buf = storage.get_buf_mut();
        let subscriptions = if buffer_len(buf) < MAX_SUBSCRIPTION_COUNT {
            empty
        } else {
            match deserialize_table(buffer_as_slice(buf)) {
                Some(slots) => {
                    proof {
                        lemma_plain_round_trip(slots@);
                    }
                    if check_table(&slots) {
                        slots
                    } else {
                        empty
                    }
                },
                None => empty,
            }
        };
        storage.wipe_buffer();
        Decoder { subscriptions, storage, curr_time: None }
    }

    /// The slots of the table, empty or taken.
    pub fn get_subscriptions(&self) -> (slots: &[Option<Subscription>])
        ensures
            slots@ == self.table(),
    {
        self.subscriptions.as_slice()
    }

    /// The subscription for the channel, if the table holds one.
    pub fn get_subscription(&self, channel_id: u32) -> (found: Option<&Subscription>)
        ensures
            match found {
                Some(sub) => Some(*sub) == lookup(self.table(), channel_id),
                None => lookup(self.table(), channel_id) is None,
            },
    {
        let mut i: usize = 0;
        while i < 8
            invariant
                i <= 8,
                self.subscriptions@.len() == 8,
                slot_of(self.table(), channel_id, 0) == slot_of(self.table(), channel_id, i as int),
            decreases 8 - i,
        {
            match &self.subscriptions[i] {
                Some(sub) => {
                    if sub.channel_id == channel_id {
                        return Some(sub);
                    }
                },
                None => {},
            }
            i += 1;
        }
        None
    }

    /// Stores a subscription.  A subscription for a channel that the table
    /// already holds replaces the old one; any other goes to the first empty
    /// slot.  The whole table is then written to flash, and only when that
    /// has succeeded does the table in RAM change.
    pub fn register_subscription(&mut self, new_sub: Subscription) -> (registered: Result<
        (),
        DecoderError,
    >)
        requires
            old(self).wf(),
        ensures
            final(self).wf(),
            final(self).last_timestamp() == old(self).last_timestamp(),
            final(self).storage().flash().write_protected() == old(self).storage().flash().write_protected(),
            registered is Ok ==> final(self).persisted(),
            old(self).persisted() ==> final(self).persisted(),
            match register_outcome(old(self).table(), new_sub, old(self).storage()) {
                Ok(next) => {
                    let nonce = old(self).storage().fresh_nonce().unwrap();
                    let bytes = postcard_table_bytes(to_plain(next)).unwrap();
                    let sealed = aead_seal(FLASH_KEY@, nonce, bytes);
                    let plan = flush_plan(sealed.0, nonce, sealed.1);
                    &&& registered is Ok
                    &&& final(self).table() == next
                    &&& final(self).storage().fresh_nonce() is None
                    &&& final(self).storage().flash().words() == replay(
                        old(self).storage().flash().words(),
                        plan,
                    )
                    &&& final(self).storage().flash().journal() == old(self).storage().flash().journal() + plan
                },
                Err(e) => {
                    &&& registered == Err::<(), DecoderError>(e)
                    &&& final(self).table() == old(self).table()
                    &&& final(self).storage().flash() == old(self).storage().flash()
                    &&& final(self).storage().fresh_nonce() == old(self).storage().fresh_nonce()
                },
            },
    {
        if new_sub.channel_id == 0 || new_sub.start_time > new_sub.end_time {
            return Err(DecoderError::NoMoreSubscriptionSpace);
        }
        let ghost table = self.table();
        proof {
            lemma_slot_of(table, new_sub.channel_id, 0);
            lemma_free_slot(table, 0);
        }
        let mut target: Option<usize> = None;
        let mut i: usize = 0;
        while i < 8 && target.is_none()
            invariant
                i <= 8,
                table == self.subscriptions@,
                table.len() == 8,
                match target {
                    Some(t) => slot_of(table, new_sub.channel_id, 0) == Some(t as int),
                    None => slot_of(table, new_sub.channel_id, 0) == slot_of(
                        table,
                        new_sub.channel_id,
                        i as int,
                    ),
                },
            decreases 8 - i + if target is None { 1int } else { 0int },
        {
            match self.subscriptions[i] {
                Some(sub) => {
                    if sub.channel_id == new_sub.channel_id {
                        target = Some(i);
                    } else {
                        i += 1;
                    }
                },
                None => {
                    i += 1;
                },
            }
        }
        if target.is_none() {
            let mut j: usize = 0;
            while j < 8 && target.is_none()
                invariant
                    j <= 8,
                    table == self.subscriptions@,
                    table.len() == 8,
                    match target {
                        Some(t) => free_slot(table, 0) == Some(t as int),
                        None => free_slot(table, 0) == free_slot(table, j as int),
                    },
                decreases 8 - j + if target is None { 1int } else { 0int },
            {
                if self.subscriptions[j].is_none() {
                    target = Some(j);
                } else {
                    j += 1;
                }
            }
        }
        let slot = match target {
            Some(slot) => slot,
            None => {
                return Err(DecoderError::NoMoreSubscriptionSpace);
            },
        };
        let mut candidate = self.subscriptions;
        candidate[slot] = Some(new_sub);
        proof {
            let next = candidate@;
            assert(next =~= table.update(slot as int, Some(new_sub)));
            assert forall|a: int, b: int|
                0 <= a < b < next.len() && channel_at(next, a) is Some implies #[trigger] channel_at(
                next,
                a,
            ) != #[trigger] channel_at(next, b) by {
                assert(channel_at(table, a) is Some ==> channel_at(table, a) != channel_at(table, b));
                assert(!slot_holds(table, a, new_sub.channel_id) || a == slot);
                assert(!slot_holds(table, b, new_sub.channel_id) || b == slot);
            }
            assert(table_valid(next));
        }
        match self.flush_subscriptions(&candidate) {
            Ok(()) => {
                self.subscriptions = candidate;
                Ok(())
            },
            Err(e) => Err(e),
        }
    }

    /// Decrypts and decodes a frame.  `payload` holds the ciphertext of the
    /// timestamp followed by the frame; it is decrypted in place, and the
    /// frame is returned.  The steps come in this order, and the first that
    /// fails gives the error: the size of the frame, the subscription, the
    /// decryption and the signature, the window of the subscription, the
    /// order of timestamps.
    pub fn decode_frame<'a>(
        &mut self,
        channel_id: u32,
        nonce: &XChacha20Nonce,
        tag: &XChacha20Tag,
        signature: &Ed25519Signature,
        payload: &'a mut heapless::Vec<u8, 1024>,
    ) -> (decoded: Result<&'a [u8], DecoderError>)
        requires
            old(self).wf(),
            buffer_bytes(*old(payload)).len() >= TIMESTAMP_BYTES,
        ensures
            final(self).wf(),
            final(self).table() == old(self).table(),
            final(self).storage() == old(self).storage(),
            decoded matches Ok(slice) ==> slice@.len() + TIMESTAMP_BYTES == buffer_bytes(
                *old(payload),
            ).len(),
            match decode_outcome(
                old(self).table(),
                old(self).last_timestamp(),
                channel_id,
                nonce@,
                tag@,
                signature@,
                buffer_bytes(*old(payload)),
            ) {
                Ok((timestamp, frame)) => {
                    &&& decoded matches Ok(slice)
                    &&& slice@ == frame
                    &&& final(self).last_timestamp() == Some(timestamp)
                },
                Err(e) => {
                    &&& decoded == Err::<&[u8], DecoderError>(e)
                    &&& final(self).last_timestamp() == old(self).last_timestamp()
                },
            },
    {
        let len = buffer_len(payload);
        if len > MAX_FRAME_BYTES + TIMESTAMP_BYTES {
            return Err(DecoderError::FrameTooLarge);
        }
        let start_time;
        let end_time;
        let channel_key;
        if channel_id == 0 {
            start_time = u64::MIN;
            end_time = u64::MAX;
            channel_key = CHANNEL_0_KEY;
        } else {
            match self.get_subscription(channel_id) {
                Some(sub) => {
                    start_time = sub.start_time;
                    end_time = sub.end_time;
                    channel_key = sub.channel_key;
                },
                None => {
                    return Err(DecoderError::NoSubscription);
                },
            }
        }
        let opened = decrypt_encrypted_packet(
            &channel_key,
            nonce,
            tag,
            signature,
            buffer_as_mut_slice(payload),
        );
        if opened.is_err() {
            return Err(DecoderError::FailedDecryption);
        }
        self.accept_frame(start_time, end_time, buffer_as_slice(payload))
    }

    /// Takes up an authentic frame, given in the clear with its timestamp
    /// in front, for a subscription with the given window.  The frame is
    /// refused if its timestamp lies outside the window, and if it is older
    /// than the last frame taken up; a frame as old as the last is not
    /// refused.  A frame that is not refused is returned, and its timestamp
    /// is from then on the one that later frames are held against.
    pub fn accept_frame<'a>(&mut self, start_time: u64, end_time: u64, plaintext: &'a [u8]) -> (accepted:
        Result<&'a [u8], DecoderError>)
        requires
            plaintext@.len() >= TIMESTAMP_BYTES,
        ensures
            final(self).table() == old(self).table(),
            final(self).storage() == old(self).storage(),
            match frame_verdict(old(self).last_timestamp(), start_time, end_time, plaintext@) {
                Ok((timestamp, frame)) => {
                    &&& accepted matches Ok(slice)
                    &&& slice@ == frame
                    &&& final(self).last_timestamp() == Some(timestamp)
                },
                Err(e) => {
                    &&& accepted == Err::<&[u8], DecoderError>(e)
                    &&& final(self).last_timestamp() == old(self).last_timestamp()
                },
            },
    {
        let timestamp = read_u64_le(plaintext, 0);
        if timestamp < start_time || timestamp > end_time {
            return Err(DecoderError::SubscriptionTimeMismatch);
        }
        match self.curr_time {
            Some(curr_time) => {
                if curr_time > timestamp {
                    return Err(DecoderError::FrameOutOfOrder);
                }
            },
            None => {},
        }
        self.curr_time = Some(timestamp);
        Ok(vstd::slice::slice_subrange(plaintext, TIMESTAMP_BYTES, plaintext.len()))
    }

    /// Loads the nonce for the next write of the table to flash.  It must
    /// be fresh: random, and never loaded before.
    pub fn load_nonce(&mut self, nonce: XChacha20Nonce)
        requires
            old(self).wf(),
        ensures
            final(self).wf(),
            final(self).persisted() == old(self).persisted(),
            final(self).table() == old(self).table(),
            final(self).last_timestamp() == old(self).last_timestamp(),
            final(self).storage().flash() == old(self).storage().flash(),
            final(self).storage().fresh_nonce() == Some(nonce@),
    {
        self.storage.load_nonce(nonce);
    }

    /// Hands over the flash operations made since the last call, in order.
    pub fn take_flash_journal(&mut self) -> (ops: Vec<FlashOp>)
        requires
            old(self).wf(),
        ensures
            final(self).wf(),
            final(self).persisted() == old(self).persisted(),
            ops@ == old(self).storage().flash().journal(),
            final(self).table() == old(self).table(),
            final(self).last_timestamp() == old(self).last_timestamp(),
            final(self).storage().flash().journal() == Seq::<FlashOp>::empty(),
            final(self).storage().flash().words() == old(self).storage().flash().words(),
            final(self).storage().flash().write_protected() == old(self).storage().flash().write_protected(),
            final(self).storage().fresh_nonce() == old(self).storage().fresh_nonce(),
    {
        self.storage.take_journal()
    }

    /// Gives the storage back, as at power-off.
    pub fn into_storage(self) -> (storage: DecoderStorage)
        ensures
            storage == self.storage(),
    {
        self.storage
    }

    /// Serializes the given table and writes it to flash as a new image.
    fn flush_subscriptions(&mut self, table: &[Option<Subscription>; 8]) -> (flushed: Result<
        (),
        DecoderError,
    >)
        requires
            old(self).storage().wf(),
            table_valid(table@),
        ensures
            final(self).storage().wf(),
            final(self).table() == old(self).table(),
            final(self).last_timestamp() == old(self).last_timestamp(),
            final(self).storage().flash().write_protected() == old(self).storage().flash().write_protected(),
            match persist_outcome(table@, old(self).storage()) {
                Ok(next) => {
                    let nonce = old(self).storage().fresh_nonce().unwrap();
                    let bytes = postcard_table_bytes(to_plain(next)).unwrap();
                    let sealed = aead_seal(FLASH_KEY@, nonce, bytes);
                    let plan = flush_plan(sealed.0, nonce, sealed.1);
                    &&& flushed is Ok
                    &&& final(self).storage().fresh_nonce() is None
                    &&& final(self).storage().flash().words() == replay(
                        old(self).storage().flash().words(),
                        plan,
                    )
                    &&& final(self).storage().flash().journal() == old(self).storage().flash().journal() + plan
                    &&& boot_table(final(self).storage().flash().words()) == table@
                    &&& image_complete(final(self).storage().flash().words())
                    &&& stored_length(final(self).storage().flash().words()) <= STORAGE_MAX
                },
                Err(e) => {
                    &&& flushed == Err::<(), DecoderError>(e)
                    &&& final(self).storage().flash() == old(self).storage().flash()
                    &&& final(self).storage().fresh_nonce() == old(self).storage().fresh_nonce()
                },
            },
    {
        let bytes = match serialize_table(table) {
            Ok(bytes) => bytes,
            Err(_) => {
                return Err(DecoderError::SerializationFailed);
            },
        };
        if buffer_len(&bytes) < MAX_SUBSCRIPTION_COUNT {
            return Err(DecoderError::SerializationFailed);
        }
        let buf = self.storage.get_buf_mut();
        *buf = bytes;
        match self.storage.flush_buffer() {
            Ok(()) => {
                proof {
                    lemma_plain_round_trip(table@);
                }
                Ok(())
            },
            Err(e) => {
                self.storage.wipe_buffer();
                Err(DecoderError::from(e))
            },
        }
    }
}

/// The window and the key under which the frames of a channel are
/// decoded: those of the emergency channel for channel 0, those of the
/// subscription for any other.
pub open spec fn entitlement(table: Table, channel_id: u32) -> Option<(u64, u64, Seq<u8>)> {
    if channel_id == 0 {
        Some((0u64, u64::MAX, CHANNEL_0_KEY@))
    } else {
        match lookup(table, channel_id) {
            Some(sub) => Some((sub.start_time, sub.end_time, sub.channel_key@)),
            None => None,
        }
    }
}

/// What becomes of an authentic frame, given in the clear: its timestamp,
/// the first eight bytes read little-endian, must lie in the window, both
/// ends included, and must not be less than the last timestamp taken up.
pub open spec fn frame_verdict(
    last_timestamp: Option<u64>,
    start_time: u64,
    end_time: u64,
    plaintext: Seq<u8>,
) -> Result<(u64, Seq<u8>), DecoderError> {
    let timestamp = u64_from_le(plaintext.subrange(0, 8));
    if timestamp < start_time || timestamp > end_time {
        Err(DecoderError::SubscriptionTimeMismatch)
    } else if last_timestamp matches Some(last) && last > timestamp {
        Err(DecoderError::FrameOutOfOrder)
    } else {
        Ok((timestamp, plaintext.subrange(8, plaintext.len() as int)))
    }
}

/// What decoding a frame gives: its timestamp and the frame, or the error
/// of the first step that fails.
pub open spec fn decode_outcome(
    table: Table,
    last_timestamp: Option<u64>,
    channel_id: u32,
    nonce: Seq<u8>,
    tag: Seq<u8>,
    signature: Seq<u8>,
    payload: Seq<u8>,
) -> Result<(u64, Seq<u8>), DecoderError> {
    if payload.len() > MAX_FRAME_BYTES + TIMESTAMP_BYTES {
        Err(DecoderError::FrameTooLarge)
    } else {
        match entitlement(table, channel_id) {
            None => Err(DecoderError::NoSubscription),
            Some((start_time, end_time, key)) => match packet_open(key, nonce, tag, signature, payload) {
                None => Err(DecoderError::FailedDecryption),
                Some(plaintext) => frame_verdict(last_timestamp, start_time, end_time, plaintext),
            },
        }
    }
}

/// Whether the table can be serialized: the serializer makes bytes of
/// it, and at least one for each slot.
pub open spec fn serializable(table: Table) -> bool {
    postcard_table_bytes(to_plain(table)) matches Some(bytes) && bytes.len()
        >= MAX_SUBSCRIPTION_COUNT
}

/// What becomes of a table that is to be written to flash: it is kept,
/// unless it cannot be serialized or the storage cannot take it.
pub open spec fn persist_outcome(next: Table, storage: DecoderStorage) -> Result<Table, DecoderError> {
    if !serializable(next) {
        Err(DecoderError::SerializationFailed)
    } else if storage.flash().write_protected() || storage.fresh_nonce() is None {
        Err(DecoderError::SavingFailed)
    } else {
        Ok(next)
    }
}

/// What becomes of the table when a subscription is registered: the table
/// with the subscription in its slot, or the error.
pub open spec fn register_outcome(table: Table, new_sub: Subscription, storage: DecoderStorage) -> Result<
    Table,
    DecoderError,
> {
    if !new_sub.valid() {
        Err(DecoderError::NoMoreSubscriptionSpace)
    } else {
        match slot_for(table, new_sub) {
            Some(slot) => persist_outcome(table.update(slot, Some(new_sub)), storage),
            None => Err(DecoderError::NoMoreSubscriptionSpace),
        }
    }
}

/// A write of the table that stops short costs the table, and no more:
/// the boot that follows finds the empty table.
pub proof fn lemma_interrupted_flush_boots_the_empty_table(
    words: Seq<u32>,
    ciphertext: Seq<u8>,
    nonce: Seq<u8>,
    tag: Seq<u8>,
    done: int,
)
    requires
        words.len() == FLASH_PAGE_WORDS,
        ciphertext.len() <= STORAGE_MAX,
        1 <= done < flush_plan(ciphertext, nonce, tag).len(),
    ensures
        boot_table(replay(words, flush_plan(ciphertext, nonce, tag).take(done))) == empty_table(),
{
    lemma_interrupted_flush_leaves_no_image(words, ciphertext, nonce, tag, done);
}

/// An image whose tag does not authenticate it boots to the empty table.
pub proof fn lemma_tampered_image_boots_the_empty_table(words: Seq<u32>)
    requires
        stored_plaintext(words) is None,
    ensures
        boot_table(words) == empty_table(),
{
}

/// A page without the magic boots to the empty table.
pub proof fn lemma_incomplete_image_boots_the_empty_table(words: Seq<u32>)
    requires
        !image_complete(words),
    ensures
        boot_table(words) == empty_table(),
{
}

/// No frame older than the last one decoded is ever accepted, on whatever
/// channel it comes.
pub proof fn lemma_no_frame_from_the_past(
    table: Table,
    last: u64,
    channel_id: u32,
    nonce: Seq<u8>,
    tag: Seq<u8>,
    signature: Seq<u8>,
    payload: Seq<u8>,
)
    ensures
        decode_outcome(table, Some(last), channel_id, nonce, tag, signature, payload) matches Ok(
            (timestamp, _),
        ) ==> timestamp >= last,
{
}

/// A frame that is entitled, authentic and inside its window, but older
/// than the last one decoded, is refused as out of order.
pub proof fn lemma_replay_is_out_of_order(
    table: Table,
    last: u64,
    channel_id: u32,
    nonce: Seq<u8>,
    tag: Seq<u8>,
    signature: Seq<u8>,
    payload: Seq<u8>,
)
    requires
        payload.len() <= MAX_FRAME_BYTES + TIMESTAMP_BYTES,
        entitlement(table, channel_id) matches Some((start_time, end_time, key)) && packet_open(
            key,
            nonce,
            tag,
            signature,
            payload,
        ) matches Some(plaintext) && start_time <= u64_from_le(plaintext.subrange(0, 8)) <= end_time
            && u64_from_le(plaintext.subrange(0, 8)) < last,
    ensures
        decode_outcome(table, Some(last), channel_id, nonce, tag, signature, payload) == Err::<
            (u64, Seq<u8>),
            DecoderError,
        >(DecoderError::FrameOutOfOrder),
{
}

/// A frame whose timestamp lies outside the window of its subscription is
/// refused for that, although it is authentic.
pub proof fn lemma_outside_window_is_mismatch(
    table: Table,
    last_timestamp: Option<u64>,
    channel_id: u32,
    nonce: Seq<u8>,
    tag: Seq<u8>,
    signature: Seq<u8>,
    payload: Seq<u8>,
)
    requires
        payload.len() <= MAX_FRAME_BYTES + TIMESTAMP_BYTES,
        entitlement(table, channel_id) matches Some((start_time, end_time, key)) && packet_open(
            key,
            nonce,
            tag,
            signature,
            payload,
        ) matches Some(plaintext) && !(start_time <= u64_from_le(plaintext.subrange(0, 8))
            <= end_time),
    ensures
        decode_outcome(table, last_timestamp, channel_id, nonce, tag, signature, payload) == Err::<
            (u64, Seq<u8>),
            DecoderError,
        >(DecoderError::SubscriptionTimeMismatch),
{
}

/// A full table has no room for a channel that it does not hold.
pub proof fn lemma_full_table_takes_no_new_channel(
    table: Table,
    new_sub: Subscription,
    storage: DecoderStorage,
)
    requires
        table_valid(table),
        forall|i: int| 0 <= i < table.len() ==> table[i] is Some,
        forall|i: int| 0 <= i < table.len() ==> !slot_holds(table, i, new_sub.channel_id),
    ensures
        register_outcome(table, new_sub, storage) == Err::<Table, DecoderError>(
            DecoderError::NoMoreSubscriptionSpace,
        ),
{
    lemma_slot_of(table, new_sub.channel_id, 0);
    lemma_free_slot(table, 0);
}

/// A subscription for a channel that the table holds takes the place of
/// the old one, in the same slot, and is not refused for want of space.
pub proof fn lemma_present_channel_updates_in_place(
    table: Table,
    new_sub: Subscription,
    storage: DecoderStorage,
    slot: int,
)
    requires
        table_valid(table),
        new_sub.valid(),
        slot_holds(table, slot, new_sub.channel_id),
    ensures
        register_outcome(table, new_sub, storage) != Err::<Table, DecoderError>(
            DecoderError::NoMoreSubscriptionSpace,
        ),
        register_outcome(table, new_sub, storage) matches Ok(next) ==> next == table.update(
            slot,
            Some(new_sub),
        ),
{
    lemma_slot_of(table, new_sub.channel_id, 0);
    let found = slot_of(table, new_sub.channel_id, 0).unwrap();
    assert(slot_holds(table, found, new_sub.channel_id));
    if found < slot {
        assert(channel_at(table, found) != channel_at(table, slot));
    } else if slot < found {
        assert(channel_at(table, slot) != channel_at(table, found));
    }
}

/// A table with an empty slot takes a valid subscription for a new
/// channel, in its first empty slot.
pub proof fn lemma_new_channel_takes_first_empty_slot(
    table: Table,
    new_sub: Subscription,
    storage: DecoderStorage,
    slot: int,
)
    requires
        table_valid(table),
        new_sub.valid(),
        forall|i: int| 0 <= i < table.len() ==> !slot_holds(table, i, new_sub.channel_id),
        0 <= slot < table.len(),
        table[slot] is None,
        forall|i: int| 0 <= i < slot ==> table[i] is Some,
    ensures
        register_outcome(table, new_sub, storage) != Err::<Table, DecoderError>(
            DecoderError::NoMoreSubscriptionSpace,
        ),
        register_outcome(table, new_sub, storage) matches Ok(next) ==> next == table.update(
            slot,
            Some(new_sub),
        ),
{
    lemma_slot_of(table, new_sub.channel_id, 0);
    lemma_free_slot(table, 0);
}

} // verus!
