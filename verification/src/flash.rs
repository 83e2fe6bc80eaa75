//! The reserved flash page and the encrypted image of the subscription
//! table that lives in it.
//!
//! The page is modelled word by word.  Every erase and write that succeeds
//! on the model is also put on a journal, in order, so that whoever owns the
//! flash controller can replay it there.
use vstd::prelude::*;
use crate::buffer::{
    buffer_as_mut_slice, buffer_as_slice, buffer_bytes, buffer_clear, buffer_extend_from_slice,
    buffer_len, buffer_new,
};
use crate::bytes::{lemma_u32_le_bytes_round_trip, u32_from_le, u32_to_le};
use crate::host_comms::DecoderError;
use crate::crypto::{
    aead_open, aead_seal, decrypt_flash_buffer, encrypt_flash_buffer, XChacha20Nonce,
    XChacha20Tag, FLASH_KEY,
};

verus! {

/// Most bytes of ciphertext that an image can hold.
pub const STORAGE_MAX: usize = 1024;


pub const STORAGE_MAX_U32: u32 = 1024;

/// Address of the first byte of the reserved page.
pub const PERSIST_BASE_ADDR: u32 = 0x1004_4000;

/// Size of a flash page in bytes.
pub const FLASH_PAGE_SIZE: u32 = 0x2000;

/// Size of a flash page in 32-bit words.
pub const FLASH_PAGE_WORDS: usize = 2048;

/// Address of the word that holds the length of the ciphertext.
pub const DATA_LEN_ADDR: u32 = PERSIST_BASE_ADDR + 4;

/// Address of the first ciphertext byte: three 128-bit blocks in.  The
/// first block holds the magic, the length and the first two words of the
/// nonce, the second the rest of the nonce, the third the tag.
pub const DATA_BASE_ADDR: u32 = PERSIST_BASE_ADDR + 48;

/// The word that marks an image as complete.
pub const FLASH_INITIALIZED_MAGIC: u32 = 0x4d69_6b75;

/// What every word of an erased page reads as.
pub const FLASH_ERASED_WORD: u32 = 0xFFFF_FFFF;

/// Why the flash refused an operation.
#[derive(Debug, Clone, Copy, PartialEq, Eq, Structural)]
pub enum FlashError {
    /// The address is misaligned or lies outside the page.
    InvalidAddress,
    /// The page is protected against writing and erasing.
    AccessViolation,
    /// The write would turn a 0 bit into a 1: the word must be erased first.
    NeedsErase,
}

/// One operation on the flash, as the flash controller takes it.
#[derive(Debug, Clone, Copy, PartialEq, Eq)]
pub enum FlashOp {
    /// Erase the page that holds the address.
    ErasePage { address: u32 },
    /// Write four words, lowest address first, at a 128-bit aligned address.
    Write128 { address: u32, data: [u32; 4] },
    /// Write one word at a 32-bit aligned address.
    Write32 { address: u32, word: u32 },
}

/// Whether the address lies in the reserved page.
pub open spec fn in_page(address: u32) -> bool {
    PERSIST_BASE_ADDR <= address < PERSIST_BASE_ADDR + FLASH_PAGE_SIZE
}

/// Index, among the words of the page, of the word that holds the address.
pub open spec fn word_index(address: u32) -> int {
    (address - PERSIST_BASE_ADDR) / 4
}

/// Flash can only clear bits: a word takes a new value that sets no bit
/// which the old value has cleared.
pub open spec fn can_program(old_word: u32, new_word: u32) -> bool {
    old_word & new_word == new_word
}

/// The contents of an erased page.
pub open spec fn erased_words() -> Seq<u32> {
    Seq::new(FLASH_PAGE_WORDS as nat, |i: int| FLASH_ERASED_WORD)
}

/// Why the page refuses the operation, if it does.  The checks come in the
/// order in which the flash controller makes them.
pub open spec fn op_fault(words: Seq<u32>, write_protected: bool, op: FlashOp) -> Option<FlashError> {
    match op {
        FlashOp::ErasePage { address } => if !in_page(address) {
            Some(FlashError::InvalidAddress)
        } else if write_protected {
            Some(FlashError::AccessViolation)
        } else {
            None
        },
        FlashOp::Write128 { address, data } => if address % 16 != 0 || !in_page(address) {
            Some(FlashError::InvalidAddress)
        } else if exists|k: int|
            0 <= k < 4 && !can_program(#[trigger] words[word_index(address) + k], data[k]) {
            Some(FlashError::NeedsErase)
        } else if write_protected {
            Some(FlashError::AccessViolation)
        } else {
            None
        },
        FlashOp::Write32 { address, word } => if address % 4 != 0 || !in_page(address) {
            Some(FlashError::InvalidAddress)
        } else if !can_program(words[word_index(address)], word) {
            Some(FlashError::NeedsErase)
        } else if write_protected {
            Some(FlashError::AccessViolation)
        } else {
            None
        },
    }
}

/// The contents of the page after an operation that it accepts.
pub open spec fn op_effect(words: Seq<u32>, op: FlashOp) -> Seq<u32> {
    match op {
        FlashOp::ErasePage { address } => erased_words(),
        FlashOp::Write128 { address, data } => {
            let at = word_index(address);
            words.update(at, data[0]).update(at + 1, data[1]).update(at + 2, data[2]).update(
                at + 3,
                data[3],
            )
        },
        FlashOp::Write32 { address, word } => words.update(word_index(address), word),
    }
}

/// The contents of the page after a run of operations, each of them
/// accepted.
pub open spec fn replay(words: Seq<u32>, ops: Seq<FlashOp>) -> Seq<u32>
    decreases ops.len(),
{
    if ops.len() == 0 {
        words
    } else {
        op_effect(replay(words, ops.drop_last()), ops.last())
    }
}

/// An erased word takes any value.
pub proof fn lemma_erased_word_takes_any(new_word: u32)
    ensures
        can_program(FLASH_ERASED_WORD, new_word),
{
    assert(0xFFFF_FFFFu32 & new_word == new_word) by (bit_vector);
}

/// A model of the reserved flash page.
#[derive(Debug, Clone)]
pub struct FlashPage {
    words: Vec<u32>,
    write_protected: bool,
    journal: Vec<FlashOp>,
}

impl FlashPage {
    /// The words of the page, lowest address first.
    pub closed spec fn words(&self) -> Seq<u32> {
        self.words@
    }

    /// Whether the page refuses writes and erases.
    pub closed spec fn write_protected(&self) -> bool {
        self.write_protected
    }

    /// The operations carried out on the page and not yet handed over.
    pub closed spec fn journal(&self) -> Seq<FlashOp> {
        self.journal@
    }

    /// A page has all of its words.
    pub open spec fn wf(&self) -> bool {
        self.words().len() == FLASH_PAGE_WORDS
    }

    /// A page as it leaves the factory: every word erased.
    pub fn erased() -> (page: FlashPage)
        ensures
            page.wf(),
            page.words() == erased_words(),
            !page.write_protected(),
            page.journal() == Seq::<FlashOp>::empty(),
    {
        let mut words: Vec<u32> = Vec::new();
        let mut i: usize = 0;
        while i < FLASH_PAGE_WORDS
            invariant
                i <= FLASH_PAGE_WORDS,
                words@.len() == i,
                forall|j: int| 0 <= j < i ==> words@[j] == FLASH_ERASED_WORD,
            decreases FLASH_PAGE_WORDS - i,
        {
            words.push(FLASH_ERASED_WORD);
            i += 1;
        }
        assert(words@ =~= erased_words());
        FlashPage { words, write_protected: false, journal: Vec::new() }
    }

    /// A page with the given contents, which must be those of a whole page.
    pub fn from_words(words: Vec<u32>) -> (page: Option<FlashPage>)
        ensures
            page is Some <==> words@.len() == FLASH_PAGE_WORDS,
            page matches Some(p) ==> {
                &&& p.wf()
                &&& p.words() == words@
                &&& !p.write_protected()
                &&& p.journal() == Seq::<FlashOp>::empty()
            },
    {
        if words.len() == FLASH_PAGE_WORDS {
            Some(FlashPage { words, write_protected: false, journal: Vec::new() })
        } else {
            None
        }
    }

    /// Protects the page against writes and erases.
    pub fn disable_page_write(&mut self)
        ensures
            final(self).wf() == old(self).wf(),
            final(self).words() == old(self).words(),
            final(self).journal() == old(self).journal(),
            final(self).write_protected(),
    {
        self.write_protected = true;
    }

    /// Hands over the journal and starts a new one.
    pub fn take_journal(&mut self) -> (ops: Vec<FlashOp>)
        ensures
            ops@ == old(self).journal(),
            final(self).journal() == Seq::<FlashOp>::empty(),
            final(self).wf() == old(self).wf(),
            final(self).words() == old(self).words(),
            final(self).write_protected() == old(self).write_protected(),
    {
        let mut ops: Vec<FlashOp> = Vec::new();
        std::mem::swap(&mut ops, &mut self.journal);
        ops
    }

    /// The words of the page, lowest address first.
    pub fn as_words(&self) -> (words: &[u32])
        ensures
            words@ == self.words(),
    {
        self.words.as_slice()
    }

    /// Whether the page refuses writes and erases.
    pub fn is_write_protected(&self) -> (protected: bool)
        ensures
            protected == self.write_protected(),
    {
        self.write_protected
    }

    /// Carries out one operation, as the flash controller would.
    pub fn apply(&mut self, op: &FlashOp) -> (applied: Result<(), FlashError>)
        requires
            old(self).wf(),
        ensures
            final(self).wf(),
            final(self).write_protected() == old(self).write_protected(),
            applied == match op_fault(old(self).words(), old(self).write_protected(), *op) {
                Some(e) => Err::<(), FlashError>(e),
                None => Ok(()),
            },
            applied is Ok ==> final(self).words() == op_effect(old(self).words(), *op) && final(self).journal() == old(self).journal().push(*op),
            applied is Err ==> *final(self) == *old(self),
    {
        match op {
            FlashOp::ErasePage { address } => self.erase_page(*address),
            FlashOp::Write128 { address, data } => self.write_128(*address, data),
            FlashOp::Write32 { address, word } => self.write_32(*address, *word),
        }
    }

    /// Reads the word at a 32-bit aligned address.
    pub fn read_32(&self, address: u32) -> (read: Result<u32, FlashError>)
        requires
            self.wf(),
        ensures
            read is Ok <==> address % 4 == 0 && in_page(address),
            read matches Ok(word) ==> word == self.words()[word_index(address)],
            read matches Err(e) ==> e == FlashError::InvalidAddress,
    {
        if address % 4 != 0 || address < PERSIST_BASE_ADDR || address - PERSIST_BASE_ADDR
            >= FLASH_PAGE_SIZE {
            return Err(FlashError::InvalidAddress);
        }
        let at = ((address - PERSIST_BASE_ADDR) / 4) as usize;
        Ok(self.words[at])
    }

    /// Reads four words at a 128-bit aligned address, lowest address first.
    pub fn read_128(&self, address: u32) -> (read: Result<[u32; 4], FlashError>)
        requires
            self.wf(),
        ensures
            read is Ok <==> address % 16 == 0 && in_page(address),
            read matches Ok(block) ==> forall|k: int|
                0 <= k < 4 ==> block[k] == #[trigger] self.words()[word_index(address) + k],
            read matches Err(e) ==> e == FlashError::InvalidAddress,
    {
        if address % 16 != 0 || address < PERSIST_BASE_ADDR || address - PERSIST_BASE_ADDR
            >= FLASH_PAGE_SIZE {
            return Err(FlashError::InvalidAddress);
        }
        let at = ((address - PERSIST_BASE_ADDR) / 4) as usize;
        Ok([self.words[at], self.words[at + 1], self.words[at + 2], self.words[at + 3]])
    }

    /// Erases the page that holds the address.
    pub fn erase_page(&mut self, address: u32) -> (erased: Result<(), FlashError>)
        requires
            old(self).wf(),
        ensures
            final(self).wf(),
            final(self).write_protected() == old(self).write_protected(),
            erased == match op_fault(
                old(self).words(),
                old(self).write_protected(),
                FlashOp::ErasePage { address },
            ) {
                Some(e) => Err::<(), FlashError>(e),
                None => Ok(()),
            },
            erased is Ok ==> final(self).words() == erased_words() && final(self).journal() == old(self).journal().push(FlashOp::ErasePage { address }),
            erased is Err ==> *final(self) == *old(self),
    {
        if address < PERSIST_BASE_ADDR || address - PERSIST_BASE_ADDR >= FLASH_PAGE_SIZE {
            return Err(FlashError::InvalidAddress);
        }
        if self.write_protected {
            return Err(FlashError::AccessViolation);
        }
        let mut i: usize = 0;
        while i < FLASH_PAGE_WORDS
            invariant
                i <= FLASH_PAGE_WORDS,
                self.words@.len() == FLASH_PAGE_WORDS,
                forall|j: int| 0 <= j < i ==> self.words@[j] == FLASH_ERASED_WORD,
                self.journal@ == old(self).journal@,
                self.write_protected == old(self).write_protected,
            decreases FLASH_PAGE_WORDS - i,
        {
            self.words.set(i, FLASH_ERASED_WORD);
            i += 1;
        }
        assert(self.words@ =~= erased_words());
        self.journal.push(FlashOp::ErasePage { address });
        Ok(())
    }

    /// Writes four words at a 128-bit aligned address, lowest address first.
    pub fn write_128(&mut self, address: u32, data: &[u32; 4]) -> (written: Result<(), FlashError>)
        requires
            old(self).wf(),
        ensures
            final(self).wf(),
            final(self).write_protected() == old(self).write_protected(),
            written == match op_fault(
                old(self).words(),
                old(self).write_protected(),
                FlashOp::Write128 { address, data: *data },
            ) {
                Some(e) => Err::<(), FlashError>(e),
                None => Ok(()),
            },
            written is Ok ==> final(self).words() == op_effect(
                old(self).words(),
                FlashOp::Write128 { address, data: *data },
            ) && final(self).journal() == old(self).journal().push(
                FlashOp::Write128 { address, data: *data },
            ),
            written is Err ==> *final(self) == *old(self),
    {
        if address % 16 != 0 || address < PERSIST_BASE_ADDR || address - PERSIST_BASE_ADDR
            >= FLASH_PAGE_SIZE {
            return Err(FlashError::InvalidAddress);
        }
        let at = ((address - PERSIST_BASE_ADDR) / 4) as usize;
        let mut k: usize = 0;
        while k < 4
            invariant
                k <= 4,
                at + 4 <= FLASH_PAGE_WORDS,
                at == word_index(address),
                address % 16 == 0,
                in_page(address),
                self.words@.len() == FLASH_PAGE_WORDS,
                self.words@ == old(self).words@,
                self.journal@ == old(self).journal@,
                self.write_protected == old(self).write_protected,
                forall|j: int| 0 <= j < k ==> can_program(#[trigger] self.words@[at + j], data[j]),
            decreases 4 - k,
        {
            if self.words[at + k] & data[k] != data[k] {
                assert(!can_program(old(self).words()[word_index(address) + k], data[k as int]));
                return Err(FlashError::NeedsErase);
            }
            k += 1;
        }
        if self.write_protected {
            return Err(FlashError::AccessViolation);
        }
        self.words.set(at, data[0]);
        self.words.set(at + 1, data[1]);
        self.words.set(at + 2, data[2]);
        self.words.set(at + 3, data[3]);
        self.journal.push(FlashOp::Write128 { address, data: *data });
        Ok(())
    }

    /// Writes one word at a 32-bit aligned address.
    pub fn write_32(&mut self, address: u32, data: u32) -> (written: Result<(), FlashError>)
        requires
            old(self).wf(),
        ensures
            final(self).wf(),
            final(self).write_protected() == old(self).write_protected(),
            written == match op_fault(
                old(self).words(),
                old(self).write_protected(),
                FlashOp::Write32 { address, word: data },
            ) {
                Some(e) => Err::<(), FlashError>(e),
                None => Ok(()),
            },
            written is Ok ==> final(self).words() == op_effect(
                old(self).words(),
                FlashOp::Write32 { address, word: data },
            ) && final(self).journal() == old(self).journal().push(
                FlashOp::Write32 { address, word: data },
            ),
            written is Err ==> *final(self) == *old(self),
    {
        if address % 4 != 0 || address < PERSIST_BASE_ADDR || address - PERSIST_BASE_ADDR
            >= FLASH_PAGE_SIZE {
            return Err(FlashError::InvalidAddress);
        }
        let at = ((address - PERSIST_BASE_ADDR) / 4) as usize;
        if self.words[at] & data != data {
            return Err(FlashError::NeedsErase);
        }
        if self.write_protected {
            return Err(FlashError::AccessViolation);
        }
        self.words.set(at, data);
        self.journal.push(FlashOp::Write32 { address, word: data });
        Ok(())
    }
}


/// Number of 128-bit blocks that hold `len` bytes of ciphertext.
pub open spec fn data_blocks(len: nat) -> nat {
    (len + 15) / 16
}

/// The byte at `i`, or what an erased byte reads as beyond the end.
pub open spec fn padded_byte(bytes: Seq<u8>, i: int) -> u8 {
    if 0 <= i < bytes.len() {
        bytes[i]
    } else {
        0xFF
    }
}

/// The flash word that holds bytes `4 * w` to `4 * w + 3`, least
/// significant byte at the lowest address.
pub open spec fn packed_word(bytes: Seq<u8>, w: int) -> u32 {
    u32_from_le(
        seq![
            padded_byte(bytes, 4 * w),
            padded_byte(bytes, 4 * w + 1),
            padded_byte(bytes, 4 * w + 2),
            padded_byte(bytes, 4 * w + 3),
        ],
    )
}

/// The 128-bit block that holds bytes `16 * b` to `16 * b + 15`.
pub open spec fn packed_block(bytes: Seq<u8>, b: int) -> [u32; 4] {
    [
        packed_word(bytes, 4 * b),
        packed_word(bytes, 4 * b + 1),
        packed_word(bytes, 4 * b + 2),
        packed_word(bytes, 4 * b + 3),
    ]
}

/// The `len` bytes that the words hold from word `first` on.
pub open spec fn words_bytes(words: Seq<u32>, first: int, len: nat) -> Seq<u8> {
    Seq::new(len, |i: int| u32_to_le(words[first + i / 4])[i % 4])
}

/// Whether the page holds the magic that marks a complete image.
pub open spec fn image_complete(words: Seq<u32>) -> bool {
    words[0] == FLASH_INITIALIZED_MAGIC
}

/// The length of the ciphertext, as the image states it.
pub open spec fn stored_length(words: Seq<u32>) -> nat {
    words[1] as nat
}

/// The nonce of the image: words 2 to 7.
pub open spec fn stored_nonce(words: Seq<u32>) -> Seq<u8> {
    words_bytes(words, 2, 24)
}

/// The tag of the image: words 8 to 11.
pub open spec fn stored_tag(words: Seq<u32>) -> Seq<u8> {
    words_bytes(words, 8, 16)
}

/// The ciphertext of the image: from word 12 on.
pub open spec fn stored_ciphertext(words: Seq<u32>) -> Seq<u8> {
    words_bytes(words, 12, stored_length(words))
}

/// What the ciphertext of the image opens to under the persistence key,
/// where its tag authenticates it.
pub open spec fn stored_plaintext(words: Seq<u32>) -> Option<Seq<u8>> {
    match aead_open(FLASH_KEY@, stored_nonce(words), stored_tag(words), stored_ciphertext(words)) {
        Some(plaintext) => if plaintext.len() == stored_length(words) {
            Some(plaintext)
        } else {
            None
        },
        None => None,
    }
}

/// What a boot finds in the page: the plaintext of a complete image whose
/// tag holds, and nothing otherwise.
pub open spec fn boot_buffer(words: Seq<u32>) -> Seq<u8> {
    if image_complete(words) {
        match stored_plaintext(words) {
            Some(plaintext) => plaintext,
            None => Seq::<u8>::empty(),
        }
    } else {
        Seq::<u8>::empty()
    }
}

/// The operations that leave a complete image of no data.
pub open spec fn reset_plan() -> Seq<FlashOp> {
    seq![
        FlashOp::ErasePage { address: PERSIST_BASE_ADDR },
        FlashOp::Write128 {
            address: PERSIST_BASE_ADDR,
            data: [FLASH_INITIALIZED_MAGIC, 0u32, FLASH_ERASED_WORD, FLASH_ERASED_WORD],
        },
    ]
}

/// Operation `i` of a flush.  The page is erased; the first block is
/// written with the magic left out; the rest of the nonce, the tag and the
/// ciphertext follow block by block; the magic comes last.
pub open spec fn flush_op(ciphertext: Seq<u8>, nonce: Seq<u8>, tag: Seq<u8>, i: int) -> FlashOp {
    if i == 0 {
        FlashOp::ErasePage { address: PERSIST_BASE_ADDR }
    } else if i == 1 {
        FlashOp::Write128 {
            address: PERSIST_BASE_ADDR,
            data: [
                FLASH_ERASED_WORD,
                ciphertext.len() as u32,
                packed_word(nonce, 0),
                packed_word(nonce, 1),
            ],
        }
    } else if i == 2 {
        FlashOp::Write128 {
            address: (PERSIST_BASE_ADDR + 16) as u32,
            data: [
                packed_word(nonce, 2),
                packed_word(nonce, 3),
                packed_word(nonce, 4),
                packed_word(nonce, 5),
            ],
        }
    } else if i == 3 {
        FlashOp::Write128 { address: (PERSIST_BASE_ADDR + 32) as u32, data: packed_block(tag, 0) }
    } else if i < 4 + data_blocks(ciphertext.len()) {
        FlashOp::Write128 {
            address: (DATA_BASE_ADDR + 16 * (i - 4)) as u32,
            data: packed_block(ciphertext, i - 4),
        }
    } else {
        FlashOp::Write32 { address: PERSIST_BASE_ADDR, word: FLASH_INITIALIZED_MAGIC }
    }
}

/// The operations of a flush, in order.
pub open spec fn flush_plan(ciphertext: Seq<u8>, nonce: Seq<u8>, tag: Seq<u8>) -> Seq<FlashOp> {
    Seq::new(
        5 + data_blocks(ciphertext.len()),
        |i: int| flush_op(ciphertext, nonce, tag, i),
    )
}

/// Replaying one operation more applies it to what the others left.
pub proof fn lemma_replay_step(words: Seq<u32>, ops: Seq<FlashOp>, k: int)
    requires
        0 <= k < ops.len(),
    ensures
        replay(words, ops.take(k + 1)) == op_effect(replay(words, ops.take(k)), ops[k]),
{
    assert(ops.take(k + 1).drop_last() =~= ops.take(k));
}

/// Words that were packed from bytes hold those bytes.
pub proof fn lemma_packed_words_hold_bytes(words: Seq<u32>, first: int, bytes: Seq<u8>)
    requires
        forall|w: int| 0 <= w < (bytes.len() + 3) / 4 ==> #[trigger] words[first + w] == packed_word(bytes, w),
    ensures
        words_bytes(words, first, bytes.len()) == bytes,
{
    assert forall|i: int| 0 <= i < bytes.len() implies words_bytes(words, first, bytes.len())[i]
        == bytes[i] by {
        let w = i / 4;
        let quad = seq![
            padded_byte(bytes, 4 * w),
            padded_byte(bytes, 4 * w + 1),
            padded_byte(bytes, 4 * w + 2),
            padded_byte(bytes, 4 * w + 3),
        ];
        lemma_u32_le_bytes_round_trip(quad);
        assert(words[first + w] == packed_word(bytes, w));
        assert(quad[i % 4] == bytes[i]);
    }
    assert(words_bytes(words, first, bytes.len()) =~= bytes);
}

/// Packs bytes `4 * w` to `4 * w + 3` into a flash word.
fn pack_word(bytes: &[u8], w: usize) -> (word: u32)
    requires
        w <= 1024,
    ensures
        word == packed_word(bytes@, w as int),
{
    let len = bytes.len();
    let at = 4 * w;
    let b0: u32 = if at < len { bytes[at] as u32 } else { 0xFF };
    let b1: u32 = if at + 1 < len { bytes[at + 1] as u32 } else { 0xFF };
    let b2: u32 = if at + 2 < len { bytes[at + 2] as u32 } else { 0xFF };
    let b3: u32 = if at + 3 < len { bytes[at + 3] as u32 } else { 0xFF };
    b0 + b1 * 0x100 + b2 * 0x1_0000 + b3 * 0x100_0000
}

/// Packs bytes `16 * b` to `16 * b + 15` into a 128-bit block.
fn pack_block(bytes: &[u8], b: usize) -> (block: [u32; 4])
    requires
        b <= 128,
    ensures
        block == packed_block(bytes@, b as int),
{
    let block = [
        pack_word(bytes, 4 * b),
        pack_word(bytes, 4 * b + 1),
        pack_word(bytes, 4 * b + 2),
        pack_word(bytes, 4 * b + 3),
    ];
    assert(block@ =~= packed_block(bytes@, b as int)@);
    block
}

/// The four bytes of a flash word, lowest address first.
fn unpack_word(word: u32) -> (bytes: [u8; 4])
    ensures
        bytes@ == u32_to_le(word),
{
    let bytes = [
        (word % 0x100) as u8,
        (word / 0x100 % 0x100) as u8,
        (word / 0x1_0000 % 0x100) as u8,
        (word / 0x100_0000) as u8,
    ];
    assert(bytes@ =~= u32_to_le(word));
    bytes
}

/// Why the image could not be read.
#[derive(Debug)]
pub enum DecoderStorageReadError {
    /// The length that the image states is more than an image can hold.
    FlashLengthTooLarge,
    /// The flash refused an operation.
    FlashError,
}

impl From<FlashError> for DecoderStorageReadError {
    fn from(e: FlashError) -> (r: Self) {
        DecoderStorageReadError::FlashError
    }
}

impl vstd::std_specs::convert::FromSpecImpl<FlashError> for DecoderStorageReadError {
    open spec fn obeys_from_spec() -> bool {
        true
    }

    open spec fn from_spec(e: FlashError) -> Self {
        DecoderStorageReadError::FlashError
    }
}

/// Why the image could not be written.
#[derive(Debug)]
pub enum DecoderStorageWriteError {
    /// The flash refused an operation.
    FlashError,
    /// The buffer could not be encrypted: no fresh nonce was at hand, or
    /// the cipher refused the buffer.
    CryptoError,
}

impl From<FlashError> for DecoderStorageWriteError {
    fn from(e: FlashError) -> (r: Self) {
        DecoderStorageWriteError::FlashError
    }
}

impl vstd::std_specs::convert::FromSpecImpl<FlashError> for DecoderStorageWriteError {
    open spec fn obeys_from_spec() -> bool {
        true
    }

    open spec fn from_spec(e: FlashError) -> Self {
        DecoderStorageWriteError::FlashError
    }
}


/// A flush that stops short leaves no complete image.  Whatever the page
/// held before, once the flush has erased it and until its last operation
/// writes the magic, the page holds no magic, and a boot finds nothing in
/// it.
pub proof fn lemma_interrupted_flush_leaves_no_image(
    words: Seq<u32>,
    ciphertext: Seq<u8>,
    nonce: Seq<u8>,
    tag: Seq<u8>,
    done: int,
)
    requires
        words.len() == FLASH_PAGE_WORDS,
        ciphertext.len() <= STORAGE_MAX,
        1 <= done < flush_plan(ciphertext, nonce, tag).len(),
    ensures
        replay(words, flush_plan(ciphertext, nonce, tag).take(done)).len() == FLASH_PAGE_WORDS,
        replay(words, flush_plan(ciphertext, nonce, tag).take(done))[0] == FLASH_ERASED_WORD,
        !image_complete(replay(words, flush_plan(ciphertext, nonce, tag).take(done))),
        boot_buffer(replay(words, flush_plan(ciphertext, nonce, tag).take(done))) == Seq::<u8>::empty(),
    decreases done,
{
    let plan = flush_plan(ciphertext, nonce, tag);
    lemma_replay_step(words, plan, done - 1);
    if done == 1 {
        assert(plan.take(0) =~= Seq::<FlashOp>::empty());
    } else {
        lemma_interrupted_flush_leaves_no_image(words, ciphertext, nonce, tag, done - 1);
    }
}

/// A flush that never began leaves the page as it was.
pub proof fn lemma_flush_not_begun_changes_nothing(
    words: Seq<u32>,
    ciphertext: Seq<u8>,
    nonce: Seq<u8>,
    tag: Seq<u8>,
)
    ensures
        replay(words, flush_plan(ciphertext, nonce, tag).take(0)) == words,
{
    assert(flush_plan(ciphertext, nonce, tag).take(0) =~= Seq::<FlashOp>::empty());
}

/// What holds of the page while the ciphertext is being written: the header
/// is in place but for the magic, the first `blocks` blocks of ciphertext
/// are in place, and everything behind them is erased.
pub open spec fn image_staged(
    words: Seq<u32>,
    ciphertext: Seq<u8>,
    nonce: Seq<u8>,
    tag: Seq<u8>,
    blocks: int,
) -> bool {
    &&& words.len() == FLASH_PAGE_WORDS
    &&& words[0] == FLASH_ERASED_WORD
    &&& words[1] == ciphertext.len() as u32
    &&& forall|w: int| 0 <= w < 6 ==> #[trigger] words[2 + w] == packed_word(nonce, w)
    &&& forall|w: int| 0 <= w < 4 ==> #[trigger] words[8 + w] == packed_word(tag, w)
    &&& forall|w: int| 0 <= w < 4 * blocks ==> #[trigger] words[12 + w] == packed_word(ciphertext, w)
    &&& forall|i: int| 12 + 4 * blocks <= i < FLASH_PAGE_WORDS ==> #[trigger] words[i] == FLASH_ERASED_WORD
}

/// Writes the three header blocks of an image, the magic left out, on a
/// page that was just erased.
fn write_image_header(
    flash: &mut FlashPage,
    len: u32,
    nonce: &XChacha20Nonce,
    tag: &XChacha20Tag,
    Ghost(ciphertext): Ghost<Seq<u8>>,
    Ghost(old_words): Ghost<Seq<u32>>,
    Ghost(old_journal): Ghost<Seq<FlashOp>>,
)
    requires
        old(flash).wf(),
        !old(flash).write_protected(),
        ciphertext.len() == len,
        len <= STORAGE_MAX_U32,
        old(flash).words() == erased_words(),
        old(flash).words() == replay(old_words, flush_plan(ciphertext, nonce@, tag@).take(1)),
        old(flash).journal() == old_journal + flush_plan(ciphertext, nonce@, tag@).take(1),
    ensures
        final(flash).wf(),
        !final(flash).write_protected(),
        final(flash).words() == replay(old_words, flush_plan(ciphertext, nonce@, tag@).take(4)),
        final(flash).journal() == old_journal + flush_plan(ciphertext, nonce@, tag@).take(4),
        image_staged(final(flash).words(), ciphertext, nonce@, tag@, 0),
{
    let ghost plan = flush_plan(ciphertext, nonce@, tag@);
    let header = [
        FLASH_ERASED_WORD,
        len,
        pack_word(nonce.as_slice(), 0),
        pack_word(nonce.as_slice(), 1),
    ];
    proof {
        lemma_erased_word_takes_any(header[0]);
        lemma_erased_word_takes_any(header[1]);
        lemma_erased_word_takes_any(header[2]);
        lemma_erased_word_takes_any(header[3]);
        lemma_replay_step(old_words, plan, 1);
        assert(plan[1] == FlashOp::Write128 { address: PERSIST_BASE_ADDR, data: header });
    }
    let written = flash.write_128(PERSIST_BASE_ADDR, &header);
    assert(written is Ok);
    assert(flash.journal() =~= old_journal + plan.take(2));

    let low_nonce = [
        pack_word(nonce.as_slice(), 2),
        pack_word(nonce.as_slice(), 3),
        pack_word(nonce.as_slice(), 4),
        pack_word(nonce.as_slice(), 5),
    ];
    proof {
        lemma_erased_word_takes_any(low_nonce[0]);
        lemma_erased_word_takes_any(low_nonce[1]);
        lemma_erased_word_takes_any(low_nonce[2]);
        lemma_erased_word_takes_any(low_nonce[3]);
        lemma_replay_step(old_words, plan, 2);
        assert(plan[2] == FlashOp::Write128 {
            address: (PERSIST_BASE_ADDR + 16) as u32,
            data: low_nonce,
        });
    }
    let written = flash.write_128(PERSIST_BASE_ADDR + 16, &low_nonce);
    assert(written is Ok);
    assert(flash.journal() =~= old_journal + plan.take(3));

    let tag_block = pack_block(tag.as_slice(), 0);
    proof {
        lemma_erased_word_takes_any(tag_block[0]);
        lemma_erased_word_takes_any(tag_block[1]);
        lemma_erased_word_takes_any(tag_block[2]);
        lemma_erased_word_takes_any(tag_block[3]);
        lemma_replay_step(old_words, plan, 3);
        assert(plan[3] == FlashOp::Write128 {
            address: (PERSIST_BASE_ADDR + 32) as u32,
            data: tag_block,
        });
    }
    let written = flash.write_128(PERSIST_BASE_ADDR + 32, &tag_block);
    assert(written is Ok);
    assert(flash.journal() =~= old_journal + plan.take(4));
    proof {
        let words = flash.words();
        assert forall|w: int| 0 <= w < 6 implies #[trigger] words[2 + w] == packed_word(nonce@, w) by {
            if w == 0 {
            } else if w == 1 {
            } else if w == 2 {
            } else if w == 3 {
            } else if w == 4 {
            } else {
            }
        }
        assert forall|w: int| 0 <= w < 4 implies #[trigger] words[8 + w] == packed_word(tag@, w) by {
            if w == 0 {
            } else if w == 1 {
            } else if w == 2 {
            } else {
            }
        }
    }
}

/// Writes the ciphertext of an image block by block, behind its header.
fn write_image_data(
    flash: &mut FlashPage,
    ciphertext: &[u8],
    Ghost(nonce): Ghost<Seq<u8>>,
    Ghost(tag): Ghost<Seq<u8>>,
    Ghost(old_words): Ghost<Seq<u32>>,
    Ghost(old_journal): Ghost<Seq<FlashOp>>,
)
    requires
        old(flash).wf(),
        !old(flash).write_protected(),
        ciphertext@.len() <= STORAGE_MAX,
        old(flash).words() == replay(old_words, flush_plan(ciphertext@, nonce, tag).take(4)),
        old(flash).journal() == old_journal + flush_plan(ciphertext@, nonce, tag).take(4),
        image_staged(old(flash).words(), ciphertext@, nonce, tag, 0),
    ensures
        final(flash).wf(),
        !final(flash).write_protected(),
        final(flash).words() == replay(
            old_words,
            flush_plan(ciphertext@, nonce, tag).take(4 + data_blocks(ciphertext@.len()) as int),
        ),
        final(flash).journal() == old_journal + flush_plan(ciphertext@, nonce, tag).take(
            4 + data_blocks(ciphertext@.len()) as int,
        ),
        image_staged(
            final(flash).words(),
            ciphertext@,
            nonce,
            tag,
            data_blocks(ciphertext@.len()) as int,
        ),
{
    let ghost plan = flush_plan(ciphertext@, nonce, tag);
    let len = ciphertext.len();
    let blocks = (len + 15) / 16;
    let mut b: usize = 0;
    while b < blocks
        invariant
            flash.wf(),
            !flash.write_protected(),
            ciphertext@.len() == len,
            len <= STORAGE_MAX,
            blocks == data_blocks(len as nat),
            b <= blocks,
            plan == flush_plan(ciphertext@, nonce, tag),
            flash.words() == replay(old_words, plan.take(4 + b)),
            flash.journal() == old_journal + plan.take(4 + b),
            image_staged(flash.words(), ciphertext@, nonce, tag, b as int),
        decreases blocks - b,
    {
        let block = pack_block(ciphertext, b);
        let address = DATA_BASE_ADDR + 16 * (b as u32);
        let ghost before = flash.words();
        proof {
            lemma_erased_word_takes_any(block[0]);
            lemma_erased_word_takes_any(block[1]);
            lemma_erased_word_takes_any(block[2]);
            lemma_erased_word_takes_any(block[3]);
            lemma_replay_step(old_words, plan, 4 + b);
            assert(plan[4 + b] == FlashOp::Write128 { address, data: block });
            assert(word_index(address) == 12 + 4 * b);
            assert(before[12 + 4 * b] == FLASH_ERASED_WORD);
            assert(before[12 + 4 * b + 1] == FLASH_ERASED_WORD);
            assert(before[12 + 4 * b + 2] == FLASH_ERASED_WORD);
            assert(before[12 + 4 * b + 3] == FLASH_ERASED_WORD);
        }
        let written = flash.write_128(address, &block);
        assert(written is Ok);
        proof {
            let words = flash.words();
            assert(flash.journal() =~= old_journal + plan.take(4 + b + 1));
            assert forall|w: int| 0 <= w < 4 * (b + 1) implies #[trigger] words[12 + w]
                == packed_word(ciphertext@, w) by {
                if w < 4 * b {
                    assert(before[12 + w] == packed_word(ciphertext@, w));
                }
            }
            assert forall|w: int| 0 <= w < 6 implies #[trigger] words[2 + w] == packed_word(nonce, w) by {
                assert(before[2 + w] == packed_word(nonce, w));
            }
            assert forall|w: int| 0 <= w < 4 implies #[trigger] words[8 + w] == packed_word(tag, w) by {
                assert(before[8 + w] == packed_word(tag, w));
            }
        }
        b += 1;
    }
}

impl FlashPage {
    /// Writes an image to the page: the page is erased; the header is
    /// written with the magic left out; the ciphertext follows block by
    /// block; the magic is written last, so that the image is complete only
    /// once all of it is in place.  A protected page is left as it is.
    pub fn write_image(&mut self, ciphertext: &[u8], nonce: &XChacha20Nonce, tag: &XChacha20Tag) -> (written:
        Result<(), FlashError>)
        requires
            old(self).wf(),
            ciphertext@.len() <= STORAGE_MAX,
        ensures
            final(self).wf(),
            final(self).write_protected() == old(self).write_protected(),
            written is Ok <==> !old(self).write_protected(),
            written matches Err(e) ==> e == FlashError::AccessViolation && *final(self) == *old(self),
            written is Ok ==> {
                let plan = flush_plan(ciphertext@, nonce@, tag@);
                let words = final(self).words();
                &&& words == replay(old(self).words(), plan)
                &&& final(self).journal() == old(self).journal() + plan
                &&& image_complete(words)
                &&& stored_length(words) == ciphertext@.len()
                &&& stored_nonce(words) == nonce@
                &&& stored_tag(words) == tag@
                &&& stored_ciphertext(words) == ciphertext@
            },
    {
        let ghost old_words = self.words();
        let ghost old_journal = self.journal();
        let ghost plan = flush_plan(ciphertext@, nonce@, tag@);
        let len = ciphertext.len();
        match self.erase_page(PERSIST_BASE_ADDR) {
            Ok(()) => {},
            Err(e) => {
                return Err(e);
            },
        }
        proof {
            assert(plan.take(0) =~= Seq::<FlashOp>::empty());
            lemma_replay_step(old_words, plan, 0);
            assert(self.journal() =~= old_journal + plan.take(1));
        }
        write_image_header(
            self,
            len as u32,
            nonce,
            tag,
            Ghost(ciphertext@),
            Ghost(old_words),
            Ghost(old_journal),
        );
        write_image_data(
            self,
            ciphertext,
            Ghost(nonce@),
            Ghost(tag@),
            Ghost(old_words),
            Ghost(old_journal),
        );
        proof {
            let blocks = data_blocks(len as nat) as int;
            lemma_replay_step(old_words, plan, 4 + blocks);
            assert(plan.take(5 + blocks) =~= plan);
            lemma_erased_word_takes_any(FLASH_INITIALIZED_MAGIC);
        }
        let magic = self.write_32(PERSIST_BASE_ADDR, FLASH_INITIALIZED_MAGIC);
        assert(magic is Ok);
        proof {
            let words = self.words();
            assert(self.journal() =~= old_journal + plan);
            lemma_packed_words_hold_bytes(words, 12, ciphertext@);
            lemma_packed_words_hold_bytes(words, 2, nonce@);
            lemma_packed_words_hold_bytes(words, 8, tag@);
        }
        Ok(())
    }

    /// Reads the image of the page, whether complete or not: the ciphertext
    /// goes to the buffer, in place of what it held; nonce and tag are
    /// returned.  An image that states a length beyond what an image can
    /// hold is not read.
    pub fn read_image(&self, buf: &mut heapless::Vec<u8, 1024>) -> (read: Result<
        (XChacha20Nonce, XChacha20Tag),
        DecoderStorageReadError,
    >)
        requires
            self.wf(),
        ensures
            read is Ok <==> stored_length(self.words()) <= STORAGE_MAX,
            read matches Err(e) ==> e is FlashLengthTooLarge && buffer_bytes(*final(buf))
                == buffer_bytes(*old(buf)),
            read matches Ok((nonce, tag)) ==> {
                &&& nonce@ == stored_nonce(self.words())
                &&& tag@ == stored_tag(self.words())
                &&& buffer_bytes(*final(buf)) == stored_ciphertext(self.words())
            },
    {
        let ghost words = self.words();
        let length = match self.read_32(DATA_LEN_ADDR) {
            Ok(word) => word,
            Err(_) => {
                return Err(DecoderStorageReadError::FlashError);
            },
        };
        if length > STORAGE_MAX_U32 {
            return Err(DecoderStorageReadError::FlashLengthTooLarge);
        }
        buffer_clear(buf);
        let mut done: u32 = 0;
        while done < length
            invariant
                self.wf(),
                words == self.words(),
                length == stored_length(words),
                length <= STORAGE_MAX_U32,
                done <= length,
                done % 4 == 0 || done == length,
                buffer_bytes(*buf) == words_bytes(words, 12, done as nat),
            decreases length - done,
        {
            let word = match self.read_32(DATA_BASE_ADDR + done) {
                Ok(word) => word,
                Err(_) => {
                    return Err(DecoderStorageReadError::FlashError);
                },
            };
            let bytes = unpack_word(word);
            let left = length - done;
            let take: usize = if left >= 4 { 4 } else { left as usize };
            let part = vstd::slice::slice_subrange(bytes.as_slice(), 0, take);
            let extended = buffer_extend_from_slice(buf, part);
            assert(extended is Ok);
            assert(buffer_bytes(*buf) =~= words_bytes(words, 12, (done + take) as nat));
            done = done + take as u32;
        }
        Ok((self.read_nonce(), self.read_tag()))
    }

    /// Reads the nonce of the image.
    fn read_nonce(&self) -> (nonce: XChacha20Nonce)
        requires
            self.wf(),
        ensures
            nonce@ == stored_nonce(self.words()),
    {
        let mut nonce = [0u8; 24];
        let mut w: usize = 0;
        while w < 6
            invariant
                self.wf(),
                w <= 6,
                forall|i: int| 0 <= i < 4 * w ==> nonce@[i] == stored_nonce(self.words())[i],
            decreases 6 - w,
        {
            let read = self.read_32(PERSIST_BASE_ADDR + 8 + 4 * (w as u32));
            let bytes = match read {
                Ok(word) => unpack_word(word),
                Err(_) => [0u8; 4],
            };
            assert(read is Ok);
            nonce[4 * w] = bytes[0];
            nonce[4 * w + 1] = bytes[1];
            nonce[4 * w + 2] = bytes[2];
            nonce[4 * w + 3] = bytes[3];
            w += 1;
        }
        assert(nonce@ =~= stored_nonce(self.words()));
        nonce
    }

    /// Reads the tag of the image.
    fn read_tag(&self) -> (tag: XChacha20Tag)
        requires
            self.wf(),
        ensures
            tag@ == stored_tag(self.words()),
    {
        let mut tag = [0u8; 16];
        let mut w: usize = 0;
        while w < 4
            invariant
                self.wf(),
                w <= 4,
                forall|i: int| 0 <= i < 4 * w ==> tag@[i] == stored_tag(self.words())[i],
            decreases 4 - w,
        {
            let read = self.read_32(PERSIST_BASE_ADDR + 32 + 4 * (w as u32));
            let bytes = match read {
                Ok(word) => unpack_word(word),
                Err(_) => [0u8; 4],
            };
            assert(read is Ok);
            tag[4 * w] = bytes[0];
            tag[4 * w + 1] = bytes[1];
            tag[4 * w + 2] = bytes[2];
            tag[4 * w + 3] = bytes[3];
            w += 1;
        }
        assert(tag@ =~= stored_tag(self.words()));
        tag
    }
}

impl From<DecoderStorageWriteError> for DecoderError {
    fn from(e: DecoderStorageWriteError) -> (r: Self) {
        DecoderError::SavingFailed
    }
}

impl vstd::std_specs::convert::FromSpecImpl<DecoderStorageWriteError> for DecoderError {
    open spec fn obeys_from_spec() -> bool {
        true
    }

    open spec fn from_spec(e: DecoderStorageWriteError) -> Self {
        DecoderError::SavingFailed
    }
}

/// `Zeroize::zeroize` on a byte slice: every byte becomes zero.
#[verifier::external_body]
fn zeroize_bytes(bytes: &mut [u8])
    ensures
        final(bytes)@ == Seq::new(old(bytes)@.len(), |i: int| 0u8),
{
    zeroize::Zeroize::zeroize(bytes)
}

/// The persistence layer: the reserved flash page, the buffer in RAM that
/// the subscription table is serialized in, and the nonce for the next
/// write.
pub struct DecoderStorage {
    flash: FlashPage,
    nonce: Option<XChacha20Nonce>,
    buf: heapless::Vec<u8, 1024>,
}

impl DecoderStorage {
    /// The flash page.
    pub closed spec fn flash(&self) -> FlashPage {
        self.flash
    }

    /// The bytes in the buffer.
    pub closed spec fn buffer(&self) -> Seq<u8> {
        buffer_bytes(self.buf)
    }

    /// The nonce that the next flush will use, if one was loaded.
    pub closed spec fn fresh_nonce(&self) -> Option<Seq<u8>> {
        match self.nonce {
            Some(nonce) => Some(nonce@),
            None => None,
        }
    }

    /// The storage holds a whole page.
    pub open spec fn wf(&self) -> bool {
        self.flash().wf()
    }

    /// The state in which `init` leaves the storage: the page holds a
    /// complete image of a length that fits, and the buffer holds what a
    /// boot finds in it.
    pub open spec fn booted(&self) -> bool {
        &&& self.wf()
        &&& image_complete(self.flash().words())
        &&& stored_length(self.flash().words()) <= STORAGE_MAX
        &&& self.buffer() == boot_buffer(self.flash().words())
    }

    /// Takes over the flash page at boot.  A page without the magic is reset
    /// to a complete image of no data; the image of a page with the magic is
    /// read into the buffer.
    pub fn init(flash: FlashPage) -> (booted: Result<DecoderStorage, DecoderStorageReadError>)
        requires
            flash.wf(),
        ensures
            match booted {
                Ok(storage) => {
                    &&& storage.booted()
                    &&& storage.fresh_nonce() is None
                    &&& storage.flash().write_protected() == flash.write_protected()
                    &&& if image_complete(flash.words()) {
                        &&& stored_length(flash.words()) <= STORAGE_MAX
                        &&& storage.flash() == flash
                        &&& storage.buffer() == boot_buffer(flash.words())
                    } else {
                        &&& !flash.write_protected()
                        &&& storage.flash().words() == replay(flash.words(), reset_plan())
                        &&& storage.flash().journal() == flash.journal() + reset_plan()
                        &&& storage.buffer() == Seq::<u8>::empty()
                    }
                },
                Err(e) => if image_complete(flash.words()) {
                    stored_length(flash.words()) > STORAGE_MAX && e
                        is FlashLengthTooLarge
                } else {
                    flash.write_protected() && e is FlashError
                },
            },
    {
        let mut storage = DecoderStorage { flash, nonce: None, buf: buffer_new() };
        let read_magic = match storage.flash.read_32(PERSIST_BASE_ADDR) {
            Ok(word) => word,
            Err(_) => {
                return Err(DecoderStorageReadError::FlashError);
            },
        };
        if read_magic != FLASH_INITIALIZED_MAGIC {
            match storage.reset_storage() {
                Ok(()) => {},
                Err(_) => {
                    return Err(DecoderStorageReadError::FlashError);
                },
            }
        } else {
            match storage.fill_buffer() {
                Ok(()) => {},
                Err(e) => {
                    return Err(e);
                },
            }
        }
        Ok(storage)
    }

    /// Resets the flash so that the next boot reads an empty buffer.
    pub fn reset_storage(&mut self) -> (reset: Result<(), DecoderStorageWriteError>)
        requires
            old(self).wf(),
        ensures
            final(self).wf(),
            final(self).flash().write_protected() == old(self).flash().write_protected(),
            final(self).fresh_nonce() == old(self).fresh_nonce(),
            reset is Ok <==> !old(self).flash().write_protected(),
            reset matches Err(e) ==> e is FlashError,
            reset is Ok ==> {
                &&& final(self).flash().words() == replay(old(self).flash().words(), reset_plan())
                &&& final(self).flash().journal() == old(self).flash().journal() + reset_plan()
                &&& final(self).buffer() == Seq::<u8>::empty()
                &&& final(self).booted()
            },
            reset is Err ==> final(self).flash() == old(self).flash() && final(self).buffer() == old(self).buffer(),
    {
        match self.erase_page() {
            Ok(()) => {},
            Err(_) => {
                return Err(DecoderStorageWriteError::FlashError);
            },
        }
        let header = [FLASH_INITIALIZED_MAGIC, 0u32, FLASH_ERASED_WORD, FLASH_ERASED_WORD];
        proof {
            lemma_erased_word_takes_any(FLASH_INITIALIZED_MAGIC);
            lemma_erased_word_takes_any(0u32);
            lemma_erased_word_takes_any(FLASH_ERASED_WORD);
            let plan = reset_plan();
            lemma_replay_step(old(self).flash().words(), plan, 0);
            lemma_replay_step(old(self).flash().words(), plan, 1);
            assert(plan.take(2) =~= plan);
            assert(plan.take(0) =~= Seq::<FlashOp>::empty());
        }
        let written = self.flash.write_128(PERSIST_BASE_ADDR, &header);
        assert(written is Ok);
        assert(self.flash.journal() =~= old(self).flash().journal() + reset_plan());
        self.wipe_buffer();
        proof {
            let words = self.flash.words();
            assert(words[0] == FLASH_INITIALIZED_MAGIC);
            assert(words[1] == 0);
            match stored_plaintext(words) {
                Some(plaintext) => {
                    assert(plaintext =~= Seq::<u8>::empty());
                },
                None => {},
            }
        }
        Ok(())
    }

    /// Fills the buffer in RAM with what the image in flash holds.  An image
    /// whose tag does not hold leaves the buffer empty.
    pub fn fill_buffer(&mut self) -> (filled: Result<(), DecoderStorageReadError>)
        requires
            old(self).wf(),
        ensures
            final(self).wf(),
            final(self).flash() == old(self).flash(),
            final(self).fresh_nonce() == old(self).fresh_nonce(),
            filled is Ok <==> stored_length(old(self).flash().words()) <= STORAGE_MAX,
            filled matches Err(e) ==> e is FlashLengthTooLarge,
            filled is Ok ==> final(self).buffer() == match stored_plaintext(
                old(self).flash().words(),
            ) {
                Some(plaintext) => plaintext,
                None => Seq::<u8>::empty(),
            },
            filled is Err ==> final(self).buffer() == old(self).buffer(),
    {
        let (nonce, tag) = match self.flash.read_image(&mut self.buf) {
            Ok(header) => header,
            Err(e) => {
                return Err(e);
            },
        };
        let opened = decrypt_flash_buffer(buffer_as_mut_slice(&mut self.buf), &nonce, &tag);
        match opened {
            Ok(()) => {},
            Err(_) => {
                // The image does not authenticate: assume that something
                // nefarious is going on and wipe the buffer clean.
                self.wipe_buffer();
            },
        }
        Ok(())
    }

    /// Writes the buffer out to flash as a new image, encrypted under the
    /// loaded nonce, and wipes the buffer.  The nonce is used up.  Nothing
    /// is touched where the page is protected or no nonce is loaded.
    pub fn flush_buffer(&mut self) -> (flushed: Result<(), DecoderStorageWriteError>)
        requires
            old(self).wf(),
        ensures
            final(self).wf(),
            final(self).flash().write_protected() == old(self).flash().write_protected(),
            flushed is Ok <==> !old(self).flash().write_protected() && old(self).fresh_nonce()
                is Some,
            flushed matches Err(e) ==> (e is FlashError <==> old(self).flash().write_protected()),
            flushed is Err ==> {
                &&& final(self).flash() == old(self).flash()
                &&& final(self).buffer() == old(self).buffer()
                &&& final(self).fresh_nonce() == old(self).fresh_nonce()
            },
            flushed is Ok ==> {
                let nonce = old(self).fresh_nonce().unwrap();
                let sealed = aead_seal(FLASH_KEY@, nonce, old(self).buffer());
                let plan = flush_plan(sealed.0, nonce, sealed.1);
                &&& final(self).flash().words() == replay(old(self).flash().words(), plan)
                &&& final(self).flash().journal() == old(self).flash().journal() + plan
                &&& final(self).buffer() == Seq::<u8>::empty()
                &&& final(self).fresh_nonce() is None
                &&& image_complete(final(self).flash().words())
                &&& stored_length(final(self).flash().words()) <= STORAGE_MAX
                &&& boot_buffer(final(self).flash().words()) == old(self).buffer()
            },
    {
        if self.flash.is_write_protected() {
            return Err(DecoderStorageWriteError::FlashError);
        }
        let nonce = match self.nonce {
            Some(nonce) => nonce,
            None => {
                return Err(DecoderStorageWriteError::CryptoError);
            },
        };
        let len = buffer_len(&self.buf);
        let tag = match encrypt_flash_buffer(buffer_as_mut_slice(&mut self.buf), nonce) {
            Ok((_, tag)) => tag,
            Err(_) => {
                assert(false);
                return Err(DecoderStorageWriteError::CryptoError);
            },
        };
        self.nonce = None;
        let written = self.flash.write_image(buffer_as_slice(&self.buf), &nonce, &tag);
        assert(written is Ok);
        self.wipe_buffer();
        Ok(())
    }

    /// Erases the reserved page.
    fn erase_page(&mut self) -> (erased: Result<(), FlashError>)
        requires
            old(self).wf(),
        ensures
            final(self).wf(),
            final(self).flash().write_protected() == old(self).flash().write_protected(),
            final(self).fresh_nonce() == old(self).fresh_nonce(),
            final(self).buffer() == old(self).buffer(),
            erased is Ok <==> !old(self).flash().write_protected(),
            erased is Ok ==> final(self).flash().words() == erased_words() && final(self).flash().journal() == old(self).flash().journal().push(
                FlashOp::ErasePage { address: PERSIST_BASE_ADDR },
            ),
            erased is Err ==> final(self).flash() == old(self).flash(),
    {
        self.flash.erase_page(PERSIST_BASE_ADDR)
    }

    /// The buffer in RAM, to read or to fill.
    pub fn get_buf_mut(&mut self) -> (buf: &mut heapless::Vec<u8, 1024>)
        ensures
            buffer_bytes(*buf) == old(self).buffer(),
            final(self).buffer() == buffer_bytes(*final(buf)),
            final(self).flash() == old(self).flash(),
            final(self).fresh_nonce() == old(self).fresh_nonce(),
    {
        &mut self.buf
    }

    /// Overwrites every byte of the buffer with zero.
    pub fn zeroize_buffer(&mut self)
        ensures
            final(self).buffer() == Seq::new(old(self).buffer().len(), |i: int| 0u8),
            final(self).flash() == old(self).flash(),
            final(self).fresh_nonce() == old(self).fresh_nonce(),
    {
        zeroize_bytes(buffer_as_mut_slice(&mut self.buf));
    }

    /// Overwrites the buffer with zeros and empties it.
    pub fn wipe_buffer(&mut self)
        ensures
            final(self).buffer() == Seq::<u8>::empty(),
            final(self).flash() == old(self).flash(),
            final(self).fresh_nonce() == old(self).fresh_nonce(),
    {
        self.zeroize_buffer();
        buffer_clear(&mut self.buf);
    }

    /// Loads the nonce for the next flush.  It must be fresh: random, and
    /// never loaded before.
    pub fn load_nonce(&mut self, nonce: XChacha20Nonce)
        ensures
            final(self).fresh_nonce() == Some(nonce@),
            final(self).flash() == old(self).flash(),
            final(self).buffer() == old(self).buffer(),
    {
        self.nonce = Some(nonce);
    }

    /// The flash page as it stands.
    pub fn flash_page(&self) -> (page: &FlashPage)
        ensures
            *page == self.flash(),
    {
        &self.flash
    }

    /// Gives the flash page back, as at power-off.
    pub fn into_flash(self) -> (page: FlashPage)
        ensures
            page == self.flash(),
    {
        self.flash
    }

    /// Hands over the flash operations made since the last call, in order.
    pub fn take_journal(&mut self) -> (ops: Vec<FlashOp>)
        ensures
            ops@ == old(self).flash().journal(),
            final(self).flash().journal() == Seq::<FlashOp>::empty(),
            final(self).flash().words() == old(self).flash().words(),
            final(self).flash().write_protected() == old(self).flash().write_protected(),
            final(self).buffer() == old(self).buffer(),
            final(self).fresh_nonce() == old(self).fresh_nonce(),
    {
        self.flash.take_journal()
    }
}

} // verus!
