use vstd::prelude::*;

use chacha20::cipher::{KeyIvInit, StreamCipher, StreamCipherSeek};

verus! {

/// Number of keystream bytes that the chacha20 crate produces for one key
/// and nonce: 64-byte blocks, with a 32-bit block counter that stops one
/// block short of wrapping.
pub const KEYSTREAM_LIMIT: u64 = 274877906880;

/// The ChaCha20 keystream byte at `position` for `key` and `nonce`.
pub uninterp spec fn chacha20_keystream_byte(key: Seq<u8>, nonce: Seq<u8>, position: int) -> u8;

/// `data` XORed with the keystream of `key` (zero nonce), starting at `start`.
pub open spec fn xor_keystream(key: Seq<u8>, start: int, data: Seq<u8>) -> Seq<u8> {
    Seq::new(
        data.len(),
        |i: int| data[i] ^ chacha20_keystream_byte(key, seq![0u8; 12], start + i),
    )
}

/// Relies on chacha20::ChaCha20: `new` with the key and nonce, `seek` to a byte
/// offset of the keystream, and `apply_keystream`, which XORs each byte of the
/// buffer with the keystream byte at its position. Both panic past the end of
/// the keystream, which `requires` rules out.
#[verifier::external_body]
fn chacha20_xor_at(key: &[u8; 32], nonce: &[u8; 12], offset: u64, data: &mut Vec<u8>)
    requires
        offset + old(data)@.len() <= KEYSTREAM_LIMIT,
    ensures
        final(data)@ == Seq::new(
            old(data)@.len(),
            |i: int| old(data)@[i] ^ chacha20_keystream_byte(key@, nonce@, offset + i),
        ),
{
    let mut cipher = chacha20::ChaCha20::new(&(*key).into(), &(*nonce).into());
    cipher.seek(offset);
    cipher.apply_keystream(data.as_mut_slice());
}

/// The state of one keystream: its key and how many bytes of it are used up.
pub struct Keystream {
    key: [u8; 32],
    position: u64,
}

pub struct KeystreamView {
    pub key: Seq<u8>,
    pub position: int,
}

impl View for Keystream {
    type V = KeystreamView;

    closed spec fn view(&self) -> KeystreamView {
        KeystreamView { key: self.key@, position: self.position as int }
    }
}

impl Keystream {
    /// A fresh keystream for a 32-byte key.
    pub fn new(key: &[u8; 32]) -> (r: Keystream)
        ensures
            r@.key == key@,
            r@.position == 0,
    {
        Keystream { key: *key, position: 0 }
    }

    /// Whether `len` more bytes can still be processed.
    pub open spec fn has_room(&self, len: int) -> bool {
        self@.position + len <= KEYSTREAM_LIMIT
    }

    /// Whether `len` more bytes can still be processed.
    pub fn has_room_for(&self, len: usize) -> (r: bool)
        ensures
            r == self.has_room(len as int),
    {
        self.position <= KEYSTREAM_LIMIT && len as u64 <= KEYSTREAM_LIMIT - self.position
    }

    /// XORs `data` in place with the next `data.len()` keystream bytes.
    pub fn apply(&mut self, data: &mut Vec<u8>)
        requires
            old(self).has_room(old(data)@.len() as int),
        ensures
            final(self)@.key == old(self)@.key,
            final(self)@.position == old(self)@.position + old(data)@.len(),
            final(data)@ == xor_keystream(old(self)@.key, old(self)@.position, old(data)@),
    {
        // every keystream of the protocol uses the all-zero nonce
        let nonce: [u8; 12] = [0u8; 12];
        assert(nonce@ == seq![0u8; 12]);
        let ghost before = data@;
        chacha20_xor_at(&self.key, &nonce, self.position, data);
        assert(data@ =~= xor_keystream(self@.key, self@.position, before));
        self.position = self.position + data.len() as u64;
    }
}

/// A keystream for `key`, which must be 32 bytes long.
pub fn get_chacha20(key: &[u8]) -> (r: Keystream)
    requires
        key@.len() == 32,
    ensures
        r@.key == key@,
        r@.position == 0,
{
    let mut k = [0u8; 32];
    let mut i: usize = 0;
    while i < 32
        invariant
            key@.len() == 32,
            0 <= i <= 32,
            forall|j: int| 0 <= j < i ==> k@[j] == key@[j],
        decreases 32 - i,
    {
        k[i] = key[i];
        i = i + 1;
    }
    assert(k@ =~= key@);
    Keystream::new(&k)
}

/// Encrypts `data` in place with the next bytes of `chacha`.
pub fn encrypt_with_chacha(chacha: &mut Keystream, data: &mut Vec<u8>)
    requires
        old(chacha).has_room(old(data)@.len() as int),
    ensures
        final(chacha)@.key == old(chacha)@.key,
        final(chacha)@.position == old(chacha)@.position + old(data)@.len(),
        final(data)@ == xor_keystream(old(chacha)@.key, old(chacha)@.position, old(data)@),
{
    chacha.apply(data);
}

/// Decrypts `data` in place with the next bytes of `chacha`; the same XOR as
/// encryption.
pub fn decrypt_with_chacha(chacha: &mut Keystream, data: &mut Vec<u8>)
    requires
        old(chacha).has_room(old(data)@.len() as int),
    ensures
        final(chacha)@.key == old(chacha)@.key,
        final(chacha)@.position == old(chacha)@.position + old(data)@.len(),
        final(data)@ == xor_keystream(old(chacha)@.key, old(chacha)@.position, old(data)@),
{
    chacha.apply(data);
}

/// A copy of `data` XORed with the next bytes of `chacha`.
pub fn apply_keystream_and_return_new(chacha: &mut Keystream, data: &[u8]) -> (r: Vec<u8>)
    requires
        old(chacha).has_room(data@.len() as int),
    ensures
        final(chacha)@.key == old(chacha)@.key,
        final(chacha)@.position == old(chacha)@.position + data@.len(),
        r@ == xor_keystream(old(chacha)@.key, old(chacha)@.position, data@),
{
    let mut out = vstd::slice::slice_to_vec(data);
    chacha.apply(&mut out);
    out
}

/// XORing the same stretch of keystream twice gives the data back: one
/// operation both encrypts and decrypts.
pub proof fn lemma_xor_twice(key: Seq<u8>, start: int, data: Seq<u8>)
    ensures
        xor_keystream(key, start, xor_keystream(key, start, data)) == data,
{
    let once = xor_keystream(key, start, data);
    let twice = xor_keystream(key, start, once);
    assert forall|i: int| 0 <= i < data.len() implies twice[i] == data[i] by {
        let k = chacha20_keystream_byte(key, seq![0u8; 12], start + i);
        let b = data[i];
        assert((b ^ k) ^ k == b) by (bit_vector);
    }
    assert(twice =~= data);
}

/// Processing two buffers one after the other uses the keystream as one
/// buffer holding both would: how the bytes are cut into reads does not matter.
pub proof fn lemma_xor_split(key: Seq<u8>, start: int, a: Seq<u8>, b: Seq<u8>)
    ensures
        xor_keystream(key, start, a + b) == xor_keystream(key, start, a) + xor_keystream(
            key,
            start + a.len(),
            b,
        ),
{
    assert(xor_keystream(key, start, a + b) =~= xor_keystream(key, start, a) + xor_keystream(
        key,
        start + a.len(),
        b,
    ));
}

} // verus!
