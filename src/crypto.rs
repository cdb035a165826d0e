use vstd::prelude::*;

use secp256k1::{PublicKey, SecretKey};
use sha2::Digest;

verus! {

/// secp256k1's `SecretKey`, carried through as an opaque value.
#[verifier::external_type_specification]
#[verifier::external_body]
pub struct ExSecretKey(secp256k1::SecretKey);

/// secp256k1's `PublicKey`, carried through as an opaque value.
#[verifier::external_type_specification]
#[verifier::external_body]
pub struct ExPublicKey(secp256k1::PublicKey);

/// Length of a compressed secp256k1 public key.
pub const PUBLIC_KEY_LEN: usize = 33;

/// Length of an uncompressed secp256k1 public key.
pub const UNCOMPRESSED_PUBLIC_KEY_LEN: usize = 65;

/// Whether secp256k1 parses `bytes` as a public key.
pub uninterp spec fn pubkey_valid(bytes: Seq<u8>) -> bool;

/// The public key that secp256k1 parses from `bytes`.
pub uninterp spec fn parsed_key(bytes: Seq<u8>) -> PublicKey;

/// The 33-byte compressed serialisation of `key`.
pub uninterp spec fn compressed_of(key: PublicKey) -> Seq<u8>;

/// The 32 bytes of the ECDH secret of `their` public key and `ours` secret key.
pub uninterp spec fn shared_secret_of(their: PublicKey, ours: SecretKey) -> Seq<u8>;

/// The SHA-256 digest of `data`.
pub uninterp spec fn sha256_digest(data: Seq<u8>) -> Seq<u8>;

/// Relies on secp256k1's `Secp256k1::generate_keypair`, drawing from rand's
/// `thread_rng`: a fresh random keypair.
#[verifier::external_body]
pub fn generate_keypair() -> (SecretKey, PublicKey) {
    secp256k1::Secp256k1::new().generate_keypair(&mut rand::thread_rng())
}

/// Relies on secp256k1's `PublicKey::serialize`: the 33-byte compressed form.
#[verifier::external_body]
pub fn pubkey_to_bytes(pubkey: &PublicKey) -> (r: Vec<u8>)
    ensures
        r@ == compressed_of(*pubkey),
        r@.len() == PUBLIC_KEY_LEN,
{
    pubkey.serialize().to_vec()
}

/// Relies on secp256k1's `PublicKey::from_slice`, which parses only a 33-byte
/// compressed or a 65-byte uncompressed key; `None` where it refuses. The
/// result depends on the bytes alone.
#[verifier::external_body]
pub fn pubkey_from_bytes(bytes: &[u8]) -> (r: Option<PublicKey>)
    ensures
        r is Some <==> pubkey_valid(bytes@),
        r is Some ==> r->0 == parsed_key(bytes@),
        r is Some ==> bytes@.len() == PUBLIC_KEY_LEN || bytes@.len()
            == UNCOMPRESSED_PUBLIC_KEY_LEN,
{
    PublicKey::from_slice(bytes).ok()
}

/// Relies on secp256k1's `SharedSecret::new` (ECDH of the peer's public key
/// and our secret key) and `SharedSecret::secret_bytes`: its 32 bytes, which
/// depend on the two keys alone.
#[verifier::external_body]
pub fn generate_shared_secret(their_public_key: &PublicKey, your_secret_key: &SecretKey) -> (r: [u8; 32])
    ensures
        r@ == shared_secret_of(*their_public_key, *your_secret_key),
{
    secp256k1::ecdh::SharedSecret::new(their_public_key, your_secret_key).secret_bytes()
}

/// Relies on rand's `random`: 32 bytes from the thread-local generator.
#[verifier::external_body]
fn random_seed() -> [u8; 32] {
    rand::random::<[u8; 32]>()
}

/// Relies on sha2's `Sha256::digest`: the SHA-256 digest of the bytes.
#[verifier::external_body]
fn sha256(data: &[u8; 32]) -> (r: [u8; 32])
    ensures
        r@ == sha256_digest(data@),
{
    sha2::Sha256::digest(data).into()
}

/// The flow key drawn from the random bytes `seed`: its SHA-256 digest.
pub fn flow_key_from_seed(seed: &[u8; 32]) -> (r: [u8; 32])
    ensures
        r@ == sha256_digest(seed@),
{
    sha256(seed)
}

/// A fresh flow key: the SHA-256 digest of 32 random bytes.
pub fn generate_uuid() -> (r: [u8; 32])
    ensures
        exists|seed: Seq<u8>| seed.len() == 32 && r@ == sha256_digest(seed),
{
    let seed = random_seed();
    let r = flow_key_from_seed(&seed);
    assert(seed@.len() == 32);
    r
}

} // verus!
