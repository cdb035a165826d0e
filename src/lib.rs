//! A reverse TCP tunnel: a public relay and a hidden peer share one control
//! session (key exchange, then encrypted connection announcements), and each
//! tunnelled connection is carried on its own keystream-encrypted socket pair.
//!
//! This crate holds the protocol's logic: the keystream discipline, the
//! control-record wire format, the handshake and signalling decisions of both
//! peers, and the per-flow pump decisions. Sockets and tasks live with the
//! caller.

pub mod control;
pub mod crypto;
pub mod keystream;
pub mod options;
pub mod pump;
pub mod wire;

pub use keystream::{
    apply_keystream_and_return_new, decrypt_with_chacha, encrypt_with_chacha, get_chacha20,
    Keystream,
};
pub use wire::{decode, encode, lemma_decode_encode, Connection, DecodeError, RelayConfig};
pub use crypto::{
    generate_keypair, generate_shared_secret, generate_uuid, pubkey_from_bytes, pubkey_to_bytes,
};
pub use control::{ControlError, HiddenSession, PendingFlow, RelaySession};
pub use pump::{Pump, PumpAction};
pub use options::{HiddenCmdOptions, RelayCmdOptions};
