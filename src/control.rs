use vstd::prelude::*;

use secp256k1::{PublicKey, SecretKey};

use crate::crypto::{
    compressed_of, generate_shared_secret, parsed_key, pubkey_from_bytes, pubkey_to_bytes,
    pubkey_valid, shared_secret_of, PUBLIC_KEY_LEN,
};
use crate::keystream::{lemma_xor_twice, xor_keystream, Keystream, KeystreamView, KEYSTREAM_LIMIT};
use crate::wire::{decode, encode, lemma_decode_encode, record_fits, spec_decode, spec_encode, ConfigView, Connection, DecodeError, RelayConfig};

verus! {

/// A control record may take at most this many bytes before it is refused.
pub const MAX_RECORD_LEN: usize = 1024;

/// Why the control session cannot go on; each of these ends the process.
#[derive(PartialEq, Eq, Structural, Clone, Copy, Debug)]
pub enum ControlError {
    /// The bytes are not a record.
    Malformed(DecodeError),
    /// A record longer than `MAX_RECORD_LEN` bytes: received, no record ends
    /// within the first `MAX_RECORD_LEN` bytes; to be sent, the peer would
    /// refuse it.
    RecordTooLong,
    /// A record of the other variant than the session expects.
    UnexpectedRecord,
    /// The peer's key is not a secp256k1 public key.
    InvalidPublicKey,
    /// The control keystream has no bytes left.
    KeystreamExhausted,
}

/// The record that the received bytes `b` start with (`None`: not all of it
/// has arrived yet), or why the session must end.
pub open spec fn spec_take(b: Seq<u8>) -> Result<Option<(ConfigView, int)>, ControlError> {
    match spec_decode(b) {
        Ok(found) => Ok(Some(found)),
        Err(DecodeError::Truncated) => if b.len() < MAX_RECORD_LEN {
            Ok(None)
        } else {
            Err(ControlError::RecordTooLong)
        },
        Err(e) => Err(ControlError::Malformed(e)),
    }
}

/// The peer's public key bytes that a handshake read of `b` yields, and the
/// number of bytes its record takes.
pub open spec fn spec_handshake_key(b: Seq<u8>) -> Result<Option<(Seq<u8>, int)>, ControlError> {
    match spec_take(b) {
        Ok(Some((ConfigView::KeyExchange(key), n))) => Ok(Some((key, n))),
        Ok(Some((ConfigView::NewConnection(..), _))) => Err(ControlError::UnexpectedRecord),
        Ok(None) => Ok(None),
        Err(e) => Err(e),
    }
}

/// Whether the key bytes of a peer's `KeyExchange` are accepted: a
/// compressed secp256k1 public key, which is the only form the handshake
/// carries.
pub open spec fn peer_key_ok(key: Seq<u8>) -> bool {
    key.len() == PUBLIC_KEY_LEN && pubkey_valid(key)
}

/// The handshake record that carries `pubkey`.
pub open spec fn key_exchange_of(pubkey: PublicKey) -> Seq<u8> {
    spec_encode(ConfigView::KeyExchange(compressed_of(pubkey)))
}

/// The value of a `NewConnection` record with these fields.
pub open spec fn new_connection_view(port: u16, flow_key: [u8; 32], origin: Connection) -> ConfigView {
    ConfigView::NewConnection(port, flow_key@, origin.incoming_port, origin.incoming_addr@)
}

/// The record at the start of the received bytes `buf`: `None` while it has
/// not all arrived, an error where the bytes cannot be a record.
pub fn take_record(buf: &[u8]) -> (r: Result<Option<(RelayConfig, usize)>, ControlError>)
    ensures
        match r {
            Ok(Some((record, n))) => spec_take(buf@) == Ok::<Option<(ConfigView, int)>, ControlError>(
                Some((record@, n as int)),
            ),
            Ok(None) => spec_take(buf@) == Ok::<Option<(ConfigView, int)>, ControlError>(None),
            Err(e) => spec_take(buf@) == Err::<Option<(ConfigView, int)>, ControlError>(e),
        },
{
    match decode(buf) {
        Ok(found) => Ok(Some(found)),
        Err(DecodeError::Truncated) => {
            if buf.len() < MAX_RECORD_LEN {
                Ok(None)
            } else {
                Err(ControlError::RecordTooLong)
            }
        },
        Err(e) => Err(ControlError::Malformed(e)),
    }
}

/// The handshake record carrying `pubkey`.
pub fn key_exchange_message(pubkey: &PublicKey) -> (r: Vec<u8>)
    ensures
        r@ == key_exchange_of(*pubkey),
{
    let key = pubkey_to_bytes(pubkey);
    let record = RelayConfig::KeyExchange(key);
    encode(&record)
}

/// The peer's public key parsed from the key bytes of its `KeyExchange`;
/// `None` where they are not an accepted key.
fn parse_peer_key(key: &[u8]) -> (r: Option<PublicKey>)
    ensures
        r is Some <==> peer_key_ok(key@),
        r is Some ==> r->0 == parsed_key(key@),
{
    if key.len() != PUBLIC_KEY_LEN {
        return None;
    }
    pubkey_from_bytes(key)
}

/// The peer's public key bytes in the handshake record at the start of the
/// received bytes `buf`, and the number of bytes that record takes: `None`
/// while it has not all arrived.
pub fn handshake_key(buf: &[u8]) -> (r: Result<Option<(Vec<u8>, usize)>, ControlError>)
    ensures
        match spec_handshake_key(buf@) {
            Err(e) => r == Err::<Option<(Vec<u8>, usize)>, ControlError>(e),
            Ok(None) => r is Ok && r->Ok_0 is None,
            Ok(Some((key, n))) => r is Ok && r->Ok_0 is Some && r->Ok_0->Some_0.0@ == key
                && r->Ok_0->Some_0.1 == n,
        },
{
    match take_record(buf) {
        Err(e) => Err(e),
        Ok(None) => Ok(None),
        Ok(Some((RelayConfig::NewConnection(..), _))) => Err(ControlError::UnexpectedRecord),
        Ok(Some((RelayConfig::KeyExchange(key), n))) => Ok(Some((key, n))),
    }
}

/// The relay's end of the control session: before the handshake it holds
/// nothing; afterwards the keystream that encrypts what it sends.
pub struct RelaySession {
    cipher: Option<Keystream>,
}

impl View for RelaySession {
    type V = Option<KeystreamView>;

    closed spec fn view(&self) -> Option<KeystreamView> {
        match self.cipher {
            Some(c) => Some(c@),
            None => None,
        }
    }
}

/// A flow that has been announced to the hidden peer: the one listener bound
/// on `port` is to accept the peer's dial, and the flow then runs on `flow_key`.
pub struct PendingFlow {
    pub port: u16,
    pub flow_key: [u8; 32],
}

impl RelaySession {
    /// A session whose handshake has not happened yet.
    pub fn new() -> (r: RelaySession)
        ensures
            r@ is None,
    {
        RelaySession { cipher: None }
    }

    /// Whether the handshake is done.
    pub fn is_established(&self) -> (r: bool)
        ensures
            r == self@ is Some,
    {
        self.cipher.is_some()
    }

    /// Keys the session with the secret shared between `our_secret` and the
    /// peer's parsed public key, and returns the reply: our own
    /// `KeyExchange`, the only record the relay ever sends in the clear. A
    /// key that did not parse ends the session.
    pub fn accept_peer_key(&mut self, their_key: Option<PublicKey>, our_secret: &SecretKey, our_public: &PublicKey) -> (r: Result<Vec<u8>, ControlError>)
        requires
            old(self)@ is None,
        ensures
            match their_key {
                None => r == Err::<Vec<u8>, ControlError>(ControlError::InvalidPublicKey)
                    && final(self)@ == old(self)@,
                Some(theirs) => r is Ok && r->Ok_0@ == key_exchange_of(*our_public)
                    && final(self)@ == Some(
                    KeystreamView { key: shared_secret_of(theirs, *our_secret), position: 0 },
                ),
            },
    {
        match their_key {
            None => Err(ControlError::InvalidPublicKey),
            Some(theirs) => {
                let secret = generate_shared_secret(&theirs, our_secret);
                self.cipher = Some(Keystream::new(&secret));
                Ok(key_exchange_message(our_public))
            },
        }
    }

    /// Handles the bytes received from the hidden peer before the handshake:
    /// once its whole `KeyExchange` has arrived, parses the key and goes on as
    /// `accept_peer_key`; `None` while more bytes are needed.
    pub fn on_handshake_bytes(&mut self, buf: &[u8], our_secret: &SecretKey, our_public: &PublicKey) -> (r: Result<Option<Vec<u8>>, ControlError>)
        requires
            old(self)@ is None,
        ensures
            match spec_handshake_key(buf@) {
                Err(e) => r == Err::<Option<Vec<u8>>, ControlError>(e) && final(self)@ == old(self)@,
                Ok(None) => r == Ok::<Option<Vec<u8>>, ControlError>(None) && final(self)@ == old(self)@,
                Ok(Some((key, _))) => if peer_key_ok(key) {
                    &&& r is Ok && r->Ok_0 is Some
                    &&& r->Ok_0->Some_0@ == key_exchange_of(*our_public)
                    &&& final(self)@ == Some(
                        KeystreamView { key: shared_secret_of(parsed_key(key), *our_secret), position: 0 },
                    )
                } else {
                    &&& r == Err::<Option<Vec<u8>>, ControlError>(ControlError::InvalidPublicKey)
                    &&& final(self)@ == old(self)@
                },
            },
    {
        match handshake_key(buf) {
            Err(e) => Err(e),
            Ok(None) => Ok(None),
            Ok(Some((key, _))) => {
                let parsed = parse_peer_key(key.as_slice());
                match self.accept_peer_key(parsed, our_secret, our_public) {
                    Ok(reply) => Ok(Some(reply)),
                    Err(e) => Err(e),
                }
            },
        }
    }

    /// The encrypted `NewConnection` record that announces a flow whose
    /// listener is bound on `port`, and that flow, which waits for the peer's
    /// dial on that listener. The record is encrypted with the next bytes of
    /// the session keystream. A record longer than `MAX_RECORD_LEN` bytes is
    /// refused, as the peer would refuse it.
    pub fn announce(&mut self, port: u16, flow_key: [u8; 32], origin: Connection) -> (r: Result<(Vec<u8>, PendingFlow), ControlError>)
        requires
            old(self)@ is Some,
        ensures
            ({
                let ks = old(self)@->Some_0;
                let plain = spec_encode(new_connection_view(port, flow_key, origin));
                if plain.len() > MAX_RECORD_LEN {
                    &&& r == Err::<(Vec<u8>, PendingFlow), ControlError>(ControlError::RecordTooLong)
                    &&& final(self)@ == old(self)@
                } else if ks.position + plain.len() <= KEYSTREAM_LIMIT {
                    &&& r is Ok
                    &&& r->Ok_0.0@ == xor_keystream(ks.key, ks.position, plain)
                    &&& r->Ok_0.1.port == port
                    &&& r->Ok_0.1.flow_key == flow_key
                    &&& final(self)@ == Some(KeystreamView { key: ks.key, position: ks.position + plain.len() })
                } else {
                    &&& r == Err::<(Vec<u8>, PendingFlow), ControlError>(ControlError::KeystreamExhausted)
                    &&& final(self)@ == old(self)@
                }
            }),
    {
        let ghost view = new_connection_view(port, flow_key, origin);
        let record = RelayConfig::NewConnection(port, flow_key, origin);
        assert(record@ == view);
        let mut bytes = encode(&record);
        if bytes.len() > MAX_RECORD_LEN {
            return Err(ControlError::RecordTooLong);
        }
        let mut cipher = self.cipher.take().unwrap();
        if !cipher.has_room_for(bytes.len()) {
            self.cipher = Some(cipher);
            return Err(ControlError::KeystreamExhausted);
        }
        cipher.apply(&mut bytes);
        self.cipher = Some(cipher);
        Ok((bytes, PendingFlow { port, flow_key }))
    }
}

/// The hidden peer's end of the control session: after the handshake, the
/// keystream that decrypts what the relay sends and the decrypted bytes not
/// yet taken as records.
pub struct HiddenSession {
    cipher: Option<Keystream>,
    pending: Vec<u8>,
}

pub struct HiddenView {
    pub cipher: Option<KeystreamView>,
    pub pending: Seq<u8>,
}

impl View for HiddenSession {
    type V = HiddenView;

    closed spec fn view(&self) -> HiddenView {
        HiddenView {
            cipher: match self.cipher {
                Some(c) => Some(c@),
                None => None,
            },
            pending: self.pending@,
        }
    }
}

impl HiddenSession {
    /// A session whose handshake has not happened yet.
    pub fn new() -> (r: HiddenSession)
        ensures
            r@.cipher is None,
            r@.pending == Seq::<u8>::empty(),
    {
        HiddenSession { cipher: None, pending: Vec::new() }
    }

    /// Whether the handshake is done.
    pub fn is_established(&self) -> (r: bool)
        ensures
            r == self@.cipher is Some,
    {
        self.cipher.is_some()
    }

    /// Keys the session with the secret shared between `our_secret` and the
    /// relay's parsed public key, and decrypts `rest`, the bytes that
    /// followed the relay's `KeyExchange`, as the start of the record stream.
    /// A key that did not parse ends the session.
    pub fn accept_peer_key(&mut self, their_key: Option<PublicKey>, our_secret: &SecretKey, rest: &[u8]) -> (r: Result<(), ControlError>)
        requires
            old(self)@.cipher is None,
            old(self)@.pending == Seq::<u8>::empty(),
        ensures
            match their_key {
                None => r == Err::<(), ControlError>(ControlError::InvalidPublicKey)
                    && final(self)@ == old(self)@,
                Some(theirs) => if rest@.len() <= KEYSTREAM_LIMIT {
                    let key = shared_secret_of(theirs, *our_secret);
                    &&& r is Ok
                    &&& final(self)@.cipher == Some(KeystreamView { key, position: rest@.len() as int })
                    &&& final(self)@.pending == xor_keystream(key, 0, rest@)
                } else {
                    r == Err::<(), ControlError>(ControlError::KeystreamExhausted)
                        && final(self)@ == old(self)@
                },
            },
    {
        match their_key {
            None => Err(ControlError::InvalidPublicKey),
            Some(theirs) => {
                let secret = generate_shared_secret(&theirs, our_secret);
                let mut cipher = Keystream::new(&secret);
                if !cipher.has_room_for(rest.len()) {
                    return Err(ControlError::KeystreamExhausted);
                }
                let mut pending = vstd::slice::slice_to_vec(rest);
                cipher.apply(&mut pending);
                self.cipher = Some(cipher);
                self.pending = pending;
                Ok(())
            },
        }
    }

    /// Handles the bytes received from the relay in reply to our
    /// `KeyExchange`: once the relay's whole `KeyExchange` has arrived, parses
    /// the key and goes on as `accept_peer_key` with what followed the record
    /// in `buf`. `false` while more bytes are needed.
    pub fn on_handshake_bytes(&mut self, buf: &[u8], our_secret: &SecretKey) -> (r: Result<bool, ControlError>)
        requires
            old(self)@.cipher is None,
            old(self)@.pending == Seq::<u8>::empty(),
        ensures
            match spec_handshake_key(buf@) {
                Err(e) => r == Err::<bool, ControlError>(e) && final(self)@ == old(self)@,
                Ok(None) => r == Ok::<bool, ControlError>(false) && final(self)@ == old(self)@,
                Ok(Some((key, n))) => if !peer_key_ok(key) {
                    r == Err::<bool, ControlError>(ControlError::InvalidPublicKey)
                        && final(self)@ == old(self)@
                } else if buf@.len() - n <= KEYSTREAM_LIMIT {
                    let secret = shared_secret_of(parsed_key(key), *our_secret);
                    &&& r == Ok::<bool, ControlError>(true)
                    &&& final(self)@.cipher == Some(
                        KeystreamView { key: secret, position: buf@.len() - n },
                    )
                    &&& final(self)@.pending == xor_keystream(
                        secret,
                        0,
                        buf@.subrange(n, buf@.len() as int),
                    )
                } else {
                    r == Err::<bool, ControlError>(ControlError::KeystreamExhausted)
                        && final(self)@ == old(self)@
                },
            },
    {
        match handshake_key(buf) {
            Err(e) => Err(e),
            Ok(None) => Ok(false),
            Ok(Some((key, n))) => {
                let parsed = parse_peer_key(key.as_slice());
                let rest = vstd::slice::slice_subrange(buf, n, buf.len());
                match self.accept_peer_key(parsed, our_secret, rest) {
                    Ok(()) => Ok(true),
                    Err(e) => Err(e),
                }
            },
        }
    }

    /// Decrypts the bytes `chunk` received from the relay after the
    /// handshake and keeps them for `next_signal`.
    pub fn on_control_bytes(&mut self, chunk: &[u8]) -> (r: Result<(), ControlError>)
        requires
            old(self)@.cipher is Some,
        ensures
            ({
                let ks = old(self)@.cipher->Some_0;
                if ks.position + chunk@.len() <= KEYSTREAM_LIMIT {
                    &&& r is Ok
                    &&& final(self)@.cipher == Some(KeystreamView { key: ks.key, position: ks.position + chunk@.len() })
                    &&& final(self)@.pending == old(self)@.pending + xor_keystream(ks.key, ks.position, chunk@)
                } else {
                    &&& r == Err::<(), ControlError>(ControlError::KeystreamExhausted)
                    &&& final(self)@ == old(self)@
                }
            }),
    {
        let mut cipher = self.cipher.take().unwrap();
        if !cipher.has_room_for(chunk.len()) {
            self.cipher = Some(cipher);
            return Err(ControlError::KeystreamExhausted);
        }
        let mut plain = vstd::slice::slice_to_vec(chunk);
        cipher.apply(&mut plain);
        self.cipher = Some(cipher);
        self.pending.append(&mut plain);
        Ok(())
    }

    /// The next connection announcement among the decrypted bytes: its
    /// port, flow key and origin, which are then dropped from the pending
    /// bytes. `None` while it has not all arrived; any record but a
    /// `NewConnection` is an error.
    pub fn next_signal(&mut self) -> (r: Result<Option<(u16, [u8; 32], Connection)>, ControlError>)
        ensures
            final(self)@.cipher == old(self)@.cipher,
            match spec_take(old(self)@.pending) {
                Err(e) => r == Err::<Option<(u16, [u8; 32], Connection)>, ControlError>(e),
                Ok(None) => r is Ok && r->Ok_0 is None,
                Ok(Some((ConfigView::KeyExchange(_), _))) => r == Err::<
                    Option<(u16, [u8; 32], Connection)>,
                    ControlError,
                >(ControlError::UnexpectedRecord),
                Ok(Some((record, n))) => {
                    &&& r is Ok && r->Ok_0 is Some
                    &&& record == new_connection_view(
                        r->Ok_0->Some_0.0,
                        r->Ok_0->Some_0.1,
                        r->Ok_0->Some_0.2,
                    )
                    &&& final(self)@.pending == old(self)@.pending.subrange(
                        n,
                        old(self)@.pending.len() as int,
                    )
                },
            },
            !(r is Ok && r->Ok_0 is Some) ==> final(self)@ == old(self)@,
    {
        match take_record(self.pending.as_slice()) {
            Err(e) => Err(e),
            Ok(None) => Ok(None),
            Ok(Some((RelayConfig::KeyExchange(_), _))) => Err(ControlError::UnexpectedRecord),
            Ok(Some((RelayConfig::NewConnection(port, flow_key, origin), n))) => {
                let rest = vstd::slice::slice_to_vec(
                    vstd::slice::slice_subrange(self.pending.as_slice(), n, self.pending.len()),
                );
                self.pending = rest;
                Ok(Some((port, flow_key, origin)))
            },
        }
    }
}

/// A record that the relay encrypts with a stretch of the control keystream
/// is, once the hidden peer decrypts it with the same stretch, taken back as
/// that very record.
pub proof fn lemma_announcement_round_trip(key: Seq<u8>, position: int, r: ConfigView)
    requires
        record_fits(r),
    ensures
        spec_take(xor_keystream(key, position, xor_keystream(key, position, spec_encode(r))))
            == Ok::<Option<(ConfigView, int)>, ControlError>(Some((r, spec_encode(r).len() as int))),
{
    lemma_xor_twice(key, position, spec_encode(r));
    lemma_decode_encode(r, Seq::empty());
    assert(spec_encode(r) + Seq::<u8>::empty() =~= spec_encode(r));
}

} // verus!
