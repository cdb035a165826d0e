use vstd::prelude::*;
use vstd::bytes::{
    lemma_auto_spec_u16_to_from_le_bytes, lemma_auto_spec_u64_to_from_le_bytes,
    spec_u16_from_le_bytes, spec_u16_to_le_bytes, spec_u64_from_le_bytes, spec_u64_to_le_bytes,
    u16_from_le_bytes, u16_to_le_bytes, u64_from_le_bytes, u64_to_le_bytes,
};
use vstd::slice::{slice_subrange, slice_to_vec};
use vstd::utf8::{decode_utf8, encode_utf8, encode_utf8_decode_utf8, encode_utf8_valid_utf8, valid_utf8};
use vstd::string::StringSliceAdditionalSpecFns;

verus! {

/// Where a relayed connection came from: the client's source port and its
/// address in printable form.
#[derive(Debug, Clone, PartialEq, Eq)]
pub struct Connection {
    pub incoming_port: u16,
    pub incoming_addr: String,
}

/// A record of the control session.
#[derive(Debug, Clone, PartialEq, Eq)]
pub enum RelayConfig {
    /// A peer's public key, sent once in each direction during the handshake.
    KeyExchange(Vec<u8>),
    /// A new client was accepted: the relay's loopback port to dial, the
    /// flow's key, and where the client came from.
    NewConnection(u16, [u8; 32], Connection),
}

/// The mathematical value of a [`RelayConfig`].
pub enum ConfigView {
    KeyExchange(Seq<u8>),
    NewConnection(u16, Seq<u8>, u16, Seq<char>),
}

impl View for RelayConfig {
    type V = ConfigView;

    open spec fn view(&self) -> ConfigView {
        match self {
            RelayConfig::KeyExchange(key) => ConfigView::KeyExchange(key@),
            RelayConfig::NewConnection(port, flow_key, origin) => ConfigView::NewConnection(
                *port,
                flow_key@,
                origin.incoming_port,
                origin.incoming_addr@,
            ),
        }
    }
}

/// Why bytes do not start with a control record.
#[derive(PartialEq, Eq, Structural, Clone, Copy, Debug)]
pub enum DecodeError {
    /// The bytes end before the record does; more may complete it.
    Truncated,
    /// The variant tag names no record.
    UnknownTag,
    /// The origin address is not UTF-8.
    InvalidText,
}

/// Size of a `NewConnection` record before its address bytes: tag, port,
/// flow key, origin port and the address length.
pub const NEW_CONNECTION_HEAD: usize = 48;

/// Whether every length in `r` fits the `u64` length prefix.
pub open spec fn record_fits(r: ConfigView) -> bool {
    match r {
        ConfigView::KeyExchange(key) => key.len() <= u64::MAX,
        ConfigView::NewConnection(_, flow_key, _, addr) => flow_key.len() == 32
            && encode_utf8(addr).len() <= u64::MAX,
    }
}

/// The bytes of a length-prefixed byte string.
pub open spec fn spec_bytes_field(b: Seq<u8>) -> Seq<u8> {
    spec_u64_to_le_bytes(b.len() as u64) + b
}

/// The wire form of a record: a `u32` tag (0 or 1), then the fields in order,
/// integers little-endian, byte strings and text prefixed by a `u64` length.
pub open spec fn spec_encode(r: ConfigView) -> Seq<u8> {
    match r {
        ConfigView::KeyExchange(key) => seq![0u8, 0u8, 0u8, 0u8] + spec_bytes_field(key),
        ConfigView::NewConnection(port, flow_key, origin_port, addr) => seq![1u8, 0u8, 0u8, 0u8]
            + spec_u16_to_le_bytes(port) + flow_key + spec_u16_to_le_bytes(origin_port)
            + spec_bytes_field(encode_utf8(addr)),
    }
}

/// What the bytes `b` start with: a record and the number of bytes it takes,
/// or why there is none.
pub open spec fn spec_decode(b: Seq<u8>) -> Result<(ConfigView, int), DecodeError> {
    if b.len() < 4 {
        Err(DecodeError::Truncated)
    } else if b.subrange(0, 4) == seq![0u8, 0u8, 0u8, 0u8] {
        if b.len() < 12 {
            Err(DecodeError::Truncated)
        } else {
            let n = spec_u64_from_le_bytes(b.subrange(4, 12)) as int;
            if b.len() - 12 < n {
                Err(DecodeError::Truncated)
            } else {
                Ok((ConfigView::KeyExchange(b.subrange(12, 12 + n)), 12 + n))
            }
        }
    } else if b.subrange(0, 4) == seq![1u8, 0u8, 0u8, 0u8] {
        if b.len() < 48 {
            Err(DecodeError::Truncated)
        } else {
            let n = spec_u64_from_le_bytes(b.subrange(40, 48)) as int;
            if b.len() - 48 < n {
                Err(DecodeError::Truncated)
            } else if !valid_utf8(b.subrange(48, 48 + n)) {
                Err(DecodeError::InvalidText)
            } else {
                Ok(
                    (
                        ConfigView::NewConnection(
                            spec_u16_from_le_bytes(b.subrange(4, 6)),
                            b.subrange(6, 38),
                            spec_u16_from_le_bytes(b.subrange(38, 40)),
                            decode_utf8(b.subrange(48, 48 + n)),
                        ),
                        48 + n,
                    ),
                )
            }
        }
    } else {
        Err(DecodeError::UnknownTag)
    }
}

/// Relies on std's `String::from_utf8`: `Ok` exactly when the bytes are valid
/// UTF-8, holding the characters they encode.
#[verifier::external_body]
fn string_from_utf8(bytes: Vec<u8>) -> (r: Option<String>)
    ensures
        r is Some <==> valid_utf8(bytes@),
        r is Some ==> r->0@ == decode_utf8(bytes@),
{
    String::from_utf8(bytes).ok()
}

/// Appends `b` with its `u64` length prefix.
fn push_bytes_field(out: &mut Vec<u8>, b: &[u8])
    ensures
        final(out)@ == old(out)@ + spec_bytes_field(b@),
{
    let mut len = u64_to_le_bytes(b.len() as u64);
    out.append(&mut len);
    let mut body = slice_to_vec(b);
    out.append(&mut body);
    assert(final(out)@ =~= old(out)@ + spec_bytes_field(b@));
}

/// The wire form of `r`.
pub fn encode(r: &RelayConfig) -> (out: Vec<u8>)
    ensures
        out@ == spec_encode(r@),
{
    let mut out: Vec<u8> = Vec::new();
    match r {
        RelayConfig::KeyExchange(key) => {
            out.push(0u8);
            out.push(0u8);
            out.push(0u8);
            out.push(0u8);
            push_bytes_field(&mut out, key.as_slice());
        },
        RelayConfig::NewConnection(port, flow_key, origin) => {
            out.push(1u8);
            out.push(0u8);
            out.push(0u8);
            out.push(0u8);
            let mut port_bytes = u16_to_le_bytes(*port);
            out.append(&mut port_bytes);
            let mut key_bytes = slice_to_vec(flow_key.as_slice());
            out.append(&mut key_bytes);
            let mut origin_port = u16_to_le_bytes(origin.incoming_port);
            out.append(&mut origin_port);
            let addr: &str = origin.incoming_addr.as_str();
            push_bytes_field(&mut out, addr.as_bytes());
        },
    }
    assert(out@ =~= spec_encode(r@));
    out
}

/// The record that `b` starts with and the number of bytes it takes, or why
/// there is none.
pub fn decode(b: &[u8]) -> (r: Result<(RelayConfig, usize), DecodeError>)
    ensures
        match r {
            Ok((record, n)) => spec_decode(b@) == Ok::<(ConfigView, int), DecodeError>(
                (record@, n as int),
            ),
            Err(e) => spec_decode(b@) == Err::<(ConfigView, int), DecodeError>(e),
        },
{
    if b.len() < 4 {
        return Err(DecodeError::Truncated);
    }
    let is_key_exchange = b[0] == 0 && b[1] == 0 && b[2] == 0 && b[3] == 0;
    let is_new_connection = b[0] == 1 && b[1] == 0 && b[2] == 0 && b[3] == 0;
    assert(is_key_exchange <==> b@.subrange(0, 4) == seq![0u8, 0u8, 0u8, 0u8]) by {
        if is_key_exchange {
            assert(b@.subrange(0, 4) =~= seq![0u8, 0u8, 0u8, 0u8]);
        }
    }
    assert(is_new_connection <==> b@.subrange(0, 4) == seq![1u8, 0u8, 0u8, 0u8]) by {
        if is_new_connection {
            assert(b@.subrange(0, 4) =~= seq![1u8, 0u8, 0u8, 0u8]);
        }
    }
    if is_key_exchange {
        if b.len() < 12 {
            return Err(DecodeError::Truncated);
        }
        let n = u64_from_le_bytes(slice_subrange(b, 4, 12));
        if ((b.len() - 12) as u64) < n {
            return Err(DecodeError::Truncated);
        }
        let end = 12 + n as usize;
        let key = slice_to_vec(slice_subrange(b, 12, end));
        Ok((RelayConfig::KeyExchange(key), end))
    } else if is_new_connection {
        if b.len() < NEW_CONNECTION_HEAD {
            return Err(DecodeError::Truncated);
        }
        let n = u64_from_le_bytes(slice_subrange(b, 40, 48));
        if ((b.len() - 48) as u64) < n {
            return Err(DecodeError::Truncated);
        }
        let end = 48 + n as usize;
        let text = slice_to_vec(slice_subrange(b, 48, end));
        let addr = match string_from_utf8(text) {
            Some(s) => s,
            None => {
                return Err(DecodeError::InvalidText);
            },
        };
        let port = u16_from_le_bytes(slice_subrange(b, 4, 6));
        let origin_port = u16_from_le_bytes(slice_subrange(b, 38, 40));
        let mut flow_key = [0u8; 32];
        let mut i: usize = 0;
        while i < 32
            invariant
                b@.len() >= 48,
                0 <= i <= 32,
                forall|j: int| 0 <= j < i ==> flow_key@[j] == b@[6 + j],
            decreases 32 - i,
        {
            flow_key[i] = b[6 + i];
            i = i + 1;
        }
        assert(flow_key@ =~= b@.subrange(6, 38));
        let origin = Connection { incoming_port: origin_port, incoming_addr: addr };
        Ok((RelayConfig::NewConnection(port, flow_key, origin), end))
    } else {
        Err(DecodeError::UnknownTag)
    }
}

/// A record followed by any bytes decodes to that record, and takes exactly
/// its own wire form; in particular decoding an encoding gives the record back.
pub proof fn lemma_decode_encode(r: ConfigView, rest: Seq<u8>)
    requires
        record_fits(r),
    ensures
        spec_decode(spec_encode(r) + rest) == Ok::<(ConfigView, int), DecodeError>(
            (r, spec_encode(r).len() as int),
        ),
{
    lemma_auto_spec_u16_to_from_le_bytes();
    lemma_auto_spec_u64_to_from_le_bytes();
    let b = spec_encode(r) + rest;
    match r {
        ConfigView::KeyExchange(key) => {
            let len = spec_u64_to_le_bytes(key.len() as u64);
            assert(b.subrange(0, 4) =~= seq![0u8, 0u8, 0u8, 0u8]);
            assert(b.subrange(4, 12) =~= len);
            assert(b.subrange(12, 12 + key.len() as int) =~= key);
        },
        ConfigView::NewConnection(port, flow_key, origin_port, addr) => {
            let text = encode_utf8(addr);
            encode_utf8_valid_utf8(addr);
            encode_utf8_decode_utf8(addr);
            assert(b.subrange(0, 4) =~= seq![1u8, 0u8, 0u8, 0u8]);
            assert(b.subrange(4, 6) =~= spec_u16_to_le_bytes(port));
            assert(b.subrange(6, 38) =~= flow_key);
            assert(b.subrange(38, 40) =~= spec_u16_to_le_bytes(origin_port));
            assert(b.subrange(40, 48) =~= spec_u64_to_le_bytes(text.len() as u64));
            assert(b.subrange(48, 48 + text.len() as int) =~= text);
        },
    }
}

} // verus!
