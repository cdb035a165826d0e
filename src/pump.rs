use vstd::prelude::*;

use crate::control::PendingFlow;
use crate::keystream::{
    lemma_xor_split, lemma_xor_twice, xor_keystream, Keystream, KeystreamView, KEYSTREAM_LIMIT,
};

verus! {

/// What a pump does with the bytes of one read.
#[derive(Debug, PartialEq, Eq)]
pub enum PumpAction {
    /// Write all of these bytes to the opposite socket.
    Forward(Vec<u8>),
    /// Close both sockets: the flow is over.
    Close,
}

/// The two keystreams of one flow on one side of the tunnel, and the bytes
/// the flow has carried so far. `send` covers the bytes from this side's local
/// socket (the client on the relay, the target on the hidden side) to the
/// tunnel; `recv` those from the tunnel to the local socket.
pub struct Pump {
    send: Keystream,
    recv: Keystream,
    local_read: Ghost<Seq<u8>>,
    tunnel_written: Ghost<Seq<u8>>,
    tunnel_read: Ghost<Seq<u8>>,
    local_written: Ghost<Seq<u8>>,
}

pub struct PumpView {
    pub send: KeystreamView,
    pub recv: KeystreamView,
    /// All bytes read from the local socket and forwarded.
    pub local_read: Seq<u8>,
    /// All bytes handed out to be written to the tunnel.
    pub tunnel_written: Seq<u8>,
    /// All bytes read from the tunnel and forwarded.
    pub tunnel_read: Seq<u8>,
    /// All bytes handed out to be written to the local socket.
    pub local_written: Seq<u8>,
}

impl View for Pump {
    type V = PumpView;

    closed spec fn view(&self) -> PumpView {
        PumpView {
            send: self.send@,
            recv: self.recv@,
            local_read: self.local_read@,
            tunnel_written: self.tunnel_written@,
            tunnel_read: self.tunnel_read@,
            local_written: self.local_written@,
        }
    }
}

/// A pump's history agrees with its keystreams: each direction has used up
/// exactly as much keystream as it has read, and what it wrote is everything
/// it read XORed with the flow's keystream from its start.
pub open spec fn pump_wf(p: PumpView) -> bool {
    &&& p.send.key == p.recv.key
    &&& p.send.position == p.local_read.len()
    &&& p.tunnel_written == xor_keystream(p.send.key, 0, p.local_read)
    &&& p.recv.position == p.tunnel_read.len()
    &&& p.local_written == xor_keystream(p.recv.key, 0, p.tunnel_read)
}

/// The state after `data` went through `ks`.
pub open spec fn advanced(ks: KeystreamView, len: int) -> KeystreamView {
    KeystreamView { key: ks.key, position: ks.position + len }
}

/// What one direction of a pump does with a read of `bytes` from keystream
/// state `ks`: a read of nothing, or one past the keystream's end, closes the
/// flow; any other is forwarded encrypted.
pub open spec fn spec_step(ks: KeystreamView, bytes: Seq<u8>) -> Option<Seq<u8>> {
    if bytes.len() == 0 || ks.position + bytes.len() > KEYSTREAM_LIMIT {
        None
    } else {
        Some(xor_keystream(ks.key, ks.position, bytes))
    }
}

/// What one direction writes for the successive reads `chunks`, starting
/// at keystream position `start`.
pub open spec fn stream_out(key: Seq<u8>, start: int, chunks: Seq<Seq<u8>>) -> Seq<u8>
    decreases chunks.len(),
{
    if chunks.len() == 0 {
        Seq::empty()
    } else {
        xor_keystream(key, start, chunks[0]) + stream_out(
            key,
            start + chunks[0].len(),
            chunks.drop_first(),
        )
    }
}

/// Runs one direction: `ks` advanced over `bytes`, and the action.
fn step(ks: &mut Keystream, bytes: &[u8]) -> (r: PumpAction)
    ensures
        match spec_step(old(ks)@, bytes@) {
            None => r is Close && final(ks)@ == old(ks)@,
            Some(out) => r is Forward && r->Forward_0@ == out && final(ks)@ == advanced(
                old(ks)@,
                bytes@.len() as int,
            ),
        },
{
    if bytes.len() == 0 || !ks.has_room_for(bytes.len()) {
        return PumpAction::Close;
    }
    let mut out = vstd::slice::slice_to_vec(bytes);
    ks.apply(&mut out);
    PumpAction::Forward(out)
}

impl Pump {
    /// The pump of a flow keyed with `flow_key`; both keystreams start at
    /// the beginning and nothing has been carried yet.
    pub fn new(flow_key: &[u8; 32]) -> (r: Pump)
        ensures
            pump_wf(r@),
            r@.send == (KeystreamView { key: flow_key@, position: 0 }),
            r@.recv == (KeystreamView { key: flow_key@, position: 0 }),
            r@.local_read == Seq::<u8>::empty(),
            r@.tunnel_read == Seq::<u8>::empty(),
    {
        let r = Pump {
            send: Keystream::new(flow_key),
            recv: Keystream::new(flow_key),
            local_read: Ghost(Seq::empty()),
            tunnel_written: Ghost(Seq::empty()),
            tunnel_read: Ghost(Seq::empty()),
            local_written: Ghost(Seq::empty()),
        };
        assert(xor_keystream(flow_key@, 0, Seq::<u8>::empty()) =~= Seq::<u8>::empty());
        r
    }

    /// Handles a read of `bytes` from the local socket: forward them,
    /// encrypted, to the tunnel, or close the flow.
    pub fn from_local(&mut self, bytes: &[u8]) -> (r: PumpAction)
        ensures
            pump_wf(old(self)@) ==> pump_wf(final(self)@),
            final(self)@.recv == old(self)@.recv,
            final(self)@.tunnel_read == old(self)@.tunnel_read,
            final(self)@.local_written == old(self)@.local_written,
            match spec_step(old(self)@.send, bytes@) {
                None => r is Close && final(self)@ == old(self)@,
                Some(out) => {
                    &&& r is Forward && r->Forward_0@ == out
                    &&& final(self)@.send == advanced(old(self)@.send, bytes@.len() as int)
                    &&& final(self)@.local_read == old(self)@.local_read + bytes@
                    &&& final(self)@.tunnel_written == old(self)@.tunnel_written + out
                },
            },
    {
        let r = step(&mut self.send, bytes);
        if let PumpAction::Forward(out) = &r {
            proof {
                lemma_xor_split(self.send@.key, 0, self.local_read@, bytes@);
            }
            self.local_read = Ghost(self.local_read@ + bytes@);
            self.tunnel_written = Ghost(self.tunnel_written@ + out@);
        }
        r
    }

    /// Handles a read of `bytes` from the tunnel: forward them, decrypted,
    /// to the local socket, or close the flow.
    pub fn from_tunnel(&mut self, bytes: &[u8]) -> (r: PumpAction)
        ensures
            pump_wf(old(self)@) ==> pump_wf(final(self)@),
            final(self)@.send == old(self)@.send,
            final(self)@.local_read == old(self)@.local_read,
            final(self)@.tunnel_written == old(self)@.tunnel_written,
            match spec_step(old(self)@.recv, bytes@) {
                None => r is Close && final(self)@ == old(self)@,
                Some(out) => {
                    &&& r is Forward && r->Forward_0@ == out
                    &&& final(self)@.recv == advanced(old(self)@.recv, bytes@.len() as int)
                    &&& final(self)@.tunnel_read == old(self)@.tunnel_read + bytes@
                    &&& final(self)@.local_written == old(self)@.local_written + out
                },
            },
    {
        let r = step(&mut self.recv, bytes);
        if let PumpAction::Forward(out) = &r {
            proof {
                lemma_xor_split(self.recv@.key, 0, self.tunnel_read@, bytes@);
            }
            self.tunnel_read = Ghost(self.tunnel_read@ + bytes@);
            self.local_written = Ghost(self.local_written@ + out@);
        }
        r
    }
}

impl PendingFlow {
    /// The pump of this flow, once the peer's dial has been accepted.
    pub fn into_pump(self) -> (r: Pump)
        ensures
            pump_wf(r@),
            r@.local_read == Seq::<u8>::empty(),
            r@.tunnel_read == Seq::<u8>::empty(),
            r@.send == (KeystreamView { key: self.flow_key@, position: 0 }),
            r@.recv == (KeystreamView { key: self.flow_key@, position: 0 }),
    {
        Pump::new(&self.flow_key)
    }
}

/// What a direction writes for several reads is the whole of what it read,
/// XORed with the keystream from where it started.
pub proof fn lemma_stream_out(key: Seq<u8>, start: int, chunks: Seq<Seq<u8>>)
    ensures
        stream_out(key, start, chunks) == xor_keystream(key, start, chunks.flatten()),
    decreases chunks.len(),
{
    if chunks.len() == 0 {
        assert(xor_keystream(key, start, chunks.flatten()) =~= Seq::<u8>::empty());
    } else {
        lemma_stream_out(key, start + chunks[0].len(), chunks.drop_first());
        lemma_xor_split(key, start, chunks[0], chunks.drop_first().flatten());
    }
}

/// Whatever the reads on each side, the bytes that one side's local socket
/// gives in reads `sent`, once encrypted by that side's `send` keystream,
/// carried by the tunnel and read back in any other cut `received` there,
/// come out of the other side's `recv` keystream (same flow key, same start)
/// as exactly the bytes sent, in order. This holds from client to target and
/// from target to client alike.
pub proof fn lemma_tunnel_delivers(key: Seq<u8>, sent: Seq<Seq<u8>>, received: Seq<Seq<u8>>)
    requires
        received.flatten() == stream_out(key, 0, sent),
    ensures
        stream_out(key, 0, received) == sent.flatten(),
{
    lemma_stream_out(key, 0, sent);
    lemma_stream_out(key, 0, received);
    lemma_xor_twice(key, 0, sent.flatten());
}

/// XORing a prefix of the data gives that prefix of the XORed data.
proof fn lemma_xor_prefix(key: Seq<u8>, start: int, data: Seq<u8>, m: int)
    requires
        0 <= m <= data.len(),
    ensures
        xor_keystream(key, start, data.subrange(0, m)) == xor_keystream(key, start, data).subrange(
            0,
            m,
        ),
{
    assert(xor_keystream(key, start, data.subrange(0, m)) =~= xor_keystream(
        key,
        start,
        data,
    ).subrange(0, m));
}

/// One flow across the tunnel: `sender` is one side's pump and `receiver`
/// the other side's, keyed alike. If what `receiver` has read from the tunnel
/// is a prefix of what `sender` wrote to it (TCP delivers in order, cut into
/// reads in any way), then what `receiver` wrote to its local socket is the
/// same-length prefix of what `sender` read from its local socket; once all
/// is delivered, it is all of it. From client to target, `sender` is the
/// relay's pump; from target to client, the hidden peer's.
pub proof fn lemma_flow_delivers(sender: PumpView, receiver: PumpView)
    requires
        pump_wf(sender),
        pump_wf(receiver),
        receiver.recv.key == sender.send.key,
        receiver.tunnel_read.len() <= sender.tunnel_written.len(),
        receiver.tunnel_read == sender.tunnel_written.subrange(
            0,
            receiver.tunnel_read.len() as int,
        ),
    ensures
        receiver.local_written.len() <= sender.local_read.len(),
        receiver.local_written == sender.local_read.subrange(
            0,
            receiver.local_written.len() as int,
        ),
        receiver.tunnel_read == sender.tunnel_written ==> receiver.local_written
            == sender.local_read,
{
    let key = sender.send.key;
    let m = receiver.tunnel_read.len() as int;
    let sent = sender.local_read;
    lemma_xor_prefix(key, 0, sent, m);
    lemma_xor_twice(key, 0, sent.subrange(0, m));
    if receiver.tunnel_read == sender.tunnel_written {
        assert(sent.subrange(0, m) =~= sent);
    }
}

} // verus!
