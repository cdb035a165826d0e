use relay_tunnel::control::{take_record, MAX_RECORD_LEN};
use relay_tunnel::{
    apply_keystream_and_return_new, encode, get_chacha20, generate_keypair, generate_shared_secret, generate_uuid, pubkey_from_bytes,
    pubkey_to_bytes, Connection, ControlError, DecodeError, HiddenSession, Pump, PumpAction,
    RelayConfig, RelaySession,
};

fn origin(port: u16) -> Connection {
    Connection { incoming_port: port, incoming_addr: "198.51.100.4".to_string() }
}

/// Runs the handshake of both peers; returns the keyed sessions.
fn handshake() -> (RelaySession, HiddenSession) {
    let (hidden_secret, hidden_public) = generate_keypair();
    let (relay_secret, relay_public) = generate_keypair();
    let mut relay = RelaySession::new();
    let mut hidden = HiddenSession::new();

    let hello = relay_tunnel::control::key_exchange_message(&hidden_public);
    let reply = relay
        .on_handshake_bytes(&hello, &relay_secret, &relay_public)
        .unwrap()
        .expect("a whole record was given");
    assert!(relay.is_established());
    assert_eq!(hidden.on_handshake_bytes(&reply, &hidden_secret), Ok(true));
    assert!(hidden.is_established());
    (relay, hidden)
}

#[test]
fn pubkey_bytes_round_trip() {
    let (_, public) = generate_keypair();
    let bytes = pubkey_to_bytes(&public);
    assert_eq!(bytes.len(), 33);
    let back = pubkey_from_bytes(&bytes).unwrap();
    assert_eq!(back, public);
    assert!(pubkey_from_bytes(&bytes[..32]).is_none());
    assert!(pubkey_from_bytes(&[]).is_none());
}

#[test]
fn shared_secret_agrees() {
    let (a_secret, a_public) = generate_keypair();
    let (b_secret, b_public) = generate_keypair();
    assert_eq!(generate_shared_secret(&b_public, &a_secret), generate_shared_secret(&a_public, &b_secret));
}

#[test]
fn handshake_then_signal() {
    let (mut relay, mut hidden) = handshake();
    let key = generate_uuid();
    let (wire, pending) = relay.announce(40001, key, origin(5555)).unwrap();
    assert_eq!(pending.port, 40001);
    assert_eq!(pending.flow_key, key);
    // the announcement is not sent in the clear
    assert_ne!(wire, encode(&RelayConfig::NewConnection(40001, key, origin(5555))));

    // deliver it in two pieces
    hidden.on_control_bytes(&wire[..10]).unwrap();
    assert_eq!(hidden.next_signal(), Ok(None));
    hidden.on_control_bytes(&wire[10..]).unwrap();
    assert_eq!(hidden.next_signal(), Ok(Some((40001, key, origin(5555)))));
    assert_eq!(hidden.next_signal(), Ok(None));
}

#[test]
fn several_signals_in_one_read() {
    let (mut relay, mut hidden) = handshake();
    let k1 = generate_uuid();
    let k2 = generate_uuid();
    let (w1, _) = relay.announce(1000, k1, origin(1)).unwrap();
    let (w2, _) = relay.announce(2000, k2, origin(2)).unwrap();
    let mut both = w1.clone();
    both.extend_from_slice(&w2);
    hidden.on_control_bytes(&both).unwrap();
    assert_eq!(hidden.next_signal(), Ok(Some((1000, k1, origin(1)))));
    assert_eq!(hidden.next_signal(), Ok(Some((2000, k2, origin(2)))));
}

#[test]
fn signal_in_same_read_as_handshake_reply() {
    let (hidden_secret, hidden_public) = generate_keypair();
    let (relay_secret, relay_public) = generate_keypair();
    let mut relay = RelaySession::new();
    let mut hidden = HiddenSession::new();
    let hello = relay_tunnel::control::key_exchange_message(&hidden_public);
    let mut stream = relay.on_handshake_bytes(&hello, &relay_secret, &relay_public).unwrap().unwrap();
    let key = [3u8; 32];
    let (wire, _) = relay.announce(7, key, origin(8)).unwrap();
    stream.extend_from_slice(&wire);
    assert_eq!(hidden.on_handshake_bytes(&stream, &hidden_secret), Ok(true));
    assert_eq!(hidden.next_signal(), Ok(Some((7, key, origin(8)))));
}

#[test]
fn handshake_waits_for_whole_record() {
    let (_, hidden_public) = generate_keypair();
    let (relay_secret, relay_public) = generate_keypair();
    let mut relay = RelaySession::new();
    let hello = relay_tunnel::control::key_exchange_message(&hidden_public);
    assert_eq!(relay.on_handshake_bytes(&hello[..20], &relay_secret, &relay_public), Ok(None));
    assert!(!relay.is_established());
    assert!(relay.on_handshake_bytes(&hello, &relay_secret, &relay_public).unwrap().is_some());
}

#[test]
fn misframed_handshake_is_fatal() {
    let (relay_secret, relay_public) = generate_keypair();
    let mut relay = RelaySession::new();
    let mut junk = vec![0u8; 100];
    let mut x: u32 = 12345;
    for b in junk.iter_mut() {
        x = x.wrapping_mul(1103515245).wrapping_add(12345);
        *b = (x >> 16) as u8;
    }
    junk[0] = 0x9c;
    let r = relay.on_handshake_bytes(&junk, &relay_secret, &relay_public);
    assert_eq!(r, Err(ControlError::Malformed(DecodeError::UnknownTag)));
    assert!(!relay.is_established());
}

#[test]
fn new_connection_during_handshake_is_fatal() {
    let (relay_secret, relay_public) = generate_keypair();
    let mut relay = RelaySession::new();
    let bytes = encode(&RelayConfig::NewConnection(1, [0u8; 32], origin(2)));
    assert_eq!(
        relay.on_handshake_bytes(&bytes, &relay_secret, &relay_public),
        Err(ControlError::UnexpectedRecord)
    );
}

#[test]
fn bad_public_key_is_fatal() {
    let (relay_secret, relay_public) = generate_keypair();
    let mut relay = RelaySession::new();
    let bytes = encode(&RelayConfig::KeyExchange(vec![1, 2, 3]));
    assert_eq!(
        relay.on_handshake_bytes(&bytes, &relay_secret, &relay_public),
        Err(ControlError::InvalidPublicKey)
    );
}

#[test]
fn key_exchange_after_handshake_is_fatal() {
    let (hidden_secret, hidden_public) = generate_keypair();
    let (relay_secret, relay_public) = generate_keypair();
    let mut relay = RelaySession::new();
    let mut hidden = HiddenSession::new();
    let hello = relay_tunnel::control::key_exchange_message(&hidden_public);
    let reply = relay.on_handshake_bytes(&hello, &relay_secret, &relay_public).unwrap().unwrap();
    assert_eq!(hidden.on_handshake_bytes(&reply, &hidden_secret), Ok(true));
    // a KeyExchange record, encrypted as the relay would encrypt its first record
    let secret = generate_shared_secret(&relay_public, &hidden_secret);
    let mut control = get_chacha20(&secret);
    let wire = apply_keystream_and_return_new(&mut control, &hello);
    hidden.on_control_bytes(&wire).unwrap();
    assert_eq!(hidden.next_signal(), Err(ControlError::UnexpectedRecord));
}

#[test]
fn garbage_after_handshake_is_fatal() {
    let (_relay, mut hidden) = handshake();
    hidden.on_control_bytes(&[0u8; MAX_RECORD_LEN]).unwrap();
    assert!(hidden.next_signal().is_err());
}

#[test]
fn take_record_too_long() {
    let mut bytes = vec![0u8, 0, 0, 0];
    bytes.extend_from_slice(&(5000u64).to_le_bytes());
    bytes.resize(MAX_RECORD_LEN, 0);
    assert_eq!(take_record(&bytes), Err(ControlError::RecordTooLong));
    assert_eq!(take_record(&bytes[..100]), Ok(None));
}

fn forward(action: PumpAction) -> Vec<u8> {
    match action {
        PumpAction::Forward(bytes) => bytes,
        PumpAction::Close => panic!("flow closed"),
    }
}

#[test]
fn single_echo_through_pumps() {
    let key = generate_uuid();
    let mut relay_pump = Pump::new(&key);
    let mut hidden_pump = Pump::new(&key);
    let on_tunnel = forward(relay_pump.from_local(b"hello"));
    assert_ne!(on_tunnel, b"hello".to_vec());
    let at_target = forward(hidden_pump.from_tunnel(&on_tunnel));
    assert_eq!(at_target, b"hello".to_vec());
    let back = forward(hidden_pump.from_local(&at_target));
    let at_client = forward(relay_pump.from_tunnel(&back));
    assert_eq!(at_client, b"hello".to_vec());
}

#[test]
fn large_payload_rechunked() {
    let key = [0x11u8; 32];
    let mut relay_pump = Pump::new(&key);
    let mut hidden_pump = Pump::new(&key);
    let mut data = vec![0u8; 1 << 20];
    let mut x: u64 = 99;
    for b in data.iter_mut() {
        x = x.wrapping_mul(6364136223846793005).wrapping_add(1442695040888963407);
        *b = (x >> 56) as u8;
    }
    let mut tunnel = Vec::new();
    for piece in data.chunks(2048) {
        tunnel.extend(forward(relay_pump.from_local(piece)));
    }
    let mut received = Vec::new();
    for piece in tunnel.chunks(1000) {
        received.extend(forward(hidden_pump.from_tunnel(piece)));
    }
    assert_eq!(received, data);
}

#[test]
fn two_flows_do_not_mix() {
    let ka = [0xaau8; 32];
    let kb = [0xbbu8; 32];
    let mut relay_a = Pump::new(&ka);
    let mut relay_b = Pump::new(&kb);
    let mut hidden_a = Pump::new(&ka);
    let mut hidden_b = Pump::new(&kb);
    let ta = forward(relay_a.from_local(b"AAAA"));
    let tb = forward(relay_b.from_local(b"BBBB"));
    assert_eq!(forward(hidden_a.from_tunnel(&ta)), b"AAAA".to_vec());
    assert_eq!(forward(hidden_b.from_tunnel(&tb)), b"BBBB".to_vec());
    let ra = forward(hidden_a.from_local(b"a"));
    let rb = forward(hidden_b.from_local(b"b"));
    assert_eq!(forward(relay_a.from_tunnel(&ra)), b"a".to_vec());
    assert_eq!(forward(relay_b.from_tunnel(&rb)), b"b".to_vec());
}

#[test]
fn zero_byte_read_closes() {
    let mut pump = Pump::new(&[1u8; 32]);
    assert_eq!(pump.from_local(&[]), PumpAction::Close);
    assert_eq!(pump.from_tunnel(&[]), PumpAction::Close);
}

#[test]
fn half_close_after_data() {
    let key = [4u8; 32];
    let mut relay_pump = Pump::new(&key);
    let mut hidden_pump = Pump::new(&key);
    let t = forward(relay_pump.from_local(b"q"));
    assert_eq!(forward(hidden_pump.from_tunnel(&t)), b"q".to_vec());
    assert_eq!(relay_pump.from_local(&[]), PumpAction::Close);
}

#[test]
fn pending_flow_pump_matches_peer() {
    let (mut relay, mut hidden) = handshake();
    let key = generate_uuid();
    let (wire, pending) = relay.announce(9, key, origin(1)).unwrap();
    hidden.on_control_bytes(&wire).unwrap();
    let (_, flow_key, _) = hidden.next_signal().unwrap().unwrap();
    let mut relay_pump = pending.into_pump();
    let mut hidden_pump = Pump::new(&flow_key);
    let t = forward(relay_pump.from_local(b"ping"));
    assert_eq!(forward(hidden_pump.from_tunnel(&t)), b"ping".to_vec());
}

#[test]
fn default_options() {
    let relay = relay_tunnel::RelayCmdOptions::default();
    assert_eq!(relay.config_port, 10000);
    assert_eq!(relay.exposed_port, 20000);
    let hidden = relay_tunnel::HiddenCmdOptions::default();
    assert_eq!(hidden.relay_ip, "127.0.0.1");
    assert_eq!(hidden.config_port, 10000);
    assert_eq!(hidden.target_port, 20000);
}

#[test]
fn unparsed_peer_key_is_fatal() {
    let (secret, public) = generate_keypair();
    let mut relay = RelaySession::new();
    assert_eq!(relay.accept_peer_key(None, &secret, &public), Err(ControlError::InvalidPublicKey));
    assert!(!relay.is_established());
    let mut hidden = HiddenSession::new();
    assert_eq!(hidden.accept_peer_key(None, &secret, &[]), Err(ControlError::InvalidPublicKey));
    assert!(!hidden.is_established());
}

#[test]
fn handshake_key_extracts_key_bytes() {
    let (_, public) = generate_keypair();
    let hello = relay_tunnel::control::key_exchange_message(&public);
    let (key, n) = relay_tunnel::control::handshake_key(&hello).unwrap().unwrap();
    assert_eq!(key, pubkey_to_bytes(&public));
    assert_eq!(n, hello.len());
    assert_eq!(n, 45);
}

#[test]
fn uncompressed_peer_key_is_refused() {
    let (_, hidden_public) = generate_keypair();
    let (relay_secret, relay_public) = generate_keypair();
    let mut relay = RelaySession::new();
    let long_form = hidden_public.serialize_uncompressed().to_vec();
    assert!(pubkey_from_bytes(&long_form).is_some());
    let bytes = encode(&RelayConfig::KeyExchange(long_form));
    assert_eq!(
        relay.on_handshake_bytes(&bytes, &relay_secret, &relay_public),
        Err(ControlError::InvalidPublicKey)
    );
    assert!(!relay.is_established());
}

#[test]
fn reply_carries_our_public_key() {
    let (_, hidden_public) = generate_keypair();
    let (relay_secret, relay_public) = generate_keypair();
    let mut relay = RelaySession::new();
    let hello = relay_tunnel::control::key_exchange_message(&hidden_public);
    let reply = relay.on_handshake_bytes(&hello, &relay_secret, &relay_public).unwrap().unwrap();
    assert_eq!(reply, encode(&RelayConfig::KeyExchange(pubkey_to_bytes(&relay_public))));
}

#[test]
fn oversized_announcement_is_refused() {
    let (mut relay, _) = handshake();
    let long = Connection { incoming_port: 1, incoming_addr: "x".repeat(1000) };
    assert!(matches!(relay.announce(5, [0u8; 32], long), Err(ControlError::RecordTooLong)));
    // the session is still usable
    assert!(relay.announce(5, [0u8; 32], origin(1)).is_ok());
}
