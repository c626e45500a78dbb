use dropwire::error::DropWireError;
use dropwire::framing::{encode_frame, frame_payload_len};
use dropwire::net::discovery::DiscoveryService;
use dropwire::net::parallel::{check_stream_index, stream_for_chunk, stream_handshake, ChunkFrame};
use dropwire::net::signaling::{Role, SignalPhase, SignalStep, SignalingSession, WsMsg};
use dropwire::relay::{
    parse_handshake, Delivery, TcpOutcome, TcpRegistry, WsConn, WsMsg as RelayMsg, WsOut, WsRegistry,
};
use dropwire::types::{ChannelId, FRAME_MAX_SIZE};

#[test]
fn frame_header_announces_the_length() {
    let f = encode_frame(b"Hello Framing Protocol").unwrap();
    assert_eq!(&f[..4], &22u32.to_be_bytes());
    let header: [u8; 4] = f[..4].try_into().unwrap();
    assert_eq!(frame_payload_len(&header).unwrap(), 22);
    assert_eq!(&f[4..], b"Hello Framing Protocol");
}

#[test]
fn empty_frame_is_just_a_header() {
    assert_eq!(encode_frame(&[]).unwrap(), vec![0, 0, 0, 0]);
}

#[test]
fn oversized_frames_are_refused() {
    let big = vec![0u8; FRAME_MAX_SIZE as usize + 1];
    assert!(matches!(encode_frame(&big), Err(DropWireError::Protocol(_))));
    let header = (FRAME_MAX_SIZE + 1).to_be_bytes();
    assert!(matches!(frame_payload_len(&header), Err(DropWireError::Protocol(_))));
    assert_eq!(frame_payload_len(&FRAME_MAX_SIZE.to_be_bytes()).unwrap(), FRAME_MAX_SIZE);
}

#[test]
fn chunk_frame_roundtrip() {
    let f = ChunkFrame { chunk_index: 258, is_compressed: true, data: vec![1, 2, 3] };
    let b = f.to_bytes();
    assert_eq!(b.len(), 16);
    assert_eq!(&b[..8], &258u64.to_be_bytes());
    assert_eq!(b[8], 1);
    let back = ChunkFrame::from_bytes(&b).unwrap();
    assert_eq!(back.chunk_index, 258);
    assert!(back.is_compressed);
    assert_eq!(back.data, vec![1, 2, 3]);
}

#[test]
fn chunk_frame_refuses_short_input() {
    assert!(matches!(ChunkFrame::from_bytes(&[0; 12]), Err(DropWireError::Protocol(_))));
    let mut b = ChunkFrame { chunk_index: 1, is_compressed: false, data: vec![9; 4] }.to_bytes();
    b.pop();
    assert!(matches!(ChunkFrame::from_bytes(&b), Err(DropWireError::Protocol(_))));
}

#[test]
fn chunk_frame_compressed_flag_is_byte_one() {
    let mut b = ChunkFrame { chunk_index: 1, is_compressed: false, data: vec![] }.to_bytes();
    b[8] = 2;
    assert!(!ChunkFrame::from_bytes(&b).unwrap().is_compressed);
}

#[test]
fn round_robin_streams() {
    assert_eq!(stream_for_chunk(0, 4), 0);
    assert_eq!(stream_for_chunk(5, 4), 1);
    assert_eq!(stream_for_chunk(7, 1), 0);
    assert!(check_stream_index(3, 4).is_ok());
    assert!(matches!(check_stream_index(4, 4), Err(DropWireError::Network(_))));
}

#[test]
fn handshake_is_token_hex_token_and_role() {
    let h = stream_handshake(&[42u8; 16], Role::Sender);
    assert_eq!(h.len(), 50);
    assert_eq!(&h[0..16], &[42u8; 16]);
    assert_eq!(h[16], 32);
    assert_eq!(&h[17..49], "2a2a2a2a2a2a2a2a2a2a2a2a2a2a2a2a".as_bytes());
    assert_eq!(h[49], 1);
    let r = stream_handshake(&[42u8; 16], Role::Receiver);
    assert_eq!(r[49], 2);
    let mut auth = [0u8; 16];
    auth.copy_from_slice(&h[0..16]);
    let parsed = parse_handshake(auth, h[17..49].to_vec(), h[49]).unwrap();
    assert_eq!(parsed.auth, [42u8; 16]);
    assert_eq!(parsed.channel.0, "2a2a2a2a2a2a2a2a2a2a2a2a2a2a2a2a");
    assert!(parsed.role == Role::Sender);
}

#[test]
fn relay_refuses_bad_handshakes() {
    assert!(matches!(parse_handshake([0u8; 16], vec![0xff, 0xfe], 1), Err(DropWireError::Protocol(_))));
    assert!(matches!(parse_handshake([0u8; 16], b"chan".to_vec(), 3), Err(DropWireError::Protocol(_))));
}

#[test]
fn relay_pairs_opposite_roles_per_channel() {
    let t = [42u8; 16];
    let mut r = TcpRegistry::new();
    assert!(matches!(r.arrive(1, t, "chan1", Role::Sender), TcpOutcome::Queued));
    assert!(matches!(r.arrive(2, t, "chan2", Role::Receiver), TcpOutcome::Queued));
    assert!(matches!(r.arrive(3, t, "chan1", Role::Sender), TcpOutcome::Queued));
    assert!(matches!(r.arrive(4, t, "chan1", Role::Receiver), TcpOutcome::Paired(3)));
    assert!(matches!(r.arrive(5, t, "chan1", Role::Receiver), TcpOutcome::Paired(1)));
    assert!(matches!(r.arrive(6, t, "chan1", Role::Receiver), TcpOutcome::Queued));
    assert!(matches!(r.arrive(7, t, "chan2", Role::Sender), TcpOutcome::Paired(2)));
}

#[test]
fn relay_pairs_equal_tokens_in_tested_handshake() {
    // client1 writes [42;16] ++ [5] ++ "chan1" ++ [1], client2 the same with role 2.
    let mut r = TcpRegistry::new();
    let h1 = parse_handshake([42u8; 16], b"chan1".to_vec(), 0x01).unwrap();
    let h2 = parse_handshake([42u8; 16], b"chan1".to_vec(), 0x02).unwrap();
    assert!(matches!(r.arrive(1, h1.auth, &h1.channel.0, h1.role), TcpOutcome::Queued));
    assert!(matches!(r.arrive(2, h2.auth, &h2.channel.0, h2.role), TcpOutcome::Paired(1)));
}

#[test]
fn relay_refuses_mismatched_tokens() {
    let mut r = TcpRegistry::new();
    let h1 = parse_handshake([1u8; 16], b"chan2".to_vec(), 0x01).unwrap();
    let h2 = parse_handshake([2u8; 16], b"chan2".to_vec(), 0x02).unwrap();
    assert!(matches!(r.arrive(1, h1.auth, &h1.channel.0, h1.role), TcpOutcome::Queued));
    assert!(matches!(r.arrive(2, h2.auth, &h2.channel.0, h2.role), TcpOutcome::Refused(1)));
    // The refused sender left its queue: a later receiver with its token waits.
    assert!(matches!(r.arrive(3, [1u8; 16], "chan2", Role::Receiver), TcpOutcome::Queued));
}

#[test]
fn discovery_announcement_text_and_parse() {
    let ch = ChannelId("test_chan1".to_string());
    let msg = DiscoveryService::announcement_text(&ch, 8080);
    assert_eq!(msg, "DROPWIRE/1.0 DISCOVER test_chan1 PORT 8080\n");
    assert_eq!(DiscoveryService::parse_announcement(&msg, &ch), Some(8080));
    assert_eq!(DiscoveryService::read_datagram(msg.as_bytes(), &ch), Some(8080));
}

#[test]
fn discovery_ignores_other_channels_and_bad_ports() {
    let ch = ChannelId("test_chan2".to_string());
    let other = DiscoveryService::announcement_text(&ChannelId("test_chan2_wrong".to_string()), 8081);
    assert_eq!(DiscoveryService::parse_announcement(&other, &ch), None);
    assert_eq!(DiscoveryService::parse_announcement("DROPWIRE/1.0 DISCOVER test_chan2 PORT 70000", &ch), None);
    assert_eq!(DiscoveryService::parse_announcement("DROPWIRE/1.0 DISCOVER test_chan2 PORT  12 \r\n", &ch), Some(12));
    assert_eq!(DiscoveryService::parse_announcement("hello", &ch), None);
}

#[test]
fn discovery_prefix() {
    let p: String = DiscoveryService::expected_prefix(&ChannelId("c".to_string())).into_iter().collect();
    assert_eq!(p, "DROPWIRE/1.0 DISCOVER c PORT ");
}

/// The test's own text form of the messages the relay passes on.
fn to_text(m: &WsMsg) -> String {
    match m {
        WsMsg::PakeStep1 { scalar_mul } => format!("1:{}", scalar_mul),
        WsMsg::PakeStep2 { scalar_mul } => format!("2:{}", scalar_mul),
        WsMsg::AuthProof { token } => format!("A:{}", token),
        _ => String::new(),
    }
}

fn from_text(t: &str) -> WsMsg {
    if let Some(s) = t.strip_prefix("1:") {
        WsMsg::PakeStep1 { scalar_mul: s.to_string() }
    } else if let Some(s) = t.strip_prefix("2:") {
        WsMsg::PakeStep2 { scalar_mul: s.to_string() }
    } else {
        WsMsg::AuthProof { token: t[2..].to_string() }
    }
}

fn to_relay(m: &WsMsg) -> RelayMsg {
    match m {
        WsMsg::Register { role, channel } => RelayMsg::Register { role: role.clone(), channel: channel.clone() },
        WsMsg::PakeStep1 { scalar_mul } => RelayMsg::PakeStep1 { scalar_mul: scalar_mul.clone() },
        WsMsg::PakeStep2 { scalar_mul } => RelayMsg::PakeStep2 { scalar_mul: scalar_mul.clone() },
        WsMsg::AuthProof { token } => RelayMsg::AuthProof { token: token.clone() },
        _ => RelayMsg::AuthOk,
    }
}

fn from_out(o: &WsOut) -> WsMsg {
    match o {
        WsOut::Registered => WsMsg::Registered,
        WsOut::Text(t) => from_text(t),
        WsOut::PeerReady => WsMsg::PeerReady,
        WsOut::AuthFail => WsMsg::AuthFail,
    }
}

/// Runs both peers against the relay until both are finished; the steps each
/// peer ended with.
fn run_pair(pw_sender: &str, pw_receiver: &str) -> (SignalStep, SignalStep) {
    let ch = ChannelId("7".to_string());
    let mut relay = WsRegistry::new();
    let (mut s, reg_s) = SignalingSession::start(&ch, Role::Sender, pw_sender);
    let (mut r, reg_r) = SignalingSession::start(&ch, Role::Receiver, pw_receiver);
    let mut conns = [
        WsConn { id: 0, role: String::new(), channel: String::new() },
        WsConn { id: 1, role: String::new(), channel: String::new() },
    ];
    let mut queue: Vec<(usize, WsMsg)> = vec![(0, reg_s), (1, reg_r)];
    let mut results: [Option<SignalStep>; 2] = [None, None];
    let mut guard = 0;
    while let Some((from, msg)) = if queue.is_empty() { None } else { Some(queue.remove(0)) } {
        guard += 1;
        assert!(guard < 100);
        let raw = to_text(&msg);
        let out: Vec<Delivery> = relay.on_message(&mut conns[from], to_relay(&msg), &raw);
        for d in out {
            let m = from_out(&d.out);
            let peer = if d.to == 0 { &mut s } else { &mut r };
            match peer.on_message(m) {
                SignalStep::Send(next) => queue.push((d.to as usize, next)),
                SignalStep::Wait => {}
                done => results[d.to as usize] = Some(done),
            }
        }
    }
    assert_eq!(s.phase(), SignalPhase::Finished);
    assert_eq!(r.phase(), SignalPhase::Finished);
    let [a, b] = results;
    (a.unwrap(), b.unwrap())
}

#[test]
fn signaling_through_relay_agrees_on_keys() {
    match run_pair("7-guitar-abandon", "7-guitar-abandon") {
        (SignalStep::Done(a), SignalStep::Done(b)) => {
            assert_eq!(a.shared_key, b.shared_key);
            assert_eq!(a.auth_token, b.auth_token);
            assert!(a.peer_ready && b.peer_ready);
        }
        _ => panic!("both peers should finish"),
    }
}

#[test]
fn signaling_with_wrong_password_fails_both() {
    match run_pair("7-guitar-abandon", "7-wrong-pass") {
        (SignalStep::Fail(DropWireError::Crypto(_)), SignalStep::Fail(DropWireError::Crypto(_))) => {}
        _ => panic!("both peers should be told the proofs differ"),
    }
}

#[test]
fn signaling_relay_error_fails_with_its_message() {
    let (mut s, _) = SignalingSession::start(&ChannelId("c".to_string()), Role::Sender, "pw");
    match s.on_message(WsMsg::Error { code: "TEST".to_string(), message: "Server died".to_string() }) {
        SignalStep::Fail(DropWireError::Protocol(m)) => assert_eq!(m, "Server died"),
        _ => panic!("a relay error ends the exchange"),
    }
}

#[test]
fn signaling_registration_message() {
    let (_, m) = SignalingSession::start(&ChannelId("test1".to_string()), Role::Receiver, "pw");
    match m {
        WsMsg::Register { role, channel } => {
            assert_eq!(role, "receiver");
            assert_eq!(channel, "test1");
        }
        _ => panic!("the first message registers"),
    }
}

#[test]
fn relay_sends_late_peer_the_pake_it_missed() {
    let mut relay = WsRegistry::new();
    let mut a = WsConn { id: 10, role: String::new(), channel: String::new() };
    let mut b = WsConn { id: 11, role: String::new(), channel: String::new() };
    let reg = RelayMsg::Register { role: "sender".to_string(), channel: "c".to_string() };
    let out = relay.on_message(&mut a, reg, &String::new());
    assert_eq!(out.len(), 1);
    assert!(matches!(out[0].out, WsOut::Registered));
    let p1 = "{\"type\":\"PakeStep1\"}".to_string();
    let out = relay.on_message(&mut a, RelayMsg::PakeStep1 { scalar_mul: "x".to_string() }, &p1);
    assert!(out.is_empty());
    let reg = RelayMsg::Register { role: "receiver".to_string(), channel: "c".to_string() };
    let out = relay.on_message(&mut b, reg, &String::new());
    assert_eq!(out.len(), 2);
    assert_eq!(out[1].to, 11);
    match &out[1].out {
        WsOut::Text(t) => assert_eq!(t, &p1),
        _ => panic!("the sender's PAKE message is passed on"),
    }
}

#[test]
fn relay_ignores_messages_for_unknown_channels() {
    let mut relay = WsRegistry::new();
    let mut a = WsConn { id: 1, role: "sender".to_string(), channel: "nowhere".to_string() };
    let out = relay.on_message(&mut a, RelayMsg::AuthProof { token: "t".to_string() }, &String::new());
    assert!(out.is_empty());
    assert!(relay.entries.is_empty());
}

/// Reads one frame back from bytes as a reader would: the header, then the
/// payload it announces.
fn read_back(bytes: &[u8]) -> Result<Vec<u8>, DropWireError> {
    let header: [u8; 4] = bytes[..4].try_into().unwrap();
    let len = frame_payload_len(&header)? as usize;
    Ok(bytes[4..4 + len].to_vec())
}

#[test]
fn mod_test_roundtrip() {
    let payload = b"Hello Framing Protocol";
    let frame = encode_frame(payload).unwrap();
    let received = read_back(&frame).unwrap();
    assert_eq!(payload.as_slice(), received.as_slice());
}

#[test]
fn test_empty_payload() {
    let payload = b"";
    let frame = encode_frame(payload).unwrap();
    let received = read_back(&frame).unwrap();
    assert_eq!(payload.as_slice(), received.as_slice());
}

#[test]
fn test_1mib_payload() {
    let payload = vec![0x42u8; 1024 * 1024];
    let frame = encode_frame(&payload).unwrap();
    let received = read_back(&frame).unwrap();
    assert_eq!(payload, received);
}

#[test]
fn test_oversized_payload_write() {
    let payload = vec![0x00u8; 17 * 1024 * 1024];
    let result = encode_frame(&payload);
    assert!(matches!(result, Err(DropWireError::Protocol(_))));
}

#[test]
fn test_oversized_payload_read() {
    let mut oversize = Vec::new();
    oversize.extend_from_slice(&(FRAME_MAX_SIZE + 1).to_be_bytes());
    let result = read_back(&oversize);
    assert!(matches!(result, Err(DropWireError::Protocol(_))));
}

#[test]
fn relay_map_holds_a_channel_until_both_proved() {
    let mut relay = WsRegistry::new();
    let mut a = WsConn { id: 1, role: String::new(), channel: String::new() };
    let mut b = WsConn { id: 2, role: String::new(), channel: String::new() };
    relay.on_message(&mut a, RelayMsg::Register { role: "sender".to_string(), channel: "m".to_string() }, &String::new());
    relay.on_message(&mut b, RelayMsg::Register { role: "receiver".to_string(), channel: "m".to_string() }, &String::new());
    assert_eq!(relay.entries.len(), 1);
    assert!(relay.on_message(&mut a, RelayMsg::AuthProof { token: "t".to_string() }, &String::new()).is_empty());
    assert_eq!(relay.entries.len(), 1);
    let out = relay.on_message(&mut b, RelayMsg::AuthProof { token: "t".to_string() }, &String::new());
    assert_eq!(out.len(), 2);
    assert!(matches!(out[0].out, WsOut::PeerReady));
    assert!(relay.entries.is_empty());
}
