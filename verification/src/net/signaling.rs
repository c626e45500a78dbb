//! The signaling exchange over the relay's WebSocket: registration, the PAKE
//! messages and the proof that both sides derived the same key. The caller
//! carries the messages; this module decides what to send next.
use vstd::prelude::*;
use vstd::utf8::encode_utf8;
use base64::engine::general_purpose::STANDARD as BASE64;
use base64::Engine as _;
use crate::crypto::kdf::{blake3_derive_key_spec, derive_auth_token};
use crate::crypto::pake::{PakeState, degenerate, ed25519_decodes, lemma_pake_agreement};
use crate::crypto::blake3_hash_spec;
use crate::error::{DropWireError, crypto_error, protocol_error};
use crate::text::{hex_encode, hex_lower};
use crate::types::ChannelId;

verus! {

/// Which end of a transfer a peer is.
#[derive(Clone, Copy, PartialEq, Eq, Structural, Debug)]
pub enum Role {
    Sender,
    Receiver,
}

/// The messages of the signaling channel (JSON objects tagged by `type` on the wire).
#[derive(Debug, Clone)]
pub enum WsMsg {
    Register { role: String, channel: String },
    Registered,
    PakeStep1 { scalar_mul: String },
    PakeStep2 { scalar_mul: String },
    AuthProof { token: String },
    AuthOk,
    AuthFail,
    PeerReady,
    Error { code: String, message: String },
    DirectCandidate { ip: String, port: u16 },
}

/// What a successful signaling exchange yields.
pub struct SignalingResult {
    pub shared_key: [u8; 32],
    pub auth_token: [u8; 16],
    pub peer_ready: bool,
}

/// The client side of the signaling exchange.
pub struct SignalingClient;

/// What standard base64 (with padding) encodes bytes to.
pub uninterp spec fn base64_encoded(bytes: Seq<u8>) -> Seq<char>;

/// What standard base64 decoding gives for text, when it is valid.
pub uninterp spec fn base64_decoded(text: Seq<char>) -> Option<Seq<u8>>;

/// `base64::engine::general_purpose::STANDARD.encode`; what it produces decodes back to the bytes.
#[verifier::external_body]
fn base64_encode(bytes: &[u8]) -> (s: String)
    ensures
        s@ == base64_encoded(bytes@),
        base64_decoded(s@) == Some(bytes@),
{
    BASE64.encode(bytes)
}

/// `base64::engine::general_purpose::STANDARD.decode`: fails on text that is
/// not canonical padded base64; what `encode` produced decodes back.
#[verifier::external_body]
fn base64_decode(text: &str) -> (r: Option<Vec<u8>>)
    ensures
        r matches Some(b) ==> base64_decoded(text@) == Some(b@),
        r is None ==> base64_decoded(text@) is None,
        r is None ==> forall|b: Seq<u8>| text@ != #[trigger] base64_encoded(b),
        r matches Some(d) ==> forall|b: Seq<u8>| text@ == #[trigger] base64_encoded(b) ==> d@ == b,
{
    BASE64.decode(text.as_bytes()).ok()
}

/// The role name used when registering.
pub open spec fn role_name(role: Role) -> Seq<char> {
    match role {
        Role::Sender => "sender"@,
        Role::Receiver => "receiver"@,
    }
}

/// The peer's PAKE message carried by `msg`, if `msg` is the peer's step: the
/// sender's step for a receiver, the receiver's step for a sender.
pub open spec fn peer_scalar(role: Role, msg: WsMsg) -> Option<Seq<char>> {
    match msg {
        WsMsg::PakeStep1 { scalar_mul } => if role == Role::Receiver {
            Some(scalar_mul@)
        } else {
            None
        },
        WsMsg::PakeStep2 { scalar_mul } => if role == Role::Sender {
            Some(scalar_mul@)
        } else {
            None
        },
        _ => None,
    }
}

/// The steps of the exchange.
#[derive(Clone, Copy, PartialEq, Eq, Structural, Debug)]
pub enum SignalPhase {
    /// Registered at the relay, waiting for its answer.
    AwaitRegistered,
    /// Our PAKE message is out; waiting for the peer's.
    AwaitPeerPake,
    /// Our proof is out; waiting for the relay to compare it with the peer's.
    AwaitReady,
    /// The exchange ended.
    Finished,
}

/// What to do after a message from the relay.
pub enum SignalStep {
    /// Keep waiting.
    Wait,
    /// Send this message, then keep waiting.
    Send(WsMsg),
    /// Both sides proved the same key.
    Done(SignalingResult),
    /// The exchange failed.
    Fail(DropWireError),
}

/// One peer's side of the exchange.
pub struct SignalingSession {
    role: Role,
    channel: String,
    password: String,
    pake: Option<PakeState>,
    shared_key: [u8; 32],
    auth_token: [u8; 16],
    phase: SignalPhase,
}

/// Key agreement over the relay: a sender and a receiver waiting for each
/// other's PAKE message on the same channel with the same code phrase, each
/// given the message the other sent (the base64 of its element), derive the
/// same key, and so the same auth token.
pub proof fn lemma_sessions_agree(s: SignalingSession, r: SignalingSession)
    requires
        s.inv(),
        r.inv(),
        s.phase_of() == SignalPhase::AwaitPeerPake,
        r.phase_of() == SignalPhase::AwaitPeerPake,
        s.role_of() == Role::Sender,
        r.role_of() == Role::Receiver,
        s.password() == r.password(),
        s.channel_of() == r.channel_of(),
    ensures
        ({
            let ps = s.pake_state()->0;
            let pr = r.pake_state()->0;
            ps.secret(base64_decoded(base64_encoded(pr.outbound()@))->0) == pr.secret(
                base64_decoded(base64_encoded(ps.outbound()@))->0,
            )
        }),
{
    let ps = s.pake.unwrap();
    let pr = r.pake.unwrap();
    lemma_pake_agreement(ps, pr);
}

impl SignalingSession {
    /// Which end this peer is.
    pub closed spec fn role_of(&self) -> Role {
        self.role
    }

    /// The channel the session registered under.
    pub closed spec fn channel_of(&self) -> Seq<char> {
        self.channel@
    }

    /// Where the exchange stands.
    pub closed spec fn phase_of(&self) -> SignalPhase {
        self.phase
    }

    /// Where the exchange stands.
    pub fn phase(&self) -> (p: SignalPhase)
        ensures
            p == self.phase_of(),
    {
        self.phase
    }

    /// The password the session runs the PAKE with.
    pub closed spec fn password(&self) -> Seq<char> {
        self.password@
    }

    /// The key and token agreed so far (meaningful from `AwaitReady` on).
    pub closed spec fn agreed(&self) -> ([u8; 32], [u8; 16]) {
        (self.shared_key, self.auth_token)
    }

    /// The PAKE state held between sending our element and receiving the peer's.
    pub closed spec fn pake_state(&self) -> Option<PakeState> {
        self.pake
    }

    /// While the peer's element is awaited, the PAKE state is there, of the
    /// side this peer plays.
    pub closed spec fn inv(&self) -> bool {
        self.phase == SignalPhase::AwaitPeerPake ==> (self.pake matches Some(p) && p.well_formed() && p.alice() == (
        self.role == Role::Sender) && p.seeded_with() == encode_utf8(self.password@) + encode_utf8(self.channel@)
            && base64_decoded(base64_encoded(p.outbound()@)) == Some(p.outbound()@))
    }

    /// Starts the exchange: the session and the registration to send.
    pub fn start(channel: &ChannelId, role: Role, password: &str) -> (r: (Self, WsMsg))
        ensures
            r.0.inv(),
            r.0.role_of() == role,
            r.0.channel_of() == channel.0@,
            r.0.password() == password@,
            r.0.phase_of() == SignalPhase::AwaitRegistered,
            r.1 matches WsMsg::Register { role: rn, channel: ch } && rn@ == role_name(role) && ch@ == channel.0@,
    {
        let role_str = if role == Role::Sender {
            "sender"
        } else {
            "receiver"
        };
        let reg = WsMsg::Register { role: role_str.to_string(), channel: channel.0.clone() };
        (
            SignalingSession {
                role,
                channel: channel.0.clone(),
                password: password.to_string(),
                pake: None,
                shared_key: [0u8; 32],
                auth_token: [0u8; 16],
                phase: SignalPhase::AwaitRegistered,
            },
            reg,
        )
    }

    /// Handles a message from the relay. A relay `Error` always fails the
    /// exchange with its message; messages that do not belong to the current
    /// step are ignored.
    pub fn on_message(&mut self, msg: WsMsg) -> (step: SignalStep)
        requires
            old(self).inv(),
        ensures
            final(self).inv(),
            final(self).role_of() == old(self).role_of(),
            final(self).channel_of() == old(self).channel_of(),
            old(self).phase_of() != SignalPhase::Finished ==> (msg matches WsMsg::Error { message, .. } ==> (
            step matches SignalStep::Fail(e) && e matches DropWireError::Protocol(m) && m@ == message@)),
            old(self).phase_of() == SignalPhase::AwaitRegistered && msg is Registered ==> final(self).phase_of()
                == SignalPhase::AwaitPeerPake && (step matches SignalStep::Send(out) && (if old(self).role_of()
                == Role::Sender {
                out is PakeStep1
            } else {
                out is PakeStep2
            })) && (final(self).pake_state() matches Some(p) && p.alice() == (old(self).role_of() == Role::Sender)
                && p.seeded_with() == encode_utf8(old(self).password()) + encode_utf8(old(self).channel_of())
                && (step matches SignalStep::Send(out) && (match out {
                WsMsg::PakeStep1 { scalar_mul } => scalar_mul@ == base64_encoded(p.outbound()@),
                WsMsg::PakeStep2 { scalar_mul } => scalar_mul@ == base64_encoded(p.outbound()@),
                _ => false,
            }))),
            old(self).phase_of() == SignalPhase::AwaitPeerPake ==> (step matches SignalStep::Send(out) ==> {
                &&& final(self).phase_of() == SignalPhase::AwaitReady
                &&& out matches WsMsg::AuthProof { token } && token@ == hex_lower(final(self).agreed().1@)
                &&& final(self).agreed().1@ == blake3_derive_key_spec(
                    "dropwire/auth/v1"@,
                    final(self).agreed().0@,
                ).take(16)
            }),
            old(self).phase_of() == SignalPhase::AwaitPeerPake && step is Send ==> final(self).agreed().0@
                == old(self).pake_state()->0.secret(base64_decoded(peer_scalar(old(self).role_of(), msg)->0)->0),
            old(self).phase_of() == SignalPhase::AwaitPeerPake ==> match peer_scalar(old(self).role_of(), msg) {
                Some(text) => {
                    &&& step is Send || step is Fail
                    &&& base64_decoded(text) is None ==> (step matches SignalStep::Fail(e) && e is Protocol)
                    &&& (base64_decoded(text) matches Some(b) && (b.len() != 32 || degenerate(b))) ==> (
                    step matches SignalStep::Fail(e) && e is Crypto)
                    &&& step is Send <==> (base64_decoded(text) matches Some(b) && b.len() == 32 && !degenerate(b)
                        && ed25519_decodes(b))
                    &&& (base64_decoded(text) matches Some(b) && b.len() == 32 && !degenerate(b) && !ed25519_decodes(
                    b)) ==> (step matches SignalStep::Fail(e) && e is Crypto)
                },
                None => !(msg is Error) ==> step is Wait,
            },
            old(self).phase_of() == SignalPhase::AwaitReady && msg is PeerReady ==> (step matches SignalStep::Done(res)
                && res.shared_key == old(self).agreed().0 && res.auth_token == old(self).agreed().1
                && res.peer_ready),
            old(self).phase_of() == SignalPhase::AwaitReady && msg is AuthFail ==> (step matches SignalStep::Fail(e)
                && e is Crypto),
            step is Done || step is Fail ==> final(self).phase_of() == SignalPhase::Finished,
            step is Wait ==> final(self).phase_of() == old(self).phase_of(),
            old(self).phase_of() == SignalPhase::Finished ==> step is Wait,
    {
        let ghost msg0 = msg;
        let ghost pake0 = self.pake;
        match self.phase {
            SignalPhase::Finished => SignalStep::Wait,
            SignalPhase::AwaitRegistered => match msg {
                WsMsg::Registered => {
                    let is_alice = self.role == Role::Sender;
                    let (pake, outbound) = PakeState::new(self.password.as_str(), self.channel.as_str(), is_alice);
                    let scalar_b64 = base64_encode(outbound.as_slice());
                    self.pake = Some(pake);
                    self.phase = SignalPhase::AwaitPeerPake;
                    if self.role == Role::Sender {
                        SignalStep::Send(WsMsg::PakeStep1 { scalar_mul: scalar_b64 })
                    } else {
                        SignalStep::Send(WsMsg::PakeStep2 { scalar_mul: scalar_b64 })
                    }
                },
                WsMsg::Error { message, .. } => {
                    self.phase = SignalPhase::Finished;
                    SignalStep::Fail(DropWireError::Protocol(message))
                },
                _ => SignalStep::Wait,
            },
            SignalPhase::AwaitPeerPake => {
                let peer_b64 = match msg {
                    WsMsg::PakeStep1 { scalar_mul } => {
                        if self.role == Role::Receiver {
                            scalar_mul
                        } else {
                            return SignalStep::Wait;
                        }
                    },
                    WsMsg::PakeStep2 { scalar_mul } => {
                        if self.role == Role::Sender {
                            scalar_mul
                        } else {
                            return SignalStep::Wait;
                        }
                    },
                    WsMsg::Error { message, .. } => {
                        self.phase = SignalPhase::Finished;
                        return SignalStep::Fail(DropWireError::Protocol(message));
                    },
                    _ => {
                        return SignalStep::Wait;
                    },
                };
                self.phase = SignalPhase::Finished;
                let peer_bytes = match base64_decode(peer_b64.as_str()) {
                    Some(b) => b,
                    None => {
                        return SignalStep::Fail(protocol_error("Bad Base64"));
                    },
                };
                if peer_bytes.len() != 32 {
                    return SignalStep::Fail(crypto_error("Invalid PAKE point"));
                }
                let mut peer_arr = [0u8; 32];
                let mut i: usize = 0;
                while i < 32
                    invariant
                        i <= 32,
                        peer_bytes@.len() == 32,
                        forall|j: int| 0 <= j < i ==> peer_arr@[j] == peer_bytes@[j],
                    decreases 32 - i,
                {
                    peer_arr[i] = peer_bytes[i];
                    i = i + 1;
                }
                assert(peer_arr@ =~= peer_bytes@);
                let pake = match self.pake.take() {
                    Some(p) => p,
                    None => {
                        return SignalStep::Fail(crypto_error("PAKE not started"));
                    },
                };
                let shared_secret = match pake.finish(&peer_arr) {
                    Ok(s) => s,
                    Err(e) => {
                        return SignalStep::Fail(e);
                    },
                };
                let auth_token = derive_auth_token(&shared_secret.0);
                let auth_hex = hex_encode(auth_token.as_slice());
                self.shared_key = shared_secret.0;
                self.auth_token = auth_token;
                self.phase = SignalPhase::AwaitReady;
                proof {
                    assert(pake0->0 == pake);
                    assert(base64_decoded(peer_scalar(self.role, msg0)->0)->0 == peer_arr@);
                }
                SignalStep::Send(WsMsg::AuthProof { token: auth_hex })
            },
            SignalPhase::AwaitReady => match msg {
                WsMsg::PeerReady => {
                    self.phase = SignalPhase::Finished;
                    SignalStep::Done(
                        SignalingResult {
                            shared_key: self.shared_key,
                            auth_token: self.auth_token,
                            peer_ready: true,
                        },
                    )
                },
                WsMsg::AuthFail => {
                    self.phase = SignalPhase::Finished;
                    SignalStep::Fail(crypto_error("auth proof mismatch"))
                },
                WsMsg::Error { message, .. } => {
                    self.phase = SignalPhase::Finished;
                    SignalStep::Fail(DropWireError::Protocol(message))
                },
                _ => SignalStep::Wait,
            },
        }
    }
}

} // verus!
