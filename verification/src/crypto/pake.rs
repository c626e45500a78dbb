//! SPAKE2 over Ed25519, seeded with the code phrase and the channel, and the
//! transcript hash both sides turn its output into.
use vstd::prelude::*;
use vstd::string::StringSliceAdditionalSpecFns;
use spake2::{Ed25519Group, Identity, Password, Spake2};
use crate::codec::push_all;
use crate::crypto::{blake3_hash, blake3_hash_spec};
use crate::error::{DropWireError, crypto_error};
use crate::text::{ascii_bytes, ascii_str_bytes};
use crate::types::SharedSecret;

verus! {

/// A started SPAKE2 exchange. Verus refuses to take the declaration of the
/// crate's `Spake2<G>` (its parameter is bound by the crate's `Group` trait),
/// so the session is held in this opaque cell.
#[verifier::external_body]
pub struct SpakeSession {
    inner: Spake2<Ed25519Group>,
}

/// The side byte of a session: `b'A'` for the first party, `b'B'` for the second.
pub uninterp spec fn spake_side(s: SpakeSession) -> u8;

/// The password a session was started with.
pub uninterp spec fn spake_password(s: SpakeSession) -> Seq<u8>;

/// The two identities (first party's, second party's) a session was started with.
pub uninterp spec fn spake_ids(s: SpakeSession) -> (Seq<u8>, Seq<u8>);

/// The message a session sends: its side byte, then its 32-byte group element.
pub uninterp spec fn spake_outbound(s: SpakeSession) -> Seq<u8>;

/// The key `Spake2::finish` gives for a session and a peer message.
pub uninterp spec fn spake_key(s: SpakeSession, msg: Seq<u8>) -> Seq<u8>;

/// Whether 32 bytes are the compressed Edwards-Y encoding of an Ed25519 point
/// (`CompressedEdwardsY::decompress` gives `Some`, as `Ed25519Group::bytes_to_element`
/// asks).
pub uninterp spec fn ed25519_decodes(element: Seq<u8>) -> bool;

/// `Spake2::<Ed25519Group>::start_a`: a session for the first party and its
/// outbound message, the side byte `b'A'` followed by the compressed encoding
/// of a group element (which therefore decodes). The element depends on a
/// fresh random scalar, so its value is not stated.
#[verifier::external_body]
pub(crate) fn spake2_start_a(password: &[u8], id_a: &[u8], id_b: &[u8]) -> (r: (SpakeSession, Vec<u8>))
    ensures
        r.1@.len() == 33,
        r.1@[0] == 0x41u8,
        spake_side(r.0) == 0x41u8,
        spake_password(r.0) == password@,
        spake_ids(r.0) == (id_a@, id_b@),
        spake_outbound(r.0) == r.1@,
        ed25519_decodes(r.1@.subrange(1, 33)),
{
    let (inner, msg) = Spake2::<Ed25519Group>::start_a(
        &Password::new(password),
        &Identity::new(id_a),
        &Identity::new(id_b),
    );
    (SpakeSession { inner }, msg)
}

/// `Spake2::<Ed25519Group>::start_b`: as `spake2_start_a`, for the second
/// party, whose messages start with `b'B'`. As the crate documents, two sides
/// that used the same password (and here the same identities) get identical
/// keys: a first-party session finishing with this session's message gets the
/// key this session gets finishing with that session's message.
#[verifier::external_body]
pub(crate) fn spake2_start_b(password: &[u8], id_a: &[u8], id_b: &[u8]) -> (r: (SpakeSession, Vec<u8>))
    ensures
        r.1@.len() == 33,
        r.1@[0] == 0x42u8,
        spake_side(r.0) == 0x42u8,
        spake_password(r.0) == password@,
        spake_ids(r.0) == (id_a@, id_b@),
        spake_outbound(r.0) == r.1@,
        ed25519_decodes(r.1@.subrange(1, 33)),
        forall|a: SpakeSession|
            #![trigger spake_key(a, r.1@)]
            spake_side(a) == 0x41u8 && spake_password(a) == password@ && spake_ids(a) == (id_a@, id_b@) ==> spake_key(
                a,
                r.1@,
            ) == spake_key(r.0, spake_outbound(a)),
{
    let (inner, msg) = Spake2::<Ed25519Group>::start_b(
        &Password::new(password),
        &Identity::new(id_a),
        &Identity::new(id_b),
    );
    (SpakeSession { inner }, msg)
}

/// `Spake2::finish`: the 32-byte SHA-256 key of the exchange. A session of
/// side A (B) succeeds exactly when the peer message is 33 bytes, starts with
/// the other side's byte `b'B'` (`b'A'`), and its last 32 bytes decode to a
/// group element; nothing after that decoding can fail. The key depends on the
/// session (with its secret random scalar) and the message alone.
#[verifier::external_body]
pub(crate) fn spake2_finish(s: SpakeSession, msg: &[u8]) -> (r: Result<Vec<u8>, ()>)
    ensures
        msg@.len() != 33 ==> r is Err,
        spake_side(s) == 0x41u8 ==> (r is Ok <==> (msg@.len() == 33 && msg@[0] == 0x42u8 && ed25519_decodes(
            msg@.subrange(1, 33),
        ))),
        spake_side(s) == 0x42u8 ==> (r is Ok <==> (msg@.len() == 33 && msg@[0] == 0x41u8 && ed25519_decodes(
            msg@.subrange(1, 33),
        ))),
        r matches Ok(k) ==> k@.len() == 32 && k@ == spake_key(s, msg@),
{
    s.inner.finish(msg).map_err(|_| ())
}

/// One party's state between sending its PAKE message and receiving the peer's.
pub struct PakeState {
    inner: SpakeSession,
    pub outbound_msg: [u8; 32],
    is_alice: bool,
}

/// The identity of the sending party.
pub open spec fn sender_id() -> Seq<u8> {
    ascii_bytes("dropwire-sender"@)
}

/// The identity of the receiving party.
pub open spec fn receiver_id() -> Seq<u8> {
    ascii_bytes("dropwire-receiver"@)
}

/// A peer message that no honest party sends: all zeros, or the encoding of
/// the identity point (a one followed by zeros).
pub open spec fn degenerate(msg: Seq<u8>) -> bool {
    (forall|i: int| 0 <= i < msg.len() ==> msg[i] == 0u8) || msg == seq![1u8] + Seq::new(
        (msg.len() - 1) as nat,
        |i: int| 0u8,
    )
}

/// What a party hashes into the session key: the raw SPAKE2 key, both
/// identities, then the sender's message and the receiver's message.
pub open spec fn pake_transcript(raw: Seq<u8>, is_alice: bool, own: Seq<u8>, peer: Seq<u8>) -> Seq<u8> {
    if is_alice {
        raw + sender_id() + receiver_id() + own + peer
    } else {
        raw + sender_id() + receiver_id() + peer + own
    }
}

/// Both parties hash the same transcript: the sender's view with its own and
/// the peer's message is the receiver's view with the roles swapped. Equal raw
/// keys therefore give equal session keys.
pub proof fn lemma_transcript_agrees(raw: Seq<u8>, sender_msg: Seq<u8>, receiver_msg: Seq<u8>)
    ensures
        pake_transcript(raw, true, sender_msg, receiver_msg) == pake_transcript(
            raw,
            false,
            receiver_msg,
            sender_msg,
        ),
{
}

/// Key agreement: a sender and a receiver that started from the same
/// password (code phrase and channel), each finishing with the other's
/// element, derive the same session secret; both elements are group elements,
/// so each `finish` succeeds unless the element it gets is degenerate.
pub proof fn lemma_pake_agreement(a: PakeState, b: PakeState)
    requires
        a.well_formed(),
        b.well_formed(),
        a.alice(),
        !b.alice(),
        a.seeded_with() == b.seeded_with(),
    ensures
        ed25519_decodes(a.outbound()@),
        ed25519_decodes(b.outbound()@),
        a.secret(b.outbound()@) == b.secret(a.outbound()@),
{
    assert(spake_key(a.inner, spake_outbound(b.inner)) == spake_key(b.inner, spake_outbound(a.inner)));
    assert(a.raw_key(b.outbound()@) == b.raw_key(a.outbound()@));
    lemma_transcript_agrees(a.raw_key(b.outbound()@), a.outbound()@, b.outbound()@);
}

/// The bytes of an ASCII string literal known to the caller.
fn literal_bytes(s: &str) -> (b: Vec<u8>)
    requires
        vstd::utf8::is_ascii_chars(s@),
    ensures
        b@ == ascii_bytes(s@),
{
    ascii_str_bytes(s)
}

impl PakeState {
    /// Whether this party is the sender (SPAKE2's side A).
    pub closed spec fn alice(&self) -> bool {
        self.is_alice
    }

    /// The password the exchange was started with.
    pub closed spec fn seeded_with(&self) -> Seq<u8> {
        spake_password(self.inner)
    }

    /// The element this party sent.
    pub closed spec fn outbound(&self) -> [u8; 32] {
        self.outbound_msg
    }

    /// The identities the exchange was started with: the sender's, then the receiver's.
    pub closed spec fn ids(&self) -> (Seq<u8>, Seq<u8>) {
        spake_ids(self.inner)
    }

    /// The side byte of this party: `b'A'` for the sender, `b'B'` for the receiver.
    pub open spec fn side_byte(&self) -> u8 {
        if self.alice() {
            0x41u8
        } else {
            0x42u8
        }
    }

    /// The side byte of the peer.
    pub open spec fn peer_side_byte(&self) -> u8 {
        if self.alice() {
            0x42u8
        } else {
            0x41u8
        }
    }

    /// The inner session is of the side this party plays, was started with
    /// the sender's and the receiver's identities in that order, sent this
    /// party's element (a group element, so it decodes), and, on the
    /// receiver's side, agrees with every sender session of the same password
    /// and identities.
    pub closed spec fn well_formed(&self) -> bool {
        &&& spake_side(self.inner) == self.side_byte()
        &&& spake_ids(self.inner) == (sender_id(), receiver_id())
        &&& spake_outbound(self.inner) == seq![self.side_byte()] + self.outbound_msg@
        &&& ed25519_decodes(self.outbound_msg@)
        &&& !self.is_alice ==> forall|a: SpakeSession|
            #![trigger spake_key(a, spake_outbound(self.inner))]
            spake_side(a) == 0x41u8 && spake_password(a) == spake_password(self.inner) && spake_ids(a) == spake_ids(
                self.inner,
            ) ==> spake_key(a, spake_outbound(self.inner)) == spake_key(self.inner, spake_outbound(a))
    }

    /// The raw SPAKE2 key this party gets from the peer's element `peer`.
    pub closed spec fn raw_key(&self, peer: Seq<u8>) -> Seq<u8> {
        spake_key(self.inner, seq![self.peer_side_byte()] + peer)
    }

    /// The session secret this party derives from the peer's element `peer`:
    /// the BLAKE3 hash of the transcript over the raw key.
    pub open spec fn secret(&self, peer: Seq<u8>) -> Seq<u8> {
        blake3_hash_spec(pake_transcript(self.raw_key(peer), self.alice(), self.outbound()@, peer))
    }

    /// Starts the exchange with the password `password` followed by the
    /// channel name. Returns the state and the 32-byte element to send (the
    /// outbound message without its side byte).
    pub fn new(password: &str, channel: &str, is_alice: bool) -> (r: (Self, [u8; 32]))
        ensures
            r.0.outbound() == r.1,
            r.0.alice() == is_alice,
            r.0.seeded_with() == password.spec_bytes() + channel.spec_bytes(),
            r.0.ids() == (sender_id(), receiver_id()),
            r.0.well_formed(),
    {
        let mut combined: Vec<u8> = Vec::new();
        push_all(&mut combined, password.as_bytes());
        push_all(&mut combined, channel.as_bytes());
        proof {
            reveal_strlit("dropwire-sender");
            reveal_strlit("dropwire-receiver");
        }
        let id_a = literal_bytes("dropwire-sender");
        let id_b = literal_bytes("dropwire-receiver");
        let (inner, outbound) = if is_alice {
            spake2_start_a(combined.as_slice(), id_a.as_slice(), id_b.as_slice())
        } else {
            spake2_start_b(combined.as_slice(), id_a.as_slice(), id_b.as_slice())
        };
        let mut msg_arr = [0u8; 32];
        let mut i: usize = 0;
        while i < 32
            invariant
                i <= 32,
                outbound@.len() == 33,
                forall|j: int| 0 <= j < i ==> msg_arr@[j] == outbound@[j + 1],
            decreases 32 - i,
        {
            msg_arr[i] = outbound[i + 1];
            i = i + 1;
        }
        proof {
            assert(msg_arr@ =~= outbound@.subrange(1, 33));
            assert(outbound@ =~= seq![outbound@[0]] + msg_arr@);
        }
        (PakeState { inner, outbound_msg: msg_arr, is_alice }, msg_arr)
    }

    /// Completes the exchange with the peer's 32-byte element. Refuses a
    /// degenerate element, and fails when SPAKE2 does (the element is not a
    /// point); otherwise the secret is the BLAKE3 hash of the transcript over
    /// some 32-byte raw SPAKE2 key.
    pub fn finish(self, peer_msg: &[u8; 32]) -> (r: Result<SharedSecret, DropWireError>)
        requires
            self.well_formed(),
        ensures
            r is Ok <==> !degenerate(peer_msg@) && ed25519_decodes(peer_msg@),
            r matches Ok(k) ==> k.0@ == self.secret(peer_msg@),
            r matches Err(e) ==> e is Crypto,
            r matches Ok(k) ==> exists|raw: Seq<u8>|
                raw.len() == 32 && k.0@ == blake3_hash_spec(
                    #[trigger] pake_transcript(raw, self.alice(), self.outbound()@, peer_msg@),
                ),
    {
        let mut is_zeros = true;
        let mut is_identity = peer_msg[0] == 1;
        let mut i: usize = 0;
        while i < 32
            invariant
                i <= 32,
                is_zeros == (forall|j: int| 0 <= j < i ==> peer_msg@[j] == 0u8),
                is_identity == (peer_msg@[0] == 1u8 && forall|j: int| 1 <= j < i ==> peer_msg@[j] == 0u8),
            decreases 32 - i,
        {
            if peer_msg[i] != 0 {
                is_zeros = false;
                if i > 0 {
                    is_identity = false;
                }
            }
            i = i + 1;
        }
        proof {
            let one = seq![1u8] + Seq::new(31nat, |j: int| 0u8);
            if peer_msg@ == one {
                assert(peer_msg@[0] == 1u8);
                assert forall|j: int| 1 <= j < 32 implies peer_msg@[j] == 0u8 by {
                    assert(one[j] == 0u8);
                }
            }
            if is_identity {
                assert(peer_msg@ =~= one);
            }
        }
        if is_zeros || is_identity {
            return Err(crypto_error("Degenerate peer message"));
        }
        let mut full_peer_msg: Vec<u8> = Vec::new();
        if self.is_alice {
            full_peer_msg.push(0x42);
        } else {
            full_peer_msg.push(0x41);
        }
        push_all(&mut full_peer_msg, peer_msg.as_slice());
        assert(full_peer_msg@.subrange(1, 33) =~= peer_msg@);
        let raw_secret = match spake2_finish(self.inner, full_peer_msg.as_slice()) {
            Ok(k) => k,
            Err(_) => {
                return Err(crypto_error("SPAKE2 finish failed"));
            },
        };
        proof {
            reveal_strlit("dropwire-sender");
            reveal_strlit("dropwire-receiver");
        }
        let mut transcript: Vec<u8> = Vec::new();
        push_all(&mut transcript, raw_secret.as_slice());
        push_all(&mut transcript, literal_bytes("dropwire-sender").as_slice());
        push_all(&mut transcript, literal_bytes("dropwire-receiver").as_slice());
        if self.is_alice {
            push_all(&mut transcript, self.outbound_msg.as_slice());
            push_all(&mut transcript, peer_msg.as_slice());
        } else {
            push_all(&mut transcript, peer_msg.as_slice());
            push_all(&mut transcript, self.outbound_msg.as_slice());
        }
        proof {
            assert(transcript@ == pake_transcript(raw_secret@, self.alice(), self.outbound()@, peer_msg@));
            assert(full_peer_msg@ =~= seq![self.peer_side_byte()] + peer_msg@);
        }
        let key = blake3_hash(transcript.as_slice());
        Ok(SharedSecret(key))
    }
}

} // verus!
