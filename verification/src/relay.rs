//! The relay's decisions: reading a stream handshake, pairing TCP streams of
//! opposite roles on a channel, and routing the signaling messages of a
//! channel's two peers. Sockets are the caller's; connections are named here by
//! numbers the caller hands out.
use vstd::prelude::*;
use vstd::utf8::{decode_utf8, encode_utf8, is_ascii_chars, valid_utf8};
use crate::error::{DropWireError, protocol_error};
use crate::net::parallel::{role_byte, stream_handshake_layout};
use crate::net::signaling::Role;
use crate::text::{ascii_bytes, chars_of, hex_lower, lemma_hex_lower, str_eq_chars, string_from_utf8};
use crate::types::ChannelId;

verus! {

/// The relay's bind addresses.
pub struct Cli {
    pub bind: String,
    pub ws_bind: String,
}

/// What a stream opens with: the auth token it proves, the channel it joins
/// and its role.
pub struct Handshake {
    pub auth: [u8; 16],
    pub channel: ChannelId,
    pub role: Role,
}

/// The role a handshake byte names: 1 for the sender, 2 for the receiver.
pub open spec fn role_of_byte(b: u8) -> Option<Role> {
    if b == 1 {
        Some(Role::Sender)
    } else if b == 2 {
        Some(Role::Receiver)
    } else {
        None
    }
}

/// Reads the auth token, channel name and role byte of a stream handshake. A
/// protocol error when the name is not UTF-8 ("Invalid channel UTF-8") or the
/// role byte is neither 1 nor 2 ("Invalid role").
pub fn parse_handshake(auth: [u8; 16], channel_bytes: Vec<u8>, role: u8) -> (r: Result<Handshake, DropWireError>)
    ensures
        r is Ok <==> valid_utf8(channel_bytes@) && role_of_byte(role) is Some,
        r matches Ok(h) ==> h.auth == auth && h.channel.0@ == decode_utf8(channel_bytes@) && Some(h.role)
            == role_of_byte(role),
        r matches Err(e) ==> e is Protocol,
{
    let channel_str = match string_from_utf8(channel_bytes) {
        Some(s) => s,
        None => {
            return Err(protocol_error("Invalid channel UTF-8"));
        },
    };
    let role = if role == 0x01 {
        Role::Sender
    } else if role == 0x02 {
        Role::Receiver
    } else {
        return Err(protocol_error("Invalid role"));
    };
    Ok(Handshake { auth, channel: ChannelId(channel_str), role })
}

/// The relay reads back what a peer's stream handshake says: the first 16
/// bytes are the peer's auth token, the channel is that token in lowercase hex
/// (its length byte right), and the role is the peer's.
pub proof fn lemma_handshake_roundtrip(auth_token: Seq<u8>, role: Role)
    requires
        auth_token.len() == 16,
    ensures
        ({
            let h = stream_handshake_layout(auth_token, role);
            let name = h.subrange(17, h.len() - 1);
            &&& h.subrange(0, 16) == auth_token
            &&& h[16] as int == name.len()
            &&& valid_utf8(name)
            &&& decode_utf8(name) == hex_lower(auth_token)
            &&& role_of_byte(h[h.len() - 1]) == Some(role)
        }),
{
    let hx = hex_lower(auth_token);
    lemma_hex_lower(auth_token);
    let h = stream_handshake_layout(auth_token, role);
    let name = h.subrange(17, h.len() - 1);
    assert(h.subrange(0, 16) =~= auth_token);
    assert(name =~= ascii_bytes(hx));
    vstd::utf8::is_ascii_chars_encode_utf8(hx);
    assert(encode_utf8(hx) =~= ascii_bytes(hx));
    vstd::utf8::encode_utf8_valid_utf8(hx);
    vstd::utf8::encode_utf8_decode_utf8(hx);
}

/// A stream waiting for a partner, with the auth token it presented.
pub struct Waiting {
    pub id: u64,
    pub auth: [u8; 16],
}

/// The streams of one channel waiting for a partner, by role.
pub struct ChannelQueues {
    pub senders: Vec<Waiting>,
    pub receivers: Vec<Waiting>,
}

/// The waiting streams of a channel, by role.
pub struct QueuesView {
    pub senders: Seq<Waiting>,
    pub receivers: Seq<Waiting>,
}

impl View for ChannelQueues {
    type V = QueuesView;

    open spec fn view(&self) -> QueuesView {
        QueuesView { senders: self.senders@, receivers: self.receivers@ }
    }
}

/// `dashmap::DashMap`, the concurrent map the relay keeps its channels in.
#[verifier::external_type_specification]
#[verifier::external_body]
#[verifier::reject_recursive_types(K)]
#[verifier::reject_recursive_types(V)]
#[verifier::reject_recursive_types(S)]
pub struct ExDashMap<K, V, S>(dashmap::DashMap<K, V, S>);

/// What the TCP relay's map holds: each channel name, by its characters, with
/// its waiting streams.
pub uninterp spec fn tcp_table(m: dashmap::DashMap<String, ChannelQueues>) -> Map<Seq<char>, QueuesView>;

/// `DashMap::new`: an empty map.
#[verifier::external_body]
fn tcp_table_new() -> (r: dashmap::DashMap<String, ChannelQueues>)
    ensures
        tcp_table(r) =~= Map::empty(),
{
    dashmap::DashMap::new()
}

/// `DashMap::remove`: takes a channel's entry out of the map, giving its value
/// when the channel was there (`String` keys are equal exactly when their
/// characters are).
#[verifier::external_body]
fn tcp_table_remove(m: &mut dashmap::DashMap<String, ChannelQueues>, k: &str) -> (r: Option<ChannelQueues>)
    ensures
        tcp_table(*final(m)) == tcp_table(*old(m)).remove(k@),
        r is Some <==> tcp_table(*old(m)).contains_key(k@),
        r matches Some(q) ==> q@ == tcp_table(*old(m))[k@],
{
    m.remove(k).map(|kv| kv.1)
}

/// `DashMap::insert`: sets a channel's value, replacing any earlier one.
#[verifier::external_body]
fn tcp_table_insert(m: &mut dashmap::DashMap<String, ChannelQueues>, k: String, v: ChannelQueues)
    ensures
        tcp_table(*final(m)) == tcp_table(*old(m)).insert(k@, v@),
{
    m.insert(k, v);
}

/// Every channel the TCP relay has seen, with its waiting streams.
pub struct TcpRegistry {
    pub channels: dashmap::DashMap<String, ChannelQueues>,
}

/// What happens to a stream that completed its handshake.
pub enum TcpOutcome {
    /// It waits for a partner.
    Queued,
    /// It is joined with the stream `peer`, which leaves its queue.
    Paired(u64),
    /// The stream `peer` of the other role waited there with a different auth
    /// token: it leaves its queue and both are closed.
    Refused(u64),
}

/// What meeting the waiting stream `peer` means for a stream with token `auth`.
pub open spec fn meet(peer: Waiting, auth: [u8; 16]) -> TcpOutcome {
    if peer.auth@ == auth@ {
        TcpOutcome::Paired(peer.id)
    } else {
        TcpOutcome::Refused(peer.id)
    }
}

/// Whether two auth tokens are the same.
fn same_token(a: &[u8; 16], b: &[u8; 16]) -> (r: bool)
    ensures
        r == (a@ == b@),
{
    let mut i: usize = 0;
    while i < 16
        invariant
            i <= 16,
            forall|j: int| 0 <= j < i ==> a@[j] == b@[j],
        decreases 16 - i,
    {
        if a[i] != b[i] {
            return false;
        }
        i = i + 1;
    }
    assert(a@ =~= b@);
    true
}

/// The queues of a channel not seen before.
pub open spec fn no_queues() -> QueuesView {
    QueuesView { senders: Seq::empty(), receivers: Seq::empty() }
}

/// A stream `id` of role `role` with token `auth` arriving at a channel with
/// queues `q`: it meets the most recent stream of the other role waiting there
/// (paired when their tokens are equal, both refused otherwise; that stream
/// leaves its queue), or joins the queue of its own role.
pub open spec fn arrive_step(q: QueuesView, id: u64, auth: [u8; 16], role: Role) -> (QueuesView, TcpOutcome) {
    if role == Role::Sender {
        if q.receivers.len() > 0 {
            (QueuesView { receivers: q.receivers.drop_last(), ..q }, meet(q.receivers.last(), auth))
        } else {
            (QueuesView { senders: q.senders.push(Waiting { id, auth }), ..q }, TcpOutcome::Queued)
        }
    } else {
        if q.senders.len() > 0 {
            (QueuesView { senders: q.senders.drop_last(), ..q }, meet(q.senders.last(), auth))
        } else {
            (QueuesView { receivers: q.receivers.push(Waiting { id, auth }), ..q }, TcpOutcome::Queued)
        }
    }
}

impl TcpRegistry {
    /// A registry that has seen nothing.
    pub fn new() -> (r: Self)
        ensures
            tcp_table(r.channels) == Map::<Seq<char>, QueuesView>::empty(),
    {
        TcpRegistry { channels: tcp_table_new() }
    }

    /// The outcome of meeting the waiting stream `peer`.
    fn meet_with(peer: Waiting, auth: &[u8; 16]) -> (out: TcpOutcome)
        ensures
            out == meet(peer, *auth),
    {
        if same_token(&peer.auth, auth) {
            TcpOutcome::Paired(peer.id)
        } else {
            TcpOutcome::Refused(peer.id)
        }
    }

    /// A stream of role `role` with auth token `auth` arrives on `channel`: it
    /// meets the most recent stream of the other role waiting there (paired
    /// when their tokens are equal, both refused otherwise), or waits itself.
    /// A channel seen for the first time is listed with the stream waiting.
    pub fn arrive(&mut self, id: u64, auth: [u8; 16], channel: &str, role: Role) -> (out: TcpOutcome)
        ensures
            ({
                let before = tcp_table(old(self).channels);
                let q = if before.contains_key(channel@) { before[channel@] } else { no_queues() };
                let step = arrive_step(q, id, auth, role);
                &&& tcp_table(final(self).channels) == before.insert(channel@, step.0)
                &&& out == step.1
            }),
    {
        let ghost before = tcp_table(self.channels);
        let mut q = match tcp_table_remove(&mut self.channels, channel) {
            Some(q) => q,
            None => ChannelQueues { senders: Vec::new(), receivers: Vec::new() },
        };
        proof {
            assert(q@.senders == (if before.contains_key(channel@) { before[channel@] } else { no_queues() }).senders);
        }
        let out = if role == Role::Sender {
            match q.receivers.pop() {
                Some(peer) => Self::meet_with(peer, &auth),
                None => {
                    q.senders.push(Waiting { id, auth });
                    TcpOutcome::Queued
                },
            }
        } else {
            match q.senders.pop() {
                Some(peer) => Self::meet_with(peer, &auth),
                None => {
                    q.receivers.push(Waiting { id, auth });
                    TcpOutcome::Queued
                },
            }
        };
        let ghost mid = tcp_table(self.channels);
        tcp_table_insert(&mut self.channels, channel.to_string(), q);
        proof {
            assert(mid.insert(channel@, q@) =~= before.insert(channel@, q@));
        }
        out
    }
}

} // verus!

verus! {

/// A signaling message as the relay reads it.
pub enum WsMsg {
    Register { role: String, channel: String },
    Registered,
    PakeStep1 { scalar_mul: String },
    PakeStep2 { scalar_mul: String },
    AuthProof { token: String },
    AuthOk,
    AuthFail,
    PeerReady,
    Error { code: String, message: String },
}

/// One channel's signaling state: the connections of its two peers, the
/// tokens they proved with, and the PAKE message each has sent (as received,
/// so that a peer that registers late is sent it).
pub struct WsSlot {
    pub sender: Option<u64>,
    pub receiver: Option<u64>,
    pub sender_token: Option<String>,
    pub receiver_token: Option<String>,
    pub sender_pake: Option<String>,
    pub receiver_pake: Option<String>,
}

/// A slot with its strings taken by their characters.
pub struct WsSlotView {
    pub sender: Option<u64>,
    pub receiver: Option<u64>,
    pub sender_token: Option<Seq<char>>,
    pub receiver_token: Option<Seq<char>>,
    pub sender_pake: Option<Seq<char>>,
    pub receiver_pake: Option<Seq<char>>,
}

/// The characters of an optional string.
pub open spec fn opt_chars(o: Option<String>) -> Option<Seq<char>> {
    match o {
        Some(s) => Some(s@),
        None => None,
    }
}

impl View for WsSlot {
    type V = WsSlotView;

    open spec fn view(&self) -> WsSlotView {
        WsSlotView {
            sender: self.sender,
            receiver: self.receiver,
            sender_token: opt_chars(self.sender_token),
            receiver_token: opt_chars(self.receiver_token),
            sender_pake: opt_chars(self.sender_pake),
            receiver_pake: opt_chars(self.receiver_pake),
        }
    }
}

/// The slot a channel starts with.
pub open spec fn empty_slot() -> WsSlotView {
    WsSlotView {
        sender: None,
        receiver: None,
        sender_token: None,
        receiver_token: None,
        sender_pake: None,
        receiver_pake: None,
    }
}

/// What the signaling relay's map holds: each channel name, by its
/// characters, with its slot.
pub uninterp spec fn ws_table(m: dashmap::DashMap<String, WsSlot>) -> Map<Seq<char>, WsSlotView>;

/// `DashMap::new`: an empty map.
#[verifier::external_body]
fn ws_table_new() -> (r: dashmap::DashMap<String, WsSlot>)
    ensures
        ws_table(r) =~= Map::empty(),
{
    dashmap::DashMap::new()
}

/// `DashMap::remove`: takes a channel's entry out of the map, giving its slot
/// when the channel was there (`String` keys are equal exactly when their
/// characters are).
#[verifier::external_body]
fn ws_table_remove(m: &mut dashmap::DashMap<String, WsSlot>, k: &str) -> (r: Option<WsSlot>)
    ensures
        ws_table(*final(m)) == ws_table(*old(m)).remove(k@),
        r is Some <==> ws_table(*old(m)).contains_key(k@),
        r matches Some(s) ==> s@ == ws_table(*old(m))[k@],
{
    m.remove(k).map(|kv| kv.1)
}

/// `DashMap::insert`: sets a channel's slot, replacing any earlier one.
#[verifier::external_body]
fn ws_table_insert(m: &mut dashmap::DashMap<String, WsSlot>, k: String, v: WsSlot)
    ensures
        ws_table(*final(m)) == ws_table(*old(m)).insert(k@, v@),
{
    m.insert(k, v);
}

/// The channels with signaling under way.
pub struct WsRegistry {
    pub entries: dashmap::DashMap<String, WsSlot>,
}

/// What a connection said of itself when it registered; empty before.
pub struct WsConn {
    pub id: u64,
    pub role: String,
    pub channel: String,
}

/// What the relay sends.
pub enum WsOut {
    Registered,
    /// A message passed on as it was received.
    Text(String),
    PeerReady,
    AuthFail,
}

/// A message for the connection `to`.
pub struct Delivery {
    pub to: u64,
    pub out: WsOut,
}

/// The role name of the sending side.
pub open spec fn sender_word() -> Seq<char> {
    seq!['s', 'e', 'n', 'd', 'e', 'r']
}

/// Whether `d` sends the text `t` to `to`.
pub open spec fn sends_text(d: Delivery, to: u64, t: Seq<char>) -> bool {
    &&& d.to == to
    &&& d.out matches WsOut::Text(s) && s@ == t
}

fn sender_chars() -> (v: Vec<char>)
    ensures
        v@ == sender_word(),
{
    let mut v: Vec<char> = Vec::new();
    v.push('s');
    v.push('e');
    v.push('n');
    v.push('d');
    v.push('e');
    v.push('r');
    assert(v@ =~= sender_word());
    v
}

fn clone_opt(o: &Option<String>) -> (r: Option<String>)
    ensures
        opt_chars(r) == opt_chars(*o),
{
    match o {
        Some(s) => Some(s.clone()),
        None => None,
    }
}

impl WsRegistry {
    /// A registry with no channel.
    pub fn new() -> (r: Self)
        ensures
            ws_table(r.entries) == Map::<Seq<char>, WsSlotView>::empty(),
    {
        WsRegistry { entries: ws_table_new() }
    }
}

/// The slot after connection `id` registers on it under the given side.
pub open spec fn registered_slot(base: WsSlotView, as_sender: bool, id: u64) -> WsSlotView {
    if as_sender {
        WsSlotView { sender: Some(id), ..base }
    } else {
        WsSlotView { receiver: Some(id), ..base }
    }
}

/// A `Register` of connection `id` with `role` on `channel`: the channel's slot
/// (a fresh one where the channel is new) records the connection on the side
/// the role names (`sender`, or else the receiver's); the connection is told
/// it is registered and then sent the PAKE message the other side left, if any.
pub open spec fn register_done(
    before: Map<Seq<char>, WsSlotView>,
    after: Map<Seq<char>, WsSlotView>,
    id: u64,
    role: Seq<char>,
    channel: Seq<char>,
    out: Seq<Delivery>,
) -> bool {
    let as_sender = role == sender_word();
    let base = if before.contains_key(channel) { before[channel] } else { empty_slot() };
    let slot = registered_slot(base, as_sender, id);
    let catch_up = if as_sender { base.receiver_pake } else { base.sender_pake };
    &&& after == before.insert(channel, slot)
    &&& out.len() == (if catch_up is Some { 2int } else { 1int })
    &&& out[0].to == id
    &&& out[0].out is Registered
    &&& catch_up matches Some(t) ==> sends_text(out[1], id, t)
}

/// A PAKE message `raw` (the sender's step when `step1`, else the receiver's)
/// on the connection's channel: it is kept in the slot and passed on to the
/// other side if that side is connected. Nothing happens on an unknown channel.
pub open spec fn pake_done(
    before: Map<Seq<char>, WsSlotView>,
    after: Map<Seq<char>, WsSlotView>,
    channel: Seq<char>,
    step1: bool,
    raw: Seq<char>,
    out: Seq<Delivery>,
) -> bool {
    if !before.contains_key(channel) {
        after == before && out.len() == 0
    } else {
        let s = before[channel];
        let kept = if step1 {
            WsSlotView { sender_pake: Some(raw), ..s }
        } else {
            WsSlotView { receiver_pake: Some(raw), ..s }
        };
        let peer = if step1 { s.receiver } else { s.sender };
        &&& after == before.insert(channel, kept)
        &&& match peer {
            Some(p) => out.len() == 1 && sends_text(out[0], p, raw),
            None => out.len() == 0,
        }
    }
}

/// The connected sides of a slot, the sender's first.
pub open spec fn slot_peers(s: WsSlotView) -> Seq<u64> {
    (match s.sender {
        Some(c) => seq![c],
        None => Seq::<u64>::empty(),
    }) + (match s.receiver {
        Some(c) => seq![c],
        None => Seq::<u64>::empty(),
    })
}

/// Whether `d` tells `to` that the peers are ready (`ready`) or that their
/// proofs differ.
pub open spec fn sends_verdict(d: Delivery, to: u64, ready: bool) -> bool {
    &&& d.to == to
    &&& if ready { d.out is PeerReady } else { d.out is AuthFail }
}

/// An `AuthProof` with `token` from a connection registered as `role` on
/// `channel`: the token is kept on that side. Once both sides have proved, the
/// channel leaves the registry and each connected side is told `PeerReady`
/// when the two tokens agree, `AuthFail` when they differ. Nothing happens on
/// an unknown channel.
pub open spec fn auth_done(
    before: Map<Seq<char>, WsSlotView>,
    after: Map<Seq<char>, WsSlotView>,
    role: Seq<char>,
    channel: Seq<char>,
    token: Seq<char>,
    out: Seq<Delivery>,
) -> bool {
    if !before.contains_key(channel) {
        after == before && out.len() == 0
    } else {
        let s = before[channel];
        let kept = if role == sender_word() {
            WsSlotView { sender_token: Some(token), ..s }
        } else {
            WsSlotView { receiver_token: Some(token), ..s }
        };
        if kept.sender_token is Some && kept.receiver_token is Some {
            let ready = kept.sender_token == kept.receiver_token;
            let peers = slot_peers(s);
            &&& after == before.remove(channel)
            &&& out.len() == peers.len()
            &&& forall|k: int| 0 <= k < peers.len() ==> sends_verdict(#[trigger] out[k], peers[k], ready)
        } else {
            &&& after == before.insert(channel, kept)
            &&& out.len() == 0
        }
    }
}

/// Catch-up, in either order: when one side has sent its PAKE message on a
/// channel before the other side registered there, the side that registers
/// next is answered `Registered` and then that very message; the sender gets
/// the receiver's, the receiver the sender's.
pub proof fn lemma_late_peer_gets_pake(
    m0: Map<Seq<char>, WsSlotView>,
    m1: Map<Seq<char>, WsSlotView>,
    m2: Map<Seq<char>, WsSlotView>,
    channel: Seq<char>,
    sent_by_sender: bool,
    raw: Seq<char>,
    out1: Seq<Delivery>,
    id: u64,
    out2: Seq<Delivery>,
)
    requires
        m0.contains_key(channel),
        pake_done(m0, m1, channel, sent_by_sender, raw, out1),
        register_done(
            m1,
            m2,
            id,
            if sent_by_sender { "receiver"@ } else { sender_word() },
            channel,
            out2,
        ),
    ensures
        out2.len() == 2,
        out2[0].to == id && out2[0].out is Registered,
        out2[1].to == id,
        out2[1].out matches WsOut::Text(t) && t@ == raw,
{
    reveal_strlit("receiver");
    assert("receiver"@ != sender_word()) by {
        assert("receiver"@[0] == 'r');
    }
    assert(m1.contains_key(channel));
}

impl WsRegistry {
    /// Handles `msg`, received as the text `raw` on the connection `conn`, and
    /// gives what the relay sends in answer, in order.
    pub fn on_message(&mut self, conn: &mut WsConn, msg: WsMsg, raw: &String) -> (out: Vec<Delivery>)
        ensures
            match msg {
                WsMsg::Register { role, channel } => {
                    &&& register_done(ws_table(old(self).entries), ws_table(final(self).entries), old(conn).id, role@, channel@, out@)
                    &&& final(conn).id == old(conn).id
                    &&& final(conn).role@ == role@
                    &&& final(conn).channel@ == channel@
                },
                WsMsg::PakeStep1 { .. } => {
                    &&& pake_done(ws_table(old(self).entries), ws_table(final(self).entries), old(conn).channel@, true, raw@, out@)
                    &&& *final(conn) == *old(conn)
                },
                WsMsg::PakeStep2 { .. } => {
                    &&& pake_done(ws_table(old(self).entries), ws_table(final(self).entries), old(conn).channel@, false, raw@, out@)
                    &&& *final(conn) == *old(conn)
                },
                WsMsg::AuthProof { token } => {
                    &&& auth_done(ws_table(old(self).entries), ws_table(final(self).entries), old(conn).role@, old(conn).channel@, token@, out@)
                    &&& *final(conn) == *old(conn)
                },
                _ => {
                    &&& ws_table(final(self).entries) == ws_table(old(self).entries)
                    &&& out@.len() == 0
                    &&& *final(conn) == *old(conn)
                },
            },
    {
        match msg {
            WsMsg::Register { role, channel } => {
                let out = self.register(conn.id, &role, &channel);
                conn.role = role;
                conn.channel = channel;
                out
            },
            WsMsg::PakeStep1 { .. } => self.pake(&conn.channel, true, raw),
            WsMsg::PakeStep2 { .. } => self.pake(&conn.channel, false, raw),
            WsMsg::AuthProof { token } => self.auth(&conn.role, &conn.channel, &token),
            _ => Vec::new(),
        }
    }

    fn register(&mut self, id: u64, role: &String, channel: &String) -> (out: Vec<Delivery>)
        ensures
            register_done(ws_table(old(self).entries), ws_table(final(self).entries), id, role@, channel@, out@),
    {
        let ghost before = ws_table(self.entries);
        let sw = sender_chars();
        let as_sender = str_eq_chars(role.as_str(), &sw);
        let mut slot = match ws_table_remove(&mut self.entries, channel.as_str()) {
            Some(s) => s,
            None => WsSlot {
                sender: None,
                receiver: None,
                sender_token: None,
                receiver_token: None,
                sender_pake: None,
                receiver_pake: None,
            },
        };
        let ghost base = slot@;
        assert(base == (if before.contains_key(channel@) { before[channel@] } else { empty_slot() }));
        let catch_up = if as_sender {
            slot.sender = Some(id);
            clone_opt(&slot.receiver_pake)
        } else {
            slot.receiver = Some(id);
            clone_opt(&slot.sender_pake)
        };
        assert(slot@ == registered_slot(base, as_sender, id));
        let ghost mid = ws_table(self.entries);
        ws_table_insert(&mut self.entries, channel.clone(), slot);
        assert(mid.insert(channel@, registered_slot(base, as_sender, id)) =~= before.insert(
            channel@,
            registered_slot(base, as_sender, id),
        ));
        let mut out: Vec<Delivery> = Vec::new();
        out.push(Delivery { to: id, out: WsOut::Registered });
        match catch_up {
            Some(t) => {
                out.push(Delivery { to: id, out: WsOut::Text(t) });
            },
            None => {},
        }
        out
    }

    fn pake(&mut self, channel: &String, step1: bool, raw: &String) -> (out: Vec<Delivery>)
        ensures
            pake_done(ws_table(old(self).entries), ws_table(final(self).entries), channel@, step1, raw@, out@),
    {
        let ghost before = ws_table(self.entries);
        let mut out: Vec<Delivery> = Vec::new();
        match ws_table_remove(&mut self.entries, channel.as_str()) {
            None => {
                assert(before.remove(channel@) =~= before);
                out
            },
            Some(mut slot) => {
                let ghost mid = ws_table(self.entries);
                let peer = if step1 {
                    slot.sender_pake = Some(raw.clone());
                    slot.receiver
                } else {
                    slot.receiver_pake = Some(raw.clone());
                    slot.sender
                };
                let ghost kept = slot@;
                ws_table_insert(&mut self.entries, channel.clone(), slot);
                assert(mid.insert(channel@, kept) =~= before.insert(channel@, kept));
                match peer {
                    Some(p) => {
                        out.push(Delivery { to: p, out: WsOut::Text(raw.clone()) });
                    },
                    None => {},
                }
                out
            },
        }
    }

    fn auth(&mut self, role: &String, channel: &String, token: &String) -> (out: Vec<Delivery>)
        ensures
            auth_done(ws_table(old(self).entries), ws_table(final(self).entries), role@, channel@, token@, out@),
    {
        let ghost before = ws_table(self.entries);
        let mut out: Vec<Delivery> = Vec::new();
        let sw = sender_chars();
        let as_sender = str_eq_chars(role.as_str(), &sw);
        match ws_table_remove(&mut self.entries, channel.as_str()) {
            None => {
                assert(before.remove(channel@) =~= before);
                out
            },
            Some(mut slot) => {
                let ghost s = slot@;
                let ghost mid = ws_table(self.entries);
                if as_sender {
                    slot.sender_token = Some(token.clone());
                } else {
                    slot.receiver_token = Some(token.clone());
                }
                let verdict: Option<bool> = match (&slot.sender_token, &slot.receiver_token) {
                    (Some(a), Some(b)) => Some(*a == *b),
                    _ => None,
                };
                match verdict {
                    Some(ready) => {
                        match slot.sender {
                            Some(c) => {
                                out.push(Delivery { to: c, out: if ready { WsOut::PeerReady } else { WsOut::AuthFail } });
                            },
                            None => {},
                        }
                        match slot.receiver {
                            Some(c) => {
                                out.push(Delivery { to: c, out: if ready { WsOut::PeerReady } else { WsOut::AuthFail } });
                            },
                            None => {},
                        }
                        proof {
                            let peers = slot_peers(s);
                            assert(out@.len() == peers.len());
                            assert forall|k: int| 0 <= k < peers.len() implies sends_verdict(#[trigger] out@[k], peers[k], ready) by {
                            }
                        }
                        out
                    },
                    None => {
                        let ghost kept = slot@;
                        ws_table_insert(&mut self.entries, channel.clone(), slot);
                        assert(mid.insert(channel@, kept) =~= before.insert(channel@, kept));
                        out
                    },
                }
            },
        }
    }
}

} // verus!
