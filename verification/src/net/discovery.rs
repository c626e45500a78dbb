//! LAN discovery: the announcement a sender multicasts and how a receiver
//! reads one. The socket work is the caller's.
use vstd::prelude::*;
use vstd::utf8::{decode_utf8, valid_utf8};
use crate::text::{
    after_last, chars_of, decimal, decimal_chars, is_white, last_piece, lemma_after_last_append,
    lemma_decimal, lemma_decimal_parses, parse_u16_chars, parse_u16_spec, starts_with_chars,
    string_from_chars, string_from_utf8_lossy, trim_chars, trim_end_spec, trim_spec,
    trim_start_spec, utf8_lossy,
};
use crate::types::ChannelId;

verus! {

/// Announces a channel on the LAN and listens for such announcements.
pub struct DiscoveryService;

/// How every announcement begins.
pub open spec fn discover_head() -> Seq<char> {
    "DROPWIRE/1.0 DISCOVER "@
}

/// What stands between the channel and the port.
pub open spec fn port_tag() -> Seq<char> {
    " PORT "@
}

/// The start of an announcement of channel `ch`, up to the port.
pub open spec fn announce_prefix(ch: Seq<char>) -> Seq<char> {
    discover_head() + ch + port_tag()
}

/// The announcement of channel `ch` reachable at `port`:
/// `DROPWIRE/1.0 DISCOVER <channel> PORT <port>` and a newline.
pub open spec fn announcement(ch: Seq<char>, port: u16) -> Seq<char> {
    announce_prefix(ch) + decimal(port as nat) + seq!['\n']
}

/// The port a received text announces for channel `ch`: when the text begins
/// with the channel's prefix, the last space-separated word of the trimmed
/// text read as a `u16`; `None` otherwise or when that word is no port.
pub open spec fn announced_port(text: Seq<char>, ch: Seq<char>) -> Option<u16> {
    if announce_prefix(ch).is_prefix_of(text) {
        parse_u16_spec(after_last(trim_spec(text), ' '))
    } else {
        None
    }
}

impl DiscoveryService {
    /// The prefix that announcements of `channel` begin with.
    pub fn expected_prefix(channel: &ChannelId) -> (v: Vec<char>)
        ensures
            v@ == announce_prefix(channel.0@),
    {
        let mut v = chars_of("DROPWIRE/1.0 DISCOVER ");
        let c = chars_of(channel.0.as_str());
        let t = chars_of(" PORT ");
        let mut i: usize = 0;
        let ghost v0 = v@;
        while i < c.len()
            invariant
                i <= c@.len(),
                v@ == v0 + c@.take(i as int),
            decreases c@.len() - i,
        {
            v.push(c[i]);
            proof {
                assert(c@.take(i + 1) =~= c@.take(i as int).push(c@[i as int]));
                assert(v@ =~= v0 + c@.take(i + 1));
            }
            i = i + 1;
        }
        assert(c@.take(c@.len() as int) =~= c@);
        let ghost v1 = v@;
        let mut k: usize = 0;
        while k < t.len()
            invariant
                k <= t@.len(),
                v@ == v1 + t@.take(k as int),
            decreases t@.len() - k,
        {
            v.push(t[k]);
            proof {
                assert(t@.take(k + 1) =~= t@.take(k as int).push(t@[k as int]));
                assert(v@ =~= v1 + t@.take(k + 1));
            }
            k = k + 1;
        }
        assert(t@.take(t@.len() as int) =~= t@);
        v
    }

    /// The announcement of `channel` reachable at `port`.
    pub fn announcement_text(channel: &ChannelId, port: u16) -> (s: String)
        ensures
            s@ == announcement(channel.0@, port),
    {
        let mut v = Self::expected_prefix(channel);
        let d = decimal_chars(port as u64);
        let ghost v0 = v@;
        let mut i: usize = 0;
        while i < d.len()
            invariant
                i <= d@.len(),
                v@ == v0 + d@.take(i as int),
            decreases d@.len() - i,
        {
            v.push(d[i]);
            proof {
                assert(d@.take(i + 1) =~= d@.take(i as int).push(d@[i as int]));
                assert(v@ =~= v0 + d@.take(i + 1));
            }
            i = i + 1;
        }
        assert(d@.take(d@.len() as int) =~= d@);
        v.push('\n');
        string_from_chars(v.as_slice())
    }

    /// The port that `text` announces for `channel`, if it is such an
    /// announcement.
    pub fn parse_announcement(text: &str, channel: &ChannelId) -> (r: Option<u16>)
        ensures
            r == announced_port(text@, channel.0@),
    {
        let s = chars_of(text);
        let p = Self::expected_prefix(channel);
        if !starts_with_chars(&s, &p) {
            return None;
        }
        let t = trim_chars(&s);
        let word = last_piece(&t, ' ');
        parse_u16_chars(&word)
    }

    /// The port that a received datagram announces for `channel`; the bytes
    /// are read as UTF-8 with invalid sequences replaced.
    pub fn read_datagram(datagram: &[u8], channel: &ChannelId) -> (r: Option<u16>)
        ensures
            r == announced_port(utf8_lossy(datagram@), channel.0@),
            valid_utf8(datagram@) ==> r == announced_port(decode_utf8(datagram@), channel.0@),
    {
        let text = string_from_utf8_lossy(datagram);
        Self::parse_announcement(text.as_str(), channel)
    }
}

/// Trailing white space is all that trimming the end takes.
proof fn lemma_trim_end_newline(a: Seq<char>)
    requires
        a.len() > 0,
        !is_white(a.last()),
    ensures
        trim_end_spec(a.push('\n')) == a,
{
    assert(a.push('\n').drop_last() =~= a);
    assert(a.push('\n').last() == '\n');
    assert(is_white('\n'));
    assert(trim_end_spec(a) == a);
}

/// A receiver reads back the port of the channel's own announcement.
pub proof fn lemma_announcement_read(ch: Seq<char>, port: u16)
    ensures
        announced_port(announcement(ch, port), ch) == Some(port),
{
    reveal_strlit("DROPWIRE/1.0 DISCOVER ");
    reveal_strlit(" PORT ");
    let pre = announce_prefix(ch);
    let d = decimal(port as nat);
    let msg = announcement(ch, port);
    lemma_decimal(port as nat);
    lemma_decimal_parses(port);
    assert(msg.subrange(0, pre.len() as int) =~= pre);
    let body = pre + d;
    assert(msg =~= body.push('\n'));
    assert(body.last() == d.last());
    assert(d[d.len() - 1] == d.last());
    assert(!is_white(body.last()));
    lemma_trim_end_newline(body);
    assert(body[0] == 'D');
    assert(trim_start_spec(body) == body);
    assert(trim_spec(msg) == body);
    lemma_after_last_append(pre, d, ' ');
    assert(pre.last() == ' ');
    assert(pre =~= pre.drop_last().push(' '));
    assert(after_last(pre, ' ') =~= Seq::<char>::empty());
    assert(after_last(body, ' ') =~= d);
}

} // verus!
