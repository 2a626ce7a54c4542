//! Chat messages, their content-derived identifiers, and the
//! per-message decisions of the relay that shows them: duplicate
//! suppression, timestamp correction and channel gating.

use vstd::prelude::*;
use vstd::string::{StrSliceExecFns, StringSliceAdditionalSpecFns};

use crate::codec::{bytes_wire, encode_compact_len, encode_u64, u64_le};
use crate::digest::{blake3_digest, bytes32_eq, digest_of};

verus! {

/// 32-byte content identifier of a chat message.
#[derive(Clone, Copy, PartialEq, Eq, Debug)]
pub struct MessageId {
    pub bytes: [u8; 32],
}

impl View for MessageId {
    type V = Seq<u8>;

    open spec fn view(&self) -> Seq<u8> {
        self.bytes@
    }
}

/// A private message: where it goes, who said it, and what was said.
#[derive(Clone, PartialEq, Eq, Debug)]
pub struct Privmsg {
    pub channel: String,
    pub nick: String,
    pub msg: String,
}

/// A string on the wire: the compact length of its UTF-8 bytes, then
/// those bytes.
pub open spec fn str_wire(s: Seq<char>) -> Seq<u8> {
    bytes_wire(vstd::utf8::encode_utf8(s))
}

/// The bytes a message identifier is computed over: the timestamp,
/// then each field with its length prefix.
pub open spec fn msg_id_bytes(
    timest: u64,
    channel: Seq<char>,
    nick: Seq<char>,
    msg: Seq<char>,
) -> Seq<u8> {
    u64_le(timest) + str_wire(channel) + str_wire(nick) + str_wire(msg)
}

/// Appends a string with its length prefix to `out`.
fn encode_str(out: &mut Vec<u8>, s: &str)
    ensures
        final(out)@ == old(out)@ + str_wire(s@),
{
    let bs = s.as_bytes();
    encode_compact_len(out, bs.len() as u64);
    let ghost mid = out@;
    let mut i: usize = 0;
    while i < bs.len()
        invariant
            i <= bs@.len(),
            out@ == mid + bs@.subrange(0, i as int),
        decreases bs.len() - i,
    {
        out.push(bs[i]);
        i += 1;
        assert(out@ =~= mid + bs@.subrange(0, i as int));
    }
    assert(out@ =~= old(out)@ + str_wire(s@));
}

impl Privmsg {
    /// A new message with the given fields.
    pub fn new(channel: String, nick: String, msg: String) -> (r: Privmsg)
        ensures
            r.channel@ == channel@,
            r.nick@ == nick@,
            r.msg@ == msg@,
    {
        Privmsg { channel, nick, msg }
    }

    /// The message's identifier at a given timestamp: the digest of
    /// the timestamp and the three fields.
    pub fn msg_id(&self, timest: u64) -> (r: MessageId)
        ensures
            r@ == digest_of(msg_id_bytes(timest, self.channel@, self.nick@, self.msg@)),
    {
        let mut out: Vec<u8> = Vec::new();
        encode_u64(&mut out, timest);
        encode_str(&mut out, self.channel.as_str());
        encode_str(&mut out, self.nick.as_str());
        encode_str(&mut out, self.msg.as_str());
        assert(out@ =~= msg_id_bytes(timest, self.channel@, self.nick@, self.msg@));
        MessageId { bytes: blake3_digest(&out) }
    }
}

/// Due to drift between different machines' clocks, a message
/// timestamp this close to the current time is corrected to it, so
/// messages appear sequential in the UI.
pub const RECENT_TIME_DIST: u64 = 25_000;

/// The two instants lie within the correction window of each other.
pub open spec fn close_in_time(a: u64, b: u64) -> bool {
    (if a >= b {
        a - b
    } else {
        b - a
    }) < RECENT_TIME_DIST
}

/// The timestamp a relayed message is shown under: a recent one is
/// corrected to the current time, an old one is kept.
pub fn adjusted_timestamp(timest: u64, now: u64) -> (r: u64)
    ensures
        r == if close_in_time(timest, now) {
            now
        } else {
            timest
        },
{
    let dist = if timest >= now {
        timest - now
    } else {
        now - timest
    };
    if dist < RECENT_TIME_DIST {
        now
    } else {
        timest
    }
}

/// Some recorded identifier equals this one.
pub open spec fn seen_contains(s: Seq<MessageId>, id: Seq<u8>) -> bool {
    exists|i: int| 0 <= i < s.len() && (#[trigger] s[i])@ == id
}

/// Records a message identifier, reporting `false` for a duplicate,
/// which the relay skips; only a fresh identifier is appended.
pub fn mark_seen(seen: &mut Vec<MessageId>, id: &MessageId) -> (r: bool)
    ensures
        r == !seen_contains(old(seen)@, id@),
        r ==> final(seen)@ == old(seen)@.push(*id),
        !r ==> final(seen)@ == old(seen)@,
{
    let mut i: usize = 0;
    while i < seen.len()
        invariant
            i <= seen@.len(),
            forall|j: int| 0 <= j < i ==> (#[trigger] seen@[j])@ != id@,
        decreases seen.len() - i,
    {
        if bytes32_eq(&seen[i].bytes, &id.bytes) {
            return false;
        }
        i += 1;
    }
    seen.push(*id);
    true
}

/// Compares two strings by their characters.
pub fn str_chars_eq(a: &str, b: &str) -> (r: bool)
    ensures
        r == (a@ == b@),
{
    let n = a.unicode_len();
    if n != b.unicode_len() {
        return false;
    }
    let mut i: usize = 0;
    while i < n
        invariant
            i <= n,
            n == a@.len(),
            n == b@.len(),
            forall|j: int| 0 <= j < i ==> a@[j] == b@[j],
        decreases n - i,
    {
        if a.get_char(i) != b.get_char(i) {
            return false;
        }
        i += 1;
    }
    assert(a@ =~= b@);
    true
}

/// The channel an incoming message is relayed to: a public channel
/// has its leading `#` stripped; an absent channel, or one not
/// starting with `#` (an encrypted one), is skipped.
pub fn relay_channel(channel: &str) -> (r: Option<String>)
    ensures
        match r {
            Some(c) => channel@.len() > 0 && channel@[0] == '#' && c@ == channel@.skip(1),
            None => channel@.len() == 0 || channel@[0] != '#',
        },
{
    let n = channel.unicode_len();
    if n == 0 {
        return None;
    }
    if channel.get_char(0) != '#' {
        return None;
    }
    let tail = channel.substring_char(1, n);
    assert(tail@ =~= channel@.skip(1));
    Some(tail.to_owned())
}

/// The nick an incoming message is shown under: the name the chat
/// view reserves for notices is remapped, every other nick is kept.
pub fn relay_nick(nick: String) -> (r: String)
    ensures
        r@ == if nick@ == "NOTICE"@ {
            "noticer"@
        } else {
            nick@
        },
{
    if str_chars_eq(nick.as_str(), "NOTICE") {
        "noticer".to_owned()
    } else {
        nick
    }
}

} // verus!
