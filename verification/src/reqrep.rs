//! The request/reply wire format of the gateway service: a command
//! with a fresh identifier and a payload, answered by a reply carrying
//! the same identifier and an error code.

use vstd::prelude::*;

use crate::codec::{
    bytes_wire, encode_bytes, encode_u32, le_u32_at, lemma_le_u32_at, lemma_parse_compact_len_at,
    parse_compact_len, read_compact_len, read_rest, read_u32_le, u32_le,
};

verus! {

/// A command sent to the service.
#[derive(Clone, PartialEq, Eq, Debug)]
pub struct Request {
    pub command: u8,
    pub id: u32,
    pub payload: Vec<u8>,
}

/// The service's answer to one request.
#[derive(Clone, PartialEq, Eq, Debug)]
pub struct Reply {
    pub id: u32,
    pub error: u32,
    pub payload: Vec<u8>,
}

/// A request on the wire: command, id, then the payload with its
/// length prefix.
pub open spec fn request_bytes(command: u8, id: u32, payload: Seq<u8>) -> Seq<u8> {
    seq![command] + u32_le(id) + bytes_wire(payload)
}

/// A reply on the wire: id, error, then the payload with its length
/// prefix.
pub open spec fn reply_bytes(id: u32, error: u32, payload: Seq<u8>) -> Seq<u8> {
    u32_le(id) + u32_le(error) + bytes_wire(payload)
}

/// What a whole byte string parses to as a request, if anything: the
/// payload's length prefix must account for exactly the rest.
pub open spec fn parse_request(b: Seq<u8>) -> Option<(u8, u32, Seq<u8>)> {
    if b.len() < 5 {
        None
    } else {
        match parse_compact_len(b, 5) {
            Some(p) => {
                if b.len() - p.1 == p.0 {
                    Some((b[0], le_u32_at(b, 1), b.skip(p.1)))
                } else {
                    None
                }
            },
            None => None,
        }
    }
}

/// What a whole byte string parses to as a reply, if anything.
pub open spec fn parse_reply(b: Seq<u8>) -> Option<(u32, u32, Seq<u8>)> {
    if b.len() < 8 {
        None
    } else {
        match parse_compact_len(b, 8) {
            Some(p) => {
                if b.len() - p.1 == p.0 {
                    Some((le_u32_at(b, 0), le_u32_at(b, 4), b.skip(p.1)))
                } else {
                    None
                }
            },
            None => None,
        }
    }
}

impl Request {
    /// A new request with a freshly drawn identifier.
    pub fn new(command: u8, payload: Vec<u8>) -> (r: Request)
        ensures
            r.command == command,
            r.payload@ == payload@,
    {
        let id = Self::gen_id();
        Request { command, id, payload }
    }

    fn gen_id() -> u32 {
        crate::rng::gen_u32()
    }

    /// The request's identifier.
    pub fn get_id(&self) -> (r: u32)
        ensures
            r == self.id,
    {
        self.id
    }

    /// The request's command byte.
    pub fn get_command(&self) -> (r: u8)
        ensures
            r == self.command,
    {
        self.command
    }

    /// A copy of the request's payload.
    pub fn get_payload(&self) -> (r: Vec<u8>)
        ensures
            r@ == self.payload@,
    {
        let r = self.payload.clone();
        assert(r@ =~= self.payload@);
        r
    }

    /// Serializes the request.
    pub fn encode(&self) -> (r: Vec<u8>)
        ensures
            r@ == request_bytes(self.command, self.id, self.payload@),
    {
        let mut out: Vec<u8> = Vec::new();
        out.push(self.command);
        encode_u32(&mut out, self.id);
        encode_bytes(&mut out, &self.payload);
        assert(out@ =~= request_bytes(self.command, self.id, self.payload@));
        out
    }

    /// Deserializes a whole byte string as a request.
    pub fn decode(b: &Vec<u8>) -> (r: Option<Request>)
        ensures
            match r {
                Some(q) => parse_request(b@) == Some((q.command, q.id, q.payload@)),
                None => parse_request(b@) is None,
            },
    {
        if b.len() < 5 {
            return None;
        }
        let command = b[0];
        let id = match read_u32_le(b, 1) {
            Some(p) => p.0,
            None => {
                return None;
            },
        };
        let (n, pos) = match read_compact_len(b, 5) {
            Some(p) => p,
            None => {
                return None;
            },
        };
        if (b.len() - pos) as u64 != n {
            return None;
        }
        let payload = read_rest(b, pos);
        Some(Request { command, id, payload })
    }
}

impl Reply {
    /// The reply to a request, carrying its identifier.
    pub fn from(request: &Request, error: u32, payload: Vec<u8>) -> (r: Reply)
        ensures
            r.id == request.id,
            r.error == error,
            r.payload@ == payload@,
    {
        Reply { id: request.get_id(), error, payload }
    }

    /// Whether the reply reports a failure.
    pub fn has_error(&self) -> (r: bool)
        ensures
            r == (self.error != 0),
    {
        self.error != 0
    }

    /// A copy of the reply's payload.
    pub fn get_payload(&self) -> (r: Vec<u8>)
        ensures
            r@ == self.payload@,
    {
        let r = self.payload.clone();
        assert(r@ =~= self.payload@);
        r
    }

    /// The identifier of the request this reply answers.
    pub fn get_id(&self) -> (r: u32)
        ensures
            r == self.id,
    {
        self.id
    }

    /// Serializes the reply.
    pub fn encode(&self) -> (r: Vec<u8>)
        ensures
            r@ == reply_bytes(self.id, self.error, self.payload@),
    {
        let mut out: Vec<u8> = Vec::new();
        encode_u32(&mut out, self.id);
        encode_u32(&mut out, self.error);
        encode_bytes(&mut out, &self.payload);
        assert(out@ =~= reply_bytes(self.id, self.error, self.payload@));
        out
    }

    /// Deserializes a whole byte string as a reply.
    pub fn decode(b: &Vec<u8>) -> (r: Option<Reply>)
        ensures
            match r {
                Some(q) => parse_reply(b@) == Some((q.id, q.error, q.payload@)),
                None => parse_reply(b@) is None,
            },
    {
        if b.len() < 8 {
            return None;
        }
        let id = match read_u32_le(b, 0) {
            Some(p) => p.0,
            None => {
                return None;
            },
        };
        let error = match read_u32_le(b, 4) {
            Some(p) => p.0,
            None => {
                return None;
            },
        };
        let (n, pos) = match read_compact_len(b, 8) {
            Some(p) => p,
            None => {
                return None;
            },
        };
        if (b.len() - pos) as u64 != n {
            return None;
        }
        let payload = read_rest(b, pos);
        Some(Reply { id, error, payload })
    }
}

/// What a received reply yields for the request it answers: the
/// payload, unless the reply reports an error.  The transport pairs
/// replies to requests, so a reply carrying a different identifier
/// must not be handed in.
pub fn reply_payload(request: &Request, reply: &Reply) -> (r: Option<Vec<u8>>)
    requires
        reply.id == request.id,
    ensures
        match r {
            Some(p) => reply.error == 0 && p@ == reply.payload@,
            None => reply.error != 0,
        },
{
    if reply.has_error() {
        return None;
    }
    Some(reply.get_payload())
}

/// A request's encoding parses back to exactly its fields.
pub proof fn lemma_request_round_trip(command: u8, id: u32, payload: Seq<u8>)
    requires
        payload.len() <= 0xffff_ffff_ffff_ffff,
    ensures
        parse_request(request_bytes(command, id, payload)) == Some((command, id, payload)),
{
    let n = payload.len() as u64;
    let c = crate::codec::compact_len(n);
    let b = request_bytes(command, id, payload);
    assert(b.len() == 5 + c.len() + payload.len());
    assert(b[0] == command);
    assert(b.subrange(1, 5) =~= u32_le(id));
    lemma_le_u32_at(b, 1, id);
    assert(b.subrange(5, 5 + c.len() as int) =~= c);
    lemma_parse_compact_len_at(b, 5, n);
    assert(b.skip(5 + c.len() as int) =~= payload);
}

/// A reply's encoding parses back to exactly its fields.
pub proof fn lemma_reply_round_trip(id: u32, error: u32, payload: Seq<u8>)
    requires
        payload.len() <= 0xffff_ffff_ffff_ffff,
    ensures
        parse_reply(reply_bytes(id, error, payload)) == Some((id, error, payload)),
{
    let n = payload.len() as u64;
    let c = crate::codec::compact_len(n);
    let b = reply_bytes(id, error, payload);
    assert(b.len() == 8 + c.len() + payload.len());
    assert(b.subrange(0, 4) =~= u32_le(id));
    lemma_le_u32_at(b, 0, id);
    assert(b.subrange(4, 8) =~= u32_le(error));
    lemma_le_u32_at(b, 4, error);
    assert(b.subrange(8, 8 + c.len() as int) =~= c);
    lemma_parse_compact_len_at(b, 8, n);
    assert(b.skip(8 + c.len() as int) =~= payload);
}

} // verus!
