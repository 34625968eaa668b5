//! The wire frame: a 2-byte big-endian type tag, a 4-byte big-endian payload
//! length, and the payload. A decoder buffers until a complete frame is
//! present, never consumes a partial frame, and reports an unrecognized tag
//! or malformed payload as `DecodeError` rather than crashing.

use vstd::prelude::*;

use crate::messages::{Message, MessageType, PaxosError};

verus! {

/// The exterior of `bytes::BytesMut`, the receive buffer frames arrive in.
#[verifier::external_type_specification]
#[verifier::external_body]
pub struct ExBytesMut(bytes::BytesMut);

/// The bytes a `bytes::BytesMut` currently holds, in order.
pub uninterp spec fn buf_contents(b: bytes::BytesMut) -> Seq<u8>;

/// Relies on bytes::BytesMut::len: the number of bytes the buffer holds.
#[verifier::external_body]
fn buf_len(b: &bytes::BytesMut) -> (r: usize)
    ensures
        r == buf_contents(*b).len(),
{
    b.len()
}

/// Relies on BytesMut's Deref to `[u8]`: indexing reads the byte at `i`.
#[verifier::external_body]
fn buf_byte(b: &bytes::BytesMut, i: usize) -> (r: u8)
    requires
        i < buf_contents(*b).len(),
    ensures
        r == buf_contents(*b)[i as int],
{
    b[i]
}

/// Relies on `<BytesMut as bytes::Buf>::advance`: discards the first `n`
/// bytes; it panics past the end, which the precondition rules out.
#[verifier::external_body]
fn buf_advance(b: &mut bytes::BytesMut, n: usize)
    requires
        n <= buf_contents(*old(b)).len(),
    ensures
        buf_contents(*final(b)) == buf_contents(*old(b)).skip(n as int),
{
    bytes::Buf::advance(b, n);
}

/// The big-endian reading of two bytes.
pub open spec fn be16(s: Seq<u8>) -> int
    recommends
        s.len() == 2,
{
    s[0] as int * 0x100 + s[1] as int
}

/// The big-endian reading of four bytes.
pub open spec fn be32(s: Seq<u8>) -> int
    recommends
        s.len() == 4,
{
    s[0] as int * 0x1000000 + s[1] as int * 0x10000 + s[2] as int * 0x100 + s[3] as int
}

/// The big-endian reading of eight bytes.
pub open spec fn be64(s: Seq<u8>) -> int
    recommends
        s.len() == 8,
{
    s[0] as int * 0x100000000000000 + s[1] as int * 0x1000000000000 + s[2] as int * 0x10000000000
        + s[3] as int * 0x100000000 + s[4] as int * 0x1000000 + s[5] as int * 0x10000 + s[6] as int
        * 0x100 + s[7] as int
}

/// The two big-endian bytes of a 16-bit number.
pub open spec fn be16_bytes(x: u16) -> Seq<u8> {
    seq![(x as int / 0x100) as u8, (x as int % 0x100) as u8]
}

/// The four big-endian bytes of a 32-bit number.
pub open spec fn be32_bytes(x: u32) -> Seq<u8> {
    seq![
        (x as int / 0x1000000 % 0x100) as u8,
        (x as int / 0x10000 % 0x100) as u8,
        (x as int / 0x100 % 0x100) as u8,
        (x as int % 0x100) as u8,
    ]
}

/// The eight big-endian bytes of a 64-bit number.
pub open spec fn be64_bytes(x: u64) -> Seq<u8> {
    seq![
        (x as int / 0x100000000000000 % 0x100) as u8,
        (x as int / 0x1000000000000 % 0x100) as u8,
        (x as int / 0x10000000000 % 0x100) as u8,
        (x as int / 0x100000000 % 0x100) as u8,
        (x as int / 0x1000000 % 0x100) as u8,
        (x as int / 0x10000 % 0x100) as u8,
        (x as int / 0x100 % 0x100) as u8,
        (x as int % 0x100) as u8,
    ]
}

/// The payload each message is framed with. A Promise is one flag byte for
/// `promised`, the echoed ballot, then one flag byte for the adopted pair
/// followed by the pair when present.
pub open spec fn spec_payload(m: Message) -> Seq<u8> {
    match m {
        Message::Connect => Seq::empty(),
        Message::Ack => Seq::empty(),
        Message::Prepare { ballot } => be64_bytes(ballot),
        Message::Promise { promised, ballot, adopted } => seq![if promised { 1u8 } else { 0u8 }]
            + be64_bytes(ballot) + match adopted {
            None => seq![0u8],
            Some((b, v)) => seq![1u8] + be64_bytes(b) + be64_bytes(v),
        },
        Message::Accept { ballot, value } => be64_bytes(ballot) + be64_bytes(value),
        Message::Confirm { ballot, value } => be64_bytes(ballot) + be64_bytes(value),
        Message::Learn { ballot, value } => be64_bytes(ballot) + be64_bytes(value),
    }
}

/// The whole frame of a message: tag, payload length, payload.
pub open spec fn spec_frame(m: Message) -> Seq<u8> {
    be16_bytes(m.spec_type().spec_tag()) + be32_bytes(spec_payload(m).len() as u32)
        + spec_payload(m)
}

/// The message a payload of the given type decodes to, if it is well formed:
/// the length must match the type exactly and flag bytes must be 0 or 1.
pub open spec fn spec_parse_payload(t: MessageType, p: Seq<u8>) -> Option<Message> {
    match t {
        MessageType::Connect => if p.len() == 0 {
            Some(Message::Connect)
        } else {
            None
        },
        MessageType::Ack => if p.len() == 0 {
            Some(Message::Ack)
        } else {
            None
        },
        MessageType::Proposal => if p.len() == 8 {
            Some(Message::Prepare { ballot: be64(p) as u64 })
        } else {
            None
        },
        MessageType::Promise => {
            if p.len() == 10 && (p[0] == 0 || p[0] == 1) && p[9] == 0 {
                Some(
                    Message::Promise {
                        promised: p[0] == 1,
                        ballot: be64(p.subrange(1, 9)) as u64,
                        adopted: None,
                    },
                )
            } else if p.len() == 26 && (p[0] == 0 || p[0] == 1) && p[9] == 1 {
                Some(
                    Message::Promise {
                        promised: p[0] == 1,
                        ballot: be64(p.subrange(1, 9)) as u64,
                        adopted: Some(
                            (be64(p.subrange(10, 18)) as u64, be64(p.subrange(18, 26)) as u64),
                        ),
                    },
                )
            } else {
                None
            }
        },
        MessageType::Accept => if p.len() == 16 {
            Some(
                Message::Accept {
                    ballot: be64(p.subrange(0, 8)) as u64,
                    value: be64(p.subrange(8, 16)) as u64,
                },
            )
        } else {
            None
        },
        MessageType::Confirm => if p.len() == 16 {
            Some(
                Message::Confirm {
                    ballot: be64(p.subrange(0, 8)) as u64,
                    value: be64(p.subrange(8, 16)) as u64,
                },
            )
        } else {
            None
        },
        MessageType::Learn => if p.len() == 16 {
            Some(
                Message::Learn {
                    ballot: be64(p.subrange(0, 8)) as u64,
                    value: be64(p.subrange(8, 16)) as u64,
                },
            )
        } else {
            None
        },
    }
}

/// How many bytes the frame at the head of the buffer spans: the 6-byte
/// header plus the declared payload length.
pub open spec fn frame_size(s: Seq<u8>) -> int
    recommends
        s.len() >= 6,
{
    6 + be32(s.subrange(2, 6))
}

/// Whether the buffer holds a complete frame at its head.
pub open spec fn frame_complete(s: Seq<u8>) -> bool {
    s.len() >= 6 && s.len() >= frame_size(s)
}

/// What the complete frame at the head of the buffer decodes to: `None` for
/// an unrecognized tag or a malformed payload.
pub open spec fn spec_decode(s: Seq<u8>) -> Option<Message>
    recommends
        frame_complete(s),
{
    match MessageType::spec_from_tag(be16(s.subrange(0, 2)) as u16) {
        None => None,
        Some(t) => spec_parse_payload(t, s.subrange(6, frame_size(s))),
    }
}

/// The big-endian 16-bit number at offset `off`.
fn read_be16(b: &bytes::BytesMut, off: usize) -> (r: u16)
    requires
        off + 2 <= buf_contents(*b).len(),
        off + 2 <= usize::MAX,
    ensures
        r as int == be16(buf_contents(*b).subrange(off as int, off + 2)),
{
    let b0 = buf_byte(b, off);
    let b1 = buf_byte(b, off + 1);
    (b0 as u16) * 0x100 + (b1 as u16)
}

/// The big-endian 32-bit number at offset `off`.
fn read_be32(b: &bytes::BytesMut, off: usize) -> (r: u32)
    requires
        off + 4 <= buf_contents(*b).len(),
        off + 4 <= usize::MAX,
    ensures
        r as int == be32(buf_contents(*b).subrange(off as int, off + 4)),
{
    let b0 = buf_byte(b, off);
    let b1 = buf_byte(b, off + 1);
    let b2 = buf_byte(b, off + 2);
    let b3 = buf_byte(b, off + 3);
    (b0 as u32) * 0x1000000 + (b1 as u32) * 0x10000 + (b2 as u32) * 0x100 + (b3 as u32)
}

/// The big-endian 64-bit number at offset `off`.
fn read_be64(b: &bytes::BytesMut, off: usize) -> (r: u64)
    requires
        off + 8 <= buf_contents(*b).len(),
        off + 8 <= usize::MAX,
    ensures
        r as int == be64(buf_contents(*b).subrange(off as int, off + 8)),
{
    let b0 = buf_byte(b, off);
    let b1 = buf_byte(b, off + 1);
    let b2 = buf_byte(b, off + 2);
    let b3 = buf_byte(b, off + 3);
    let b4 = buf_byte(b, off + 4);
    let b5 = buf_byte(b, off + 5);
    let b6 = buf_byte(b, off + 6);
    let b7 = buf_byte(b, off + 7);
    (b0 as u64) * 0x100000000000000 + (b1 as u64) * 0x1000000000000 + (b2 as u64) * 0x10000000000
        + (b3 as u64) * 0x100000000 + (b4 as u64) * 0x1000000 + (b5 as u64) * 0x10000 + (b6 as u64)
        * 0x100 + (b7 as u64)
}



/// The two big-endian bytes of a 16-bit number read back as that number.
proof fn lemma_be16_round_trip(x: u16)
    ensures
        be16(be16_bytes(x)) == x,
{
    assert(x / 0x100 * 0x100 + x % 0x100 == x) by (bit_vector);
}

/// The four big-endian bytes of a 32-bit number read back as that number.
proof fn lemma_be32_round_trip(x: u32)
    ensures
        be32(be32_bytes(x)) == x,
{
    assert(x / 0x1000000 % 0x100 * 0x1000000 + x / 0x10000 % 0x100 * 0x10000 + x / 0x100 % 0x100
        * 0x100 + x % 0x100 == x) by (bit_vector);
}

/// The eight big-endian bytes of a 64-bit number read back as that number.
proof fn lemma_be64_round_trip(x: u64)
    ensures
        be64(be64_bytes(x)) == x,
{
    assert(x / 0x100000000000000 % 0x100 * 0x100000000000000 + x / 0x1000000000000 % 0x100
        * 0x1000000000000 + x / 0x10000000000 % 0x100 * 0x10000000000 + x / 0x100000000 % 0x100
        * 0x100000000 + x / 0x1000000 % 0x100 * 0x1000000 + x / 0x10000 % 0x100 * 0x10000 + x
        / 0x100 % 0x100 * 0x100 + x % 0x100 == x) by (bit_vector);
}

/// A tag written is the tag read back.
proof fn lemma_tag_round_trip(t: MessageType)
    ensures
        MessageType::spec_from_tag(t.spec_tag()) == Some(t),
{
}

/// Framing loses nothing: the frame of any message is complete and decodes
/// back to exactly that message.
#[verifier::rlimit(60)]
pub proof fn lemma_frame_round_trip(m: Message)
    ensures
        frame_complete(spec_frame(m)),
        spec_decode(spec_frame(m)) == Some(m),
{
    let p = spec_payload(m);
    let t = m.spec_type();
    let s = spec_frame(m);
    assert(p.len() <= 26);
    let plen = p.len() as u32;
    assert(s.subrange(0, 2) =~= be16_bytes(t.spec_tag()));
    assert(s.subrange(2, 6) =~= be32_bytes(plen));
    lemma_be16_round_trip(t.spec_tag());
    lemma_be32_round_trip(plen);
    lemma_tag_round_trip(t);
    assert(frame_size(s) == 6 + p.len());
    assert(s.len() == 6 + p.len());
    assert(frame_complete(s));
    assert(s.subrange(6, frame_size(s)) =~= p);
    match m {
        Message::Connect => {},
        Message::Ack => {},
        Message::Prepare { ballot } => {
            lemma_be64_round_trip(ballot);
        },
        Message::Promise { promised, ballot, adopted } => {
            assert(p[0] == if promised { 1u8 } else { 0u8 });
            assert(p.subrange(1, 9) =~= be64_bytes(ballot));
            lemma_be64_round_trip(ballot);
            match adopted {
                None => {
                    assert(p[9] == 0u8);
                },
                Some((b, v)) => {
                    assert(p[9] == 1u8);
                    assert(p.subrange(10, 18) =~= be64_bytes(b));
                    assert(p.subrange(18, 26) =~= be64_bytes(v));
                    lemma_be64_round_trip(b);
                    lemma_be64_round_trip(v);
                },
            }
        },
        Message::Accept { ballot, value } => {
            assert(p.subrange(0, 8) =~= be64_bytes(ballot));
            assert(p.subrange(8, 16) =~= be64_bytes(value));
            lemma_be64_round_trip(ballot);
            lemma_be64_round_trip(value);
        },
        Message::Confirm { ballot, value } => {
            assert(p.subrange(0, 8) =~= be64_bytes(ballot));
            assert(p.subrange(8, 16) =~= be64_bytes(value));
            lemma_be64_round_trip(ballot);
            lemma_be64_round_trip(value);
        },
        Message::Learn { ballot, value } => {
            assert(p.subrange(0, 8) =~= be64_bytes(ballot));
            assert(p.subrange(8, 16) =~= be64_bytes(value));
            lemma_be64_round_trip(ballot);
            lemma_be64_round_trip(value);
        },
    }
}

/// Appends the eight big-endian bytes of `x`.
fn push_be64(out: &mut Vec<u8>, x: u64)
    ensures
        final(out)@ == old(out)@ + be64_bytes(x),
{
    out.push((x / 0x100000000000000 % 0x100) as u8);
    out.push((x / 0x1000000000000 % 0x100) as u8);
    out.push((x / 0x10000000000 % 0x100) as u8);
    out.push((x / 0x100000000 % 0x100) as u8);
    out.push((x / 0x1000000 % 0x100) as u8);
    out.push((x / 0x10000 % 0x100) as u8);
    out.push((x / 0x100 % 0x100) as u8);
    out.push((x % 0x100) as u8);
    proof {
        assert(out@ =~= old(out)@ + be64_bytes(x));
    }
}

impl Message {
    /// Decodes the frame at the head of the buffer, if one is complete.
    ///
    /// An incomplete frame leaves everything untouched and reports zero
    /// messages decoded, so decoding is resumable. A complete, well-formed
    /// frame is consumed and its message appended. A complete frame with an
    /// unrecognized tag or a malformed payload is a `DecodeError` and is not
    /// consumed.
    pub fn from_bytes(bytes: &mut bytes::BytesMut, messages: &mut Vec<Message>) -> (r: Result<
        usize,
        PaxosError,
    >)
        ensures
            ({
                let s = buf_contents(*old(bytes));
                if !frame_complete(s) {
                    &&& r == Ok::<usize, PaxosError>(0)
                    &&& buf_contents(*final(bytes)) == s
                    &&& final(messages)@ == old(messages)@
                } else {
                    match spec_decode(s) {
                        Some(m) => {
                            &&& r == Ok::<usize, PaxosError>(1)
                            &&& buf_contents(*final(bytes)) == s.skip(frame_size(s))
                            &&& final(messages)@ == old(messages)@.push(m)
                        },
                        None => {
                            &&& r == Err::<usize, PaxosError>(PaxosError::DecodeError)
                            &&& buf_contents(*final(bytes)) == s
                            &&& final(messages)@ == old(messages)@
                        },
                    }
                }
            }),
    {
        let ghost s = buf_contents(*bytes);
        let n = buf_len(bytes);
        if n < 6 {
            return Ok(0);
        }
        let tag = read_be16(bytes, 0);
        proof {
            assert(s.subrange(0, 2) =~= buf_contents(*bytes).subrange(0, 2));
        }
        let plen32 = read_be32(bytes, 2);
        let plen: usize = plen32 as usize;
        proof {
            assert(s.subrange(2, 6) =~= buf_contents(*bytes).subrange(2, 6));
            assert(frame_size(s) == 6 + plen);
        }
        if n - 6 < plen {
            assert(!frame_complete(s));
            return Ok(0);
        }
        assert(frame_complete(s));
        let ghost p = s.subrange(6, frame_size(s));
        let t = match MessageType::from_tag(tag) {
            None => {
                return Err(PaxosError::DecodeError);
            },
            Some(t) => t,
        };
        let m: Message = match t {
            MessageType::Connect => {
                if plen != 0 {
                    return Err(PaxosError::DecodeError);
                }
                Message::Connect
            },
            MessageType::Ack => {
                if plen != 0 {
                    return Err(PaxosError::DecodeError);
                }
                Message::Ack
            },
            MessageType::Proposal => {
                if plen != 8 {
                    return Err(PaxosError::DecodeError);
                }
                let ballot = read_be64(bytes, 6);
                proof {
                    assert(p =~= buf_contents(*bytes).subrange(6, 14));
                }
                Message::Prepare { ballot }
            },
            MessageType::Promise => {
                if plen != 10 && plen != 26 {
                    return Err(PaxosError::DecodeError);
                }
                let flag = buf_byte(bytes, 6);
                if flag != 0 && flag != 1 {
                    return Err(PaxosError::DecodeError);
                }
                let promised = flag == 1;
                let ballot = read_be64(bytes, 7);
                proof {
                    assert(p.subrange(1, 9) =~= buf_contents(*bytes).subrange(7, 15));
                }
                let aflag = buf_byte(bytes, 15);
                if plen == 10 {
                    if aflag != 0 {
                        return Err(PaxosError::DecodeError);
                    }
                    Message::Promise { promised, ballot, adopted: None }
                } else {
                    if aflag != 1 {
                        return Err(PaxosError::DecodeError);
                    }
                    let b = read_be64(bytes, 16);
                    let v = read_be64(bytes, 24);
                    proof {
                        assert(p.subrange(10, 18) =~= buf_contents(*bytes).subrange(16, 24));
                        assert(p.subrange(18, 26) =~= buf_contents(*bytes).subrange(24, 32));
                    }
                    Message::Promise { promised, ballot, adopted: Some((b, v)) }
                }
            },
            MessageType::Accept => {
                if plen != 16 {
                    return Err(PaxosError::DecodeError);
                }
                let ballot = read_be64(bytes, 6);
                let value = read_be64(bytes, 14);
                proof {
                    assert(p.subrange(0, 8) =~= buf_contents(*bytes).subrange(6, 14));
                    assert(p.subrange(8, 16) =~= buf_contents(*bytes).subrange(14, 22));
                }
                Message::Accept { ballot, value }
            },
            MessageType::Confirm => {
                if plen != 16 {
                    return Err(PaxosError::DecodeError);
                }
                let ballot = read_be64(bytes, 6);
                let value = read_be64(bytes, 14);
                proof {
                    assert(p.subrange(0, 8) =~= buf_contents(*bytes).subrange(6, 14));
                    assert(p.subrange(8, 16) =~= buf_contents(*bytes).subrange(14, 22));
                }
                Message::Confirm { ballot, value }
            },
            MessageType::Learn => {
                if plen != 16 {
                    return Err(PaxosError::DecodeError);
                }
                let ballot = read_be64(bytes, 6);
                let value = read_be64(bytes, 14);
                proof {
                    assert(p.subrange(0, 8) =~= buf_contents(*bytes).subrange(6, 14));
                    assert(p.subrange(8, 16) =~= buf_contents(*bytes).subrange(14, 22));
                }
                Message::Learn { ballot, value }
            },
        };
        assert(spec_decode(s) == Some(m));
        buf_advance(bytes, 6 + plen);
        messages.push(m);
        Ok(1)
    }

    /// Encodes this message as one complete wire frame.
    pub fn to_bytes(&self) -> (r: Vec<u8>)
        ensures
            r@ == spec_frame(*self),
    {
        let mut payload: Vec<u8> = Vec::new();
        match *self {
            Message::Connect => {},
            Message::Ack => {},
            Message::Prepare { ballot } => {
                push_be64(&mut payload, ballot);
            },
            Message::Promise { promised, ballot, adopted } => {
                payload.push(if promised { 1 } else { 0 });
                push_be64(&mut payload, ballot);
                match adopted {
                    None => {
                        payload.push(0);
                    },
                    Some((b, v)) => {
                        payload.push(1);
                        push_be64(&mut payload, b);
                        push_be64(&mut payload, v);
                    },
                }
            },
            Message::Accept { ballot, value } => {
                push_be64(&mut payload, ballot);
                push_be64(&mut payload, value);
            },
            Message::Confirm { ballot, value } => {
                push_be64(&mut payload, ballot);
                push_be64(&mut payload, value);
            },
            Message::Learn { ballot, value } => {
                push_be64(&mut payload, ballot);
                push_be64(&mut payload, value);
            },
        }
        proof {
            assert(payload@ =~= spec_payload(*self));
        }
        let tag: u16 = self.message_type().tag();
        let plen: u32 = payload.len() as u32;
        let mut r: Vec<u8> = Vec::new();
        r.push((tag / 0x100) as u8);
        r.push((tag % 0x100) as u8);
        r.push((plen / 0x1000000 % 0x100) as u8);
        r.push((plen / 0x10000 % 0x100) as u8);
        r.push((plen / 0x100 % 0x100) as u8);
        r.push((plen % 0x100) as u8);
        r.append(&mut payload);
        proof {
            assert(r@ =~= spec_frame(*self));
        }
        r
    }
}

} // verus!
