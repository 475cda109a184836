//! Framing: each message travels as a 16-bit little-endian length followed by
//! that many payload bytes; the payload is a header (opcode, pid) and the body.

use vstd::prelude::*;
use crate::appearance::{lemma_appearance_words_round_trip};
use crate::bytes::{CodecError, le16, get16, lemma_get16, push16, read16};
use crate::fields::{
    FieldV, fields_bytes, parse_body, encode_fields, decode_body, lemma_parse_body_matches,
    lemma_body_round_trip,
};
use crate::packet::{Packet, packet_id, packet_fields, packet_wf, schema_of, fields_decodable, decoded_from};

verus! {

/// The payload of a message: opcode, pid, then the body.
pub open spec fn payload_bytes(p: Packet, pid: i16) -> Seq<u8> {
    le16(packet_id(p) as u16) + le16(pid as u16) + fields_bytes(packet_fields(p))
}

/// Whether the payload's length fits the 16-bit length prefix.
pub open spec fn payload_fits(p: Packet, pid: i16) -> bool {
    payload_bytes(p, pid).len() <= 0xFFFF
}

/// The whole frame of a message.
pub open spec fn frame_bytes(p: Packet, pid: i16) -> Seq<u8> {
    le16(payload_bytes(p, pid).len() as u16) + payload_bytes(p, pid)
}

/// The declared payload length of the frame at the start of `s`.
pub open spec fn frame_len(s: Seq<u8>) -> int {
    get16(s, 0) as int
}

/// Whether `s` does not yet hold a whole frame.
pub open spec fn frame_incomplete(s: Seq<u8>) -> bool {
    s.len() < 2 || s.len() < 2 + frame_len(s)
}

/// The opcode of the frame at the start of `s`.
pub open spec fn frame_id(s: Seq<u8>) -> i16 {
    get16(s, 2) as i16
}

/// The pid of the frame at the start of `s`.
pub open spec fn frame_pid(s: Seq<u8>) -> i16 {
    get16(s, 4) as i16
}

/// The body of the frame at the start of `s`.
pub open spec fn frame_body(s: Seq<u8>) -> Seq<u8> {
    s.subrange(6, 2 + frame_len(s))
}

/// Whether the whole frame at the start of `s` holds a message: a header, and
/// for an opcode of the catalog a body that is long enough and means something.
pub open spec fn frame_valid(s: Seq<u8>) -> bool {
    &&& frame_len(s) >= 4
    &&& match schema_of(frame_id(s)) {
        None => true,
        Some(sc) => match parse_body(sc, frame_body(s)) {
            None => false,
            Some(fs) => fields_decodable(frame_id(s), fs),
        },
    }
}

/// What reading the front of a byte buffer gives.
#[derive(Debug)]
pub enum FrameRead {
    /// More bytes are needed before a whole frame is buffered.
    Incomplete,
    /// A whole frame holding `packet`; it took the first `consumed` bytes.
    Complete { packet: Packet, pid: i16, consumed: usize },
    /// A whole frame that holds no valid message; the connection cannot go on.
    Invalid,
}

/// Whether reading `s` gives message `q` with pid `pid`, taking `consumed` bytes.
pub open spec fn frame_gives(s: Seq<u8>, q: Packet, pid: i16, consumed: int) -> bool {
    &&& consumed == 2 + frame_len(s)
    &&& pid == frame_pid(s)
    &&& packet_id(q) == frame_id(s)
    &&& match schema_of(frame_id(s)) {
        None => q == Packet::Unknown { id: frame_id(s) },
        Some(sc) => decoded_from(q, parse_body(sc, frame_body(s)).unwrap()),
    }
}

/// Encodes a message as one frame with the given pid. Fails with a range error when
/// the message cannot be framed or its payload exceeds 65535 bytes.
pub fn encode_frame(p: &Packet, pid: i16) -> (r: Result<Vec<u8>, CodecError>)
    ensures
        r is Ok <==> packet_wf(*p) && payload_fits(*p, pid),
        r is Ok ==> r.unwrap()@ == frame_bytes(*p, pid),
        r is Err ==> r == Err::<Vec<u8>, CodecError>(CodecError::OutOfRange),
{
    if !p.fits() {
        return Err(CodecError::OutOfRange);
    }
    let fs = p.to_fields()?;
    let mut payload: Vec<u8> = Vec::new();
    push16(&mut payload, p.id() as u16);
    push16(&mut payload, pid as u16);
    encode_fields(&mut payload, &fs);
    assert(payload@ == payload_bytes(*p, pid));
    if payload.len() > 0xFFFF {
        return Err(CodecError::OutOfRange);
    }
    let mut out: Vec<u8> = Vec::new();
    push16(&mut out, payload.len() as u16);
    let mut k: usize = 0;
    let ghost start = out@;
    while k < payload.len()
        invariant
            k <= payload@.len(),
            out@ == start + payload@.subrange(0, k as int),
        decreases payload@.len() - k,
    {
        out.push(payload[k]);
        k += 1;
        assert(out@ =~= start + payload@.subrange(0, k as int));
    }
    assert(payload@.subrange(0, payload@.len() as int) == payload@);
    Ok(out)
}

/// Reads the frame at the front of `buf`, if a whole one is buffered.
pub fn read_frame(buf: &[u8]) -> (r: FrameRead)
    ensures
        r is Incomplete <==> frame_incomplete(buf@),
        r is Invalid <==> !frame_incomplete(buf@) && !frame_valid(buf@),
        r matches FrameRead::Complete { packet, pid, consumed } ==> frame_gives(
            buf@,
            packet,
            pid,
            consumed as int,
        ),
{
    if buf.len() < 2 {
        return FrameRead::Incomplete;
    }
    let n = read16(buf, 0) as usize;
    if buf.len() - 2 < n {
        return FrameRead::Incomplete;
    }
    if n < 4 {
        return FrameRead::Invalid;
    }
    let id = read16(buf, 2) as i16;
    let pid = read16(buf, 4) as i16;
    let sc = match Packet::schema_for(id) {
        Some(sc) => sc,
        None => {
            return FrameRead::Complete { packet: Packet::Unknown { id }, pid, consumed: n + 2 };
        },
    };
    let body = slice_range(buf, 6, n + 2);
    let fs = match decode_body(&sc, body.as_slice()) {
        Some(fs) => fs,
        None => {
            return FrameRead::Invalid;
        },
    };
    proof {
        lemma_parse_body_matches(sc@, body@);
    }
    match Packet::from_fields(id, fs.as_slice()) {
        Ok(packet) => FrameRead::Complete { packet, pid, consumed: n + 2 },
        Err(_) => FrameRead::Invalid,
    }
}

fn slice_range(buf: &[u8], from: usize, to: usize) -> (r: Vec<u8>)
    requires
        from <= to <= buf@.len(),
    ensures
        r@ == buf@.subrange(from as int, to as int),
{
    let mut r: Vec<u8> = Vec::new();
    let mut k: usize = from;
    while k < to
        invariant
            from <= k <= to,
            to <= buf@.len(),
            r@ == buf@.subrange(from as int, k as int),
        decreases to - k,
    {
        r.push(buf[k]);
        k += 1;
        assert(r@ =~= buf@.subrange(from as int, k as int));
    }
    r
}

/// Whether reading `s` gives back message `p` with pid `pid`: the same opcode,
/// pid and field values, whichever message the reader builds.
pub open spec fn frame_reads_back(s: Seq<u8>, p: Packet, pid: i16) -> bool {
    &&& !frame_incomplete(s)
    &&& frame_valid(s)
    &&& frame_id(s) == packet_id(p)
    &&& frame_pid(s) == pid
    &&& forall|q: Packet, consumed: int|
        #![trigger frame_gives(s, q, pid, consumed)]
        frame_gives(s, q, pid, consumed) ==> consumed == frame_bytes(p, pid).len()
            && packet_id(q) == packet_id(p) && packet_fields(q) == packet_fields(p)
}

proof fn lemma_header(id: i16, pid: i16, body: Seq<u8>, rest: Seq<u8>)
    requires
        4 + body.len() <= 0xFFFF,
    ensures
        ({
            let s = le16((4 + body.len()) as u16) + (le16(id as u16) + le16(pid as u16) + body)
                + rest;
            &&& frame_len(s) == 4 + body.len()
            &&& !frame_incomplete(s)
            &&& frame_id(s) == id
            &&& frame_pid(s) == pid
            &&& frame_body(s) == body
        }),
{
    let n = (4 + body.len()) as u16;
    let s = le16(n) + (le16(id as u16) + le16(pid as u16) + body) + rest;
    lemma_get16(Seq::empty(), n, le16(id as u16) + le16(pid as u16) + body + rest);
    assert(s == Seq::<u8>::empty() + le16(n) + (le16(id as u16) + le16(pid as u16) + body + rest));
    lemma_get16(le16(n), id as u16, le16(pid as u16) + body + rest);
    assert(s == le16(n) + le16(id as u16) + (le16(pid as u16) + body + rest));
    lemma_get16(le16(n) + le16(id as u16), pid as u16, body + rest);
    assert(s == (le16(n) + le16(id as u16)) + le16(pid as u16) + (body + rest));
    assert((id as u16) as i16 == id) by (bit_vector);
    assert((pid as u16) as i16 == pid) by (bit_vector);
    assert(s.subrange(6, 2 + frame_len(s)) =~= body);
}

/// Framing any message of the catalog and reading the bytes back, whatever
/// follows them in the buffer, gives a message with the same opcode, pid and
/// field values.
#[verifier::spinoff_prover]
#[verifier::rlimit(100)]
pub proof fn lemma_frame_round_trip(p: Packet, pid: i16, rest: Seq<u8>)
    requires
        packet_wf(p),
        payload_fits(p, pid),
    ensures
        frame_reads_back(frame_bytes(p, pid) + rest, p, pid),
{
    let s = frame_bytes(p, pid) + rest;
    let id = packet_id(p);
    let fs = packet_fields(p);
    let body = fields_bytes(fs);
    lemma_wf_facts(p);
    lemma_header(id, pid, body, rest);
    if !(p is Unknown) {
        let sc = schema_of(id).unwrap();
        lemma_body_round_trip(sc, fs, Seq::empty());
        assert(body + Seq::<u8>::empty() == body);
        assert(parse_body(sc, frame_body(s)) == Some(fs));
        assert forall|q: Packet, consumed: int|
            #![trigger frame_gives(s, q, pid, consumed)]
            frame_gives(s, q, pid, consumed) implies consumed == frame_bytes(p, pid).len()
                && packet_id(q) == id && packet_fields(q) == fs by {
            lemma_decoded_same(p, q);
        }
    }
}

pub proof fn lemma_wf_facts(p: Packet)
    requires
        packet_wf(p),
    ensures
        p is Unknown ==> schema_of(packet_id(p)) is None && packet_fields(p) == Seq::<FieldV>::empty(),
        !(p is Unknown) ==> schema_of(packet_id(p)) is Some && fields_match_of(
            p,
            schema_of(packet_id(p)).unwrap(),
        ) && fields_decodable(packet_id(p), packet_fields(p)),
{
    match p {
        Packet::SET_FIRST_CHARACTER_APPEARANCE(a) => {
            lemma_appearance_words_round_trip(a);
            let fs = packet_fields(p);
            assert(crate::fields::field_has_kind(fs[0], schema_of(95).unwrap()[0]));
        },
        Packet::SEND_APPEAR { appear, .. } => {
            lemma_appearance_words_round_trip(appear);
        },
        Packet::REQ_CHG_APPEAR { appear, .. } => {
            lemma_appearance_words_round_trip(appear);
        },
        _ => {},
    }
}

pub proof fn lemma_decoded_same(p: Packet, q: Packet)
    requires
        packet_wf(p),
        !(p is Unknown),
        packet_id(q) == packet_id(p),
        decoded_from(q, packet_fields(p)),
    ensures
        packet_fields(q) == packet_fields(p),
{
    match (p, q) {
        (Packet::SET_FIRST_CHARACTER_APPEARANCE(a), Packet::SET_FIRST_CHARACTER_APPEARANCE(b)) => {
            lemma_appearance_words_round_trip(a);
            assert(b == a);
        },
        (Packet::SEND_APPEAR { appear: a, .. }, Packet::SEND_APPEAR { appear: b, .. }) => {
            lemma_appearance_words_round_trip(a);
            assert(b == a);
        },
        (Packet::REQ_CHG_APPEAR { appear: a, .. }, Packet::REQ_CHG_APPEAR { appear: b, .. }) => {
            lemma_appearance_words_round_trip(a);
            assert(b == a);
        },
        _ => {},
    }
}

/// Whether the fields of `p` have the kinds of schema `sc`.
pub open spec fn fields_match_of(p: Packet, sc: Seq<crate::fields::Kind>) -> bool {
    crate::fields::body_match(sc, packet_fields(p))
}

/// Numbers the messages a connection sends: an answer keeps the pid of the
/// request it answers; anything else takes the next number of the connection's
/// own counter, which starts at 1 and wraps around.
#[derive(Debug)]
pub struct PidCounter {
    pub next: i16,
}

impl PidCounter {
    pub fn new() -> (r: PidCounter)
        ensures
            r.next == 1,
    {
        PidCounter { next: 1 }
    }

    /// The pid for a message answering `answer_to`, if given, or else a fresh one.
    pub fn assign(&mut self, answer_to: Option<i16>) -> (r: i16)
        ensures
            answer_to matches Some(p) ==> r == p && final(self).next == old(self).next,
            answer_to is None ==> r == old(self).next && final(self).next == (if old(self).next == i16::MAX {
                i16::MIN
            } else {
                (old(self).next + 1) as i16
            }),
    {
        match answer_to {
            Some(p) => p,
            None => {
                let r = self.next;
                self.next = if self.next == i16::MAX { i16::MIN } else { self.next + 1 };
                r
            },
        }
    }
}

} // verus!
