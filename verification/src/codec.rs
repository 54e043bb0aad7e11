//! The wire codec: one `Message` or `Response` is carried as a length-prefixed
//! frame whose payload is a compact, field-tagged binary encoding.
//!
//! Payload shape: a one-entry map from the variant name (a short string) to
//! the array of the variant's field values, each value in its most compact
//! form. The frame prefixes the payload with its length as a 2-byte
//! little-endian unsigned integer.

use crate::protocol::{Message, Response};
use crate::Error;
use vstd::prelude::*;

verus! {

/// The most compact encoding of an unsigned 16-bit integer: the value itself
/// for 0..=127, a one-byte marker and the value for 128..=255, a marker and
/// the value in two big-endian bytes above that.
pub open spec fn uint_encoding(v: u16) -> Seq<u8> {
    if v < 0x80 {
        seq![v as u8]
    } else if v < 0x100 {
        seq![0xccu8, v as u8]
    } else {
        seq![0xcdu8, (v / 0x100) as u8, (v % 0x100) as u8]
    }
}

/// A boolean is one marker byte.
pub open spec fn bool_encoding(v: bool) -> Seq<u8> {
    if v {
        seq![0xc3u8]
    } else {
        seq![0xc2u8]
    }
}

/// The payload bytes of one command: a one-entry map (`0x81`) from the
/// variant name (a fixed string, marker `0xa0 | len`) to the fixed array
/// (`0x90 | arity`) of the variant's field values.
pub open spec fn msg_encoding(m: Message) -> Seq<u8> {
    match m {
        Message::OpenIn { id } => seq![
            0x81u8, 0xa6u8, 0x4fu8, 0x70u8, 0x65u8, 0x6eu8, 0x49u8, 0x6eu8, 0x91u8,
        ] + uint_encoding(id),
        Message::OpenOut { id } => seq![
            0x81u8, 0xa7u8, 0x4fu8, 0x70u8, 0x65u8, 0x6eu8, 0x4fu8, 0x75u8, 0x74u8, 0x91u8,
        ] + uint_encoding(id),
        Message::RequestIn { id } => seq![
            0x81u8, 0xa9u8, 0x52u8, 0x65u8, 0x71u8, 0x75u8, 0x65u8, 0x73u8, 0x74u8, 0x49u8,
            0x6eu8, 0x91u8,
        ] + uint_encoding(id),
        Message::SetOut { id, val } => seq![
            0x81u8, 0xa6u8, 0x53u8, 0x65u8, 0x74u8, 0x4fu8, 0x75u8, 0x74u8, 0x92u8,
        ] + uint_encoding(id) + bool_encoding(val),
    }
}

/// The payload bytes of one response, shaped as `msg_encoding`.
pub open spec fn resp_encoding(r: Response) -> Seq<u8> {
    match r {
        Response::InValue { id, val } => seq![
            0x81u8, 0xa7u8, 0x49u8, 0x6eu8, 0x56u8, 0x61u8, 0x6cu8, 0x75u8, 0x65u8, 0x92u8,
        ] + uint_encoding(id) + bool_encoding(val),
    }
}

/// Reads one unsigned 16-bit integer at `pos`: the value and the position
/// just past it, or nothing where the bytes fit no integer shape.
pub open spec fn parse_uint(b: Seq<u8>, pos: int) -> Option<(u16, int)> {
    if 0 <= pos < b.len() {
        if b[pos] < 0x80 {
            Some((b[pos] as u16, pos + 1))
        } else if b[pos] == 0xcc && pos + 2 <= b.len() {
            Some((b[pos + 1] as u16, pos + 2))
        } else if b[pos] == 0xcd && pos + 3 <= b.len() {
            Some((((b[pos + 1] as int) * 0x100 + (b[pos + 2] as int)) as u16, pos + 3))
        } else {
            None
        }
    } else {
        None
    }
}

/// Reads one boolean marker at `pos`.
pub open spec fn parse_bool(b: Seq<u8>, pos: int) -> Option<(bool, int)> {
    if 0 <= pos < b.len() {
        if b[pos] == 0xc2 {
            Some((false, pos + 1))
        } else if b[pos] == 0xc3 {
            Some((true, pos + 1))
        } else {
            None
        }
    } else {
        None
    }
}

pub open spec fn has_open_in_header(b: Seq<u8>) -> bool {
    b.len() >= 9 && b[0] == 0x81 && b[1] == 0xa6 && b[2] == 0x4f && b[3] == 0x70 && b[4] == 0x65
        && b[5] == 0x6e && b[6] == 0x49 && b[7] == 0x6e && b[8] == 0x91
}

pub open spec fn has_open_out_header(b: Seq<u8>) -> bool {
    b.len() >= 10 && b[0] == 0x81 && b[1] == 0xa7 && b[2] == 0x4f && b[3] == 0x70 && b[4] == 0x65
        && b[5] == 0x6e && b[6] == 0x4f && b[7] == 0x75 && b[8] == 0x74 && b[9] == 0x91
}

pub open spec fn has_request_in_header(b: Seq<u8>) -> bool {
    b.len() >= 12 && b[0] == 0x81 && b[1] == 0xa9 && b[2] == 0x52 && b[3] == 0x65 && b[4] == 0x71
        && b[5] == 0x75 && b[6] == 0x65 && b[7] == 0x73 && b[8] == 0x74 && b[9] == 0x49
        && b[10] == 0x6e && b[11] == 0x91
}

pub open spec fn has_set_out_header(b: Seq<u8>) -> bool {
    b.len() >= 9 && b[0] == 0x81 && b[1] == 0xa6 && b[2] == 0x53 && b[3] == 0x65 && b[4] == 0x74
        && b[5] == 0x4f && b[6] == 0x75 && b[7] == 0x74 && b[8] == 0x92
}

pub open spec fn has_in_value_header(b: Seq<u8>) -> bool {
    b.len() >= 10 && b[0] == 0x81 && b[1] == 0xa7 && b[2] == 0x49 && b[3] == 0x6e && b[4] == 0x56
        && b[5] == 0x61 && b[6] == 0x6c && b[7] == 0x75 && b[8] == 0x65 && b[9] == 0x92
}

/// The command a payload decodes to, or nothing where it has no known shape.
/// Bytes past the one decoded value are ignored.
pub open spec fn parse_msg(b: Seq<u8>) -> Option<Message> {
    if has_open_in_header(b) {
        match parse_uint(b, 9) {
            Some((id, _end)) => Some(Message::OpenIn { id }),
            None => None,
        }
    } else if has_open_out_header(b) {
        match parse_uint(b, 10) {
            Some((id, _end)) => Some(Message::OpenOut { id }),
            None => None,
        }
    } else if has_request_in_header(b) {
        match parse_uint(b, 12) {
            Some((id, _end)) => Some(Message::RequestIn { id }),
            None => None,
        }
    } else if has_set_out_header(b) {
        match parse_uint(b, 9) {
            Some((id, p)) => match parse_bool(b, p) {
                Some((val, _end)) => Some(Message::SetOut { id, val }),
                None => None,
            },
            None => None,
        }
    } else {
        None
    }
}

/// The response a payload decodes to, or nothing where it has no known shape.
pub open spec fn parse_resp(b: Seq<u8>) -> Option<Response> {
    if has_in_value_header(b) {
        match parse_uint(b, 10) {
            Some((id, p)) => match parse_bool(b, p) {
                Some((val, _end)) => Some(Response::InValue { id, val }),
                None => None,
            },
            None => None,
        }
    } else {
        None
    }
}

/// A payload wrapped in its frame: the payload length as two little-endian
/// bytes, then the payload. Meaningful for payloads of at most 65535 bytes.
pub open spec fn frame_encoding(payload: Seq<u8>) -> Seq<u8> {
    seq![(payload.len() % 0x100) as u8, ((payload.len() / 0x100) % 0x100) as u8] + payload
}

/// The payload length announced by the two little-endian prefix bytes.
pub open spec fn prefixed_len(b0: u8, b1: u8) -> int {
    b0 + 0x100 * b1
}

/// Reads the length prefix of a frame: `b0` is the low byte, `b1` the high.
pub fn payload_len(b0: u8, b1: u8) -> (n: u16)
    ensures
        n == prefixed_len(b0, b1),
{
    b0 as u16 + 0x100 * (b1 as u16)
}

fn push_uint(out: &mut Vec<u8>, v: u16)
    ensures
        final(out)@ == old(out)@ + uint_encoding(v),
{
    let ghost pre = out@;
    if v < 0x80 {
        out.push(v as u8);
    } else if v < 0x100 {
        out.push(0xcc);
        out.push(v as u8);
    } else {
        out.push(0xcd);
        out.push((v / 0x100) as u8);
        out.push((v % 0x100) as u8);
    }
    proof {
        assert(out@ =~= pre + uint_encoding(v));
    }
}

fn push_bool(out: &mut Vec<u8>, v: bool)
    ensures
        final(out)@ == old(out)@ + bool_encoding(v),
{
    let ghost pre = out@;
    if v {
        out.push(0xc3);
    } else {
        out.push(0xc2);
    }
    proof {
        assert(out@ =~= pre + bool_encoding(v));
    }
}

/// Serializes one command into its payload bytes.
pub fn encode_message(m: &Message) -> (r: Vec<u8>)
    ensures
        r@ == msg_encoding(*m),
        r@.len() <= 15,
{
    let mut out: Vec<u8> = Vec::new();
    match m {
        Message::OpenIn { id } => {
            out.push(0x81);
            out.push(0xa6);
            out.push(0x4f);
            out.push(0x70);
            out.push(0x65);
            out.push(0x6e);
            out.push(0x49);
            out.push(0x6e);
            out.push(0x91);
            push_uint(&mut out, *id);
        },
        Message::OpenOut { id } => {
            out.push(0x81);
            out.push(0xa7);
            out.push(0x4f);
            out.push(0x70);
            out.push(0x65);
            out.push(0x6e);
            out.push(0x4f);
            out.push(0x75);
            out.push(0x74);
            out.push(0x91);
            push_uint(&mut out, *id);
        },
        Message::RequestIn { id } => {
            out.push(0x81);
            out.push(0xa9);
            out.push(0x52);
            out.push(0x65);
            out.push(0x71);
            out.push(0x75);
            out.push(0x65);
            out.push(0x73);
            out.push(0x74);
            out.push(0x49);
            out.push(0x6e);
            out.push(0x91);
            push_uint(&mut out, *id);
        },
        Message::SetOut { id, val } => {
            out.push(0x81);
            out.push(0xa6);
            out.push(0x53);
            out.push(0x65);
            out.push(0x74);
            out.push(0x4f);
            out.push(0x75);
            out.push(0x74);
            out.push(0x92);
            push_uint(&mut out, *id);
            push_bool(&mut out, *val);
        },
    }
    proof {
        assert(out@ =~= msg_encoding(*m));
    }
    out
}

/// Serializes one response into its payload bytes.
pub fn encode_response(r: &Response) -> (res: Vec<u8>)
    ensures
        res@ == resp_encoding(*r),
        res@.len() <= 15,
{
    let mut out: Vec<u8> = Vec::new();
    match r {
        Response::InValue { id, val } => {
            out.push(0x81);
            out.push(0xa7);
            out.push(0x49);
            out.push(0x6e);
            out.push(0x56);
            out.push(0x61);
            out.push(0x6c);
            out.push(0x75);
            out.push(0x65);
            out.push(0x92);
            push_uint(&mut out, *id);
            push_bool(&mut out, *val);
        },
    }
    proof {
        assert(out@ =~= resp_encoding(*r));
    }
    out
}

fn parse_uint_at(b: &[u8], pos: usize) -> (r: Option<(u16, usize)>)
    ensures
        match r {
            Some((v, end)) => parse_uint(b@, pos as int) == Some((v, end as int)),
            None => parse_uint(b@, pos as int) is None,
        },
{
    if pos < b.len() {
        let m = b[pos];
        if m < 0x80 {
            Some((m as u16, pos + 1))
        } else if m == 0xcc && b.len() - pos >= 2 {
            Some((b[pos + 1] as u16, pos + 2))
        } else if m == 0xcd && b.len() - pos >= 3 {
            Some(((b[pos + 1] as u16) * 0x100 + (b[pos + 2] as u16), pos + 3))
        } else {
            None
        }
    } else {
        None
    }
}

fn parse_bool_at(b: &[u8], pos: usize) -> (r: Option<(bool, usize)>)
    ensures
        match r {
            Some((v, end)) => parse_bool(b@, pos as int) == Some((v, end as int)),
            None => parse_bool(b@, pos as int) is None,
        },
{
    if pos < b.len() {
        if b[pos] == 0xc2 {
            Some((false, pos + 1))
        } else if b[pos] == 0xc3 {
            Some((true, pos + 1))
        } else {
            None
        }
    } else {
        None
    }
}

/// Deserializes one command from a payload. Fails with a `Protocol` error on
/// exactly the payloads that match no known command shape.
pub fn decode_message(payload: &[u8]) -> (r: Result<Message, Error>)
    ensures
        match r {
            Ok(m) => parse_msg(payload@) == Some(m),
            Err(e) => parse_msg(payload@) is None && e == Error::Protocol,
        },
{
    let n = payload.len();
    if n >= 9 && payload[0] == 0x81 && payload[1] == 0xa6 && payload[2] == 0x4f && payload[3]
        == 0x70 && payload[4] == 0x65 && payload[5] == 0x6e && payload[6] == 0x49 && payload[7]
        == 0x6e && payload[8] == 0x91 {
        match parse_uint_at(payload, 9) {
            Some((id, _end)) => Ok(Message::OpenIn { id }),
            None => Err(Error::Protocol),
        }
    } else if n >= 10 && payload[0] == 0x81 && payload[1] == 0xa7 && payload[2] == 0x4f
        && payload[3] == 0x70 && payload[4] == 0x65 && payload[5] == 0x6e && payload[6] == 0x4f
        && payload[7] == 0x75 && payload[8] == 0x74 && payload[9] == 0x91 {
        match parse_uint_at(payload, 10) {
            Some((id, _end)) => Ok(Message::OpenOut { id }),
            None => Err(Error::Protocol),
        }
    } else if n >= 12 && payload[0] == 0x81 && payload[1] == 0xa9 && payload[2] == 0x52
        && payload[3] == 0x65 && payload[4] == 0x71 && payload[5] == 0x75 && payload[6] == 0x65
        && payload[7] == 0x73 && payload[8] == 0x74 && payload[9] == 0x49 && payload[10] == 0x6e
        && payload[11] == 0x91 {
        match parse_uint_at(payload, 12) {
            Some((id, _end)) => Ok(Message::RequestIn { id }),
            None => Err(Error::Protocol),
        }
    } else if n >= 9 && payload[0] == 0x81 && payload[1] == 0xa6 && payload[2] == 0x53
        && payload[3] == 0x65 && payload[4] == 0x74 && payload[5] == 0x4f && payload[6] == 0x75
        && payload[7] == 0x74 && payload[8] == 0x92 {
        match parse_uint_at(payload, 9) {
            Some((id, p)) => match parse_bool_at(payload, p) {
                Some((val, _end)) => Ok(Message::SetOut { id, val }),
                None => Err(Error::Protocol),
            },
            None => Err(Error::Protocol),
        }
    } else {
        Err(Error::Protocol)
    }
}

/// Deserializes one response from a payload. Fails with a `Protocol` error on
/// exactly the payloads that match no known response shape.
pub fn decode_response(payload: &[u8]) -> (r: Result<Response, Error>)
    ensures
        match r {
            Ok(resp) => parse_resp(payload@) == Some(resp),
            Err(e) => parse_resp(payload@) is None && e == Error::Protocol,
        },
{
    let n = payload.len();
    if n >= 10 && payload[0] == 0x81 && payload[1] == 0xa7 && payload[2] == 0x49 && payload[3]
        == 0x6e && payload[4] == 0x56 && payload[5] == 0x61 && payload[6] == 0x6c && payload[7]
        == 0x75 && payload[8] == 0x65 && payload[9] == 0x92 {
        match parse_uint_at(payload, 10) {
            Some((id, p)) => match parse_bool_at(payload, p) {
                Some((val, _end)) => Ok(Response::InValue { id, val }),
                None => Err(Error::Protocol),
            },
            None => Err(Error::Protocol),
        }
    } else {
        Err(Error::Protocol)
    }
}

/// Wraps payload bytes in a frame: two little-endian length bytes, then the
/// payload itself.
pub fn encode_frame(payload: &Vec<u8>) -> (r: Vec<u8>)
    requires
        payload@.len() <= 0xffff,
    ensures
        r@ == frame_encoding(payload@),
{
    let len = payload.len() as u16;
    let mut out: Vec<u8> = Vec::new();
    out.push((len % 0x100) as u8);
    out.push((len / 0x100) as u8);
    out.extend_from_slice(payload.as_slice());
    proof {
        assert(out@ =~= frame_encoding(payload@));
    }
    out
}

/// An integer encoding embedded at `pos` reads back as the integer it
/// encodes.
proof fn lemma_parse_uint_embedded(b: Seq<u8>, pos: int, v: u16)
    requires
        0 <= pos,
        pos + uint_encoding(v).len() <= b.len(),
        b.subrange(pos, pos + uint_encoding(v).len() as int) == uint_encoding(v),
    ensures
        parse_uint(b, pos) == Some((v, pos + uint_encoding(v).len() as int)),
{
    let e = uint_encoding(v);
    let sub = b.subrange(pos, pos + e.len() as int);
    assert(b[pos] == sub[0]);
    if v < 0x80 {
    } else if v < 0x100 {
        assert(b[pos + 1] == sub[1]);
    } else {
        assert(b[pos + 1] == sub[1]);
        assert(b[pos + 2] == sub[2]);
        assert((v / 0x100) * 0x100 + (v % 0x100) == v) by (nonlinear_arith);
    }
}

/// A boolean encoding embedded at `pos` reads back as the boolean it encodes.
proof fn lemma_parse_bool_embedded(b: Seq<u8>, pos: int, v: bool)
    requires
        0 <= pos,
        pos + 1 <= b.len(),
        b.subrange(pos, pos + 1) == bool_encoding(v),
    ensures
        parse_bool(b, pos) == Some((v, pos + 1)),
{
    let sub = b.subrange(pos, pos + 1);
    assert(b[pos] == sub[0]);
}

/// Round trip for commands: every command, once encoded, decodes back to
/// itself.
pub proof fn lemma_msg_round_trip(m: Message)
    ensures
        parse_msg(msg_encoding(m)) == Some(m),
{
    let e = msg_encoding(m);
    match m {
        Message::OpenIn { id } => {
            assert(e.subrange(9, 9 + uint_encoding(id).len() as int) =~= uint_encoding(id));
            lemma_parse_uint_embedded(e, 9, id);
        },
        Message::OpenOut { id } => {
            assert(e.subrange(10, 10 + uint_encoding(id).len() as int) =~= uint_encoding(id));
            lemma_parse_uint_embedded(e, 10, id);
        },
        Message::RequestIn { id } => {
            assert(e.subrange(12, 12 + uint_encoding(id).len() as int) =~= uint_encoding(id));
            lemma_parse_uint_embedded(e, 12, id);
        },
        Message::SetOut { id, val } => {
            let ilen = uint_encoding(id).len() as int;
            assert(e.subrange(9, 9 + ilen) =~= uint_encoding(id));
            lemma_parse_uint_embedded(e, 9, id);
            assert(e.subrange(9 + ilen, 9 + ilen + 1) =~= bool_encoding(val));
            lemma_parse_bool_embedded(e, 9 + ilen, val);
        },
    }
}

/// Round trip for responses: every response, once encoded, decodes back to
/// itself.
pub proof fn lemma_resp_round_trip(r: Response)
    ensures
        parse_resp(resp_encoding(r)) == Some(r),
{
    let e = resp_encoding(r);
    match r {
        Response::InValue { id, val } => {
            let ilen = uint_encoding(id).len() as int;
            assert(e.subrange(10, 10 + ilen) =~= uint_encoding(id));
            lemma_parse_uint_embedded(e, 10, id);
            assert(e.subrange(10 + ilen, 10 + ilen + 1) =~= bool_encoding(val));
            lemma_parse_bool_embedded(e, 10 + ilen, val);
        },
    }
}

/// Framing: the frame of a payload announces exactly the payload's length,
/// and carries the payload unchanged after the two prefix bytes.
pub proof fn lemma_frame_shape(payload: Seq<u8>)
    requires
        payload.len() <= 0xffff,
    ensures
        frame_encoding(payload).len() == 2 + payload.len(),
        prefixed_len(frame_encoding(payload)[0], frame_encoding(payload)[1]) == payload.len(),
        frame_encoding(payload).subrange(2, frame_encoding(payload).len() as int) == payload,
{
    let f = frame_encoding(payload);
    assert((payload.len() % 0x100) + 0x100 * ((payload.len() / 0x100) % 0x100) == payload.len())
        by (nonlinear_arith)
        requires payload.len() <= 0xffff;
    assert(f.subrange(2, f.len() as int) =~= payload);
}

/// Every encoded command payload is short: far below the 16-bit frame limit.
pub proof fn lemma_msg_encoding_len(m: Message)
    ensures
        9 <= msg_encoding(m).len() <= 15,
{
}

/// Every encoded response payload is short: far below the 16-bit frame
/// limit.
pub proof fn lemma_resp_encoding_len(r: Response)
    ensures
        11 <= resp_encoding(r).len() <= 14,
{
}

/// A command's frame, read back by a conformant receiver-side decoder,
/// reproduces the command: the prefix announces exactly the payload's
/// length, and the payload parses to the original command.
pub proof fn lemma_command_frame_round_trip(m: Message)
    ensures
        ({
            let f = frame_encoding(msg_encoding(m));
            &&& f.len() == 2 + msg_encoding(m).len()
            &&& prefixed_len(f[0], f[1]) == msg_encoding(m).len()
            &&& parse_msg(f.subrange(2, f.len() as int)) == Some(m)
        }),
{
    lemma_msg_encoding_len(m);
    lemma_frame_shape(msg_encoding(m));
    lemma_msg_round_trip(m);
}

/// A response's frame, read back by a conformant sender-side decoder,
/// reproduces the response.
pub proof fn lemma_response_frame_round_trip(r: Response)
    ensures
        ({
            let f = frame_encoding(resp_encoding(r));
            &&& f.len() == 2 + resp_encoding(r).len()
            &&& prefixed_len(f[0], f[1]) == resp_encoding(r).len()
            &&& parse_resp(f.subrange(2, f.len() as int)) == Some(r)
        }),
{
    lemma_resp_encoding_len(r);
    lemma_frame_shape(resp_encoding(r));
    lemma_resp_round_trip(r);
}

} // verus!
