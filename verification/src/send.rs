//! The sender side: a client that encodes outbound commands as frames into a
//! write-out buffer for the host to put on the stream, and decodes the
//! response frames that come back. The client keeps no cache and does no
//! correlation between a sent command and a later response: matching is the
//! caller's responsibility, by order alone.

use crate::codec::{encode_frame, encode_message, frame_encoding, msg_encoding, parse_resp,
    payload_len, prefixed_len};
use crate::protocol::{Message, Response};
use crate::{Error, GpioValue};
use vstd::prelude::*;

verus! {

/// What reading one response frame from the head of `bytes` yields: fewer
/// bytes than the prefix plus the announced payload length is a short read
/// (`IO`); a payload of no known shape is a `Protocol` error; otherwise the
/// decoded response together with the `2 + L` bytes the frame occupies.
pub open spec fn check_resp_post(bytes: Seq<u8>, r: Result<(Response, usize), Error>) -> bool {
    if bytes.len() < 2 {
        r == Err::<(Response, usize), Error>(Error::IO)
    } else {
        let plen = prefixed_len(bytes[0], bytes[1]);
        if bytes.len() < 2 + plen {
            r == Err::<(Response, usize), Error>(Error::IO)
        } else {
            match parse_resp(bytes.subrange(2, 2 + plen)) {
                None => r == Err::<(Response, usize), Error>(Error::Protocol),
                Some(resp) => r matches Ok((got, n)) && got == resp && n == 2 + plen,
            }
        }
    }
}

/// The sender client. `w` is the write-out buffer standing in for the output
/// stream: each encode operation appends exactly one frame to it, and the
/// host takes the bytes and writes them on.
#[derive(Debug)]
pub struct Sender {
    w: Vec<u8>,
}

impl Sender {
    /// The bytes encoded since the host last took them.
    pub closed spec fn buffered(self) -> Seq<u8> {
        self.w@
    }

    /// A client with an empty write-out buffer.
    pub fn new() -> (r: Sender)
        ensures
            r.buffered().len() == 0,
    {
        Sender { w: Vec::new() }
    }

    fn put_message(&mut self, msg: Message)
        ensures
            final(self).buffered() == old(self).buffered() + frame_encoding(msg_encoding(msg)),
    {
        let payload = encode_message(&msg);
        let frame = encode_frame(&payload);
        self.w.extend_from_slice(frame.as_slice());
        proof {
            assert(self.w@ =~= old(self).w@ + frame_encoding(msg_encoding(msg)));
        }
    }

    /// Appends one frame asking that pin `id` be opened as an input.
    pub fn open_in(&mut self, id: u16)
        ensures
            final(self).buffered() == old(self).buffered() + frame_encoding(
                msg_encoding(Message::OpenIn { id }),
            ),
    {
        self.put_message(Message::OpenIn { id });
    }

    /// Appends one frame asking that pin `id` be opened as an output.
    pub fn open_out(&mut self, id: u16)
        ensures
            final(self).buffered() == old(self).buffered() + frame_encoding(
                msg_encoding(Message::OpenOut { id }),
            ),
    {
        self.put_message(Message::OpenOut { id });
    }

    /// Appends one frame asking for the logic level of input `id`.
    pub fn request_in(&mut self, id: u16)
        ensures
            final(self).buffered() == old(self).buffered() + frame_encoding(
                msg_encoding(Message::RequestIn { id }),
            ),
    {
        self.put_message(Message::RequestIn { id });
    }

    /// Appends one frame asking that output `id` be driven to `val`.
    pub fn set_out(&mut self, id: u16, val: GpioValue)
        ensures
            final(self).buffered() == old(self).buffered() + frame_encoding(
                msg_encoding(Message::SetOut { id, val: val is High }),
            ),
    {
        let v = val.as_bool();
        self.put_message(Message::SetOut { id, val: v });
    }

    /// Hands the buffered bytes to the host for writing, leaving the buffer
    /// empty.
    pub fn take_bytes(&mut self) -> (r: Vec<u8>)
        ensures
            r@ == old(self).buffered(),
            final(self).buffered().len() == 0,
    {
        let mut out: Vec<u8> = Vec::new();
        core::mem::swap(&mut out, &mut self.w);
        out
    }

    /// Reads one response frame from the head of `bytes`: the decoded
    /// response and the number of bytes the frame occupies, exactly the two
    /// prefix bytes plus the announced payload length.
    pub fn check_for_resp(&self, bytes: &[u8]) -> (r: Result<(Response, usize), Error>)
        ensures
            check_resp_post(bytes@, r),
    {
        if bytes.len() < 2 {
            return Err(Error::IO);
        }
        let plen = payload_len(bytes[0], bytes[1]) as usize;
        if bytes.len() - 2 < plen {
            return Err(Error::IO);
        }
        let payload = vstd::slice::slice_subrange(bytes, 2, 2 + plen);
        match crate::codec::decode_response(payload) {
            Ok(resp) => Ok((resp, 2 + plen)),
            Err(e) => Err(e),
        }
    }
}

} // verus!
