//! The receiver side: a fixed-capacity resource cache keyed by pin
//! identifier, and the engine that decodes one frame at a time, dispatches it
//! to the cache and the GPIO capability interface, and buffers responses
//! until they are flushed.

use crate::codec::{
    decode_message, encode_frame, encode_response, frame_encoding, parse_msg, payload_len,
    prefixed_len, resp_encoding,
};
use crate::protocol::{Message, Response};
use crate::{Error, GpioIn, GpioOut, GpioValue, Interface};
use vstd::prelude::*;

verus! {

/// Number of addressable pins: valid identifiers form the closed range
/// `1..=GPIO_COUNT`, and the cache holds one slot per identifier.
pub const GPIO_COUNT: u16 = 40;

/// Whether `id` addresses a cache slot.
pub open spec fn id_in_range(id: u16) -> bool {
    1 <= id <= GPIO_COUNT
}

/// The pin identifier a command carries.
pub open spec fn msg_id(m: Message) -> u16 {
    match m {
        Message::OpenIn { id } => id,
        Message::OpenOut { id } => id,
        Message::RequestIn { id } => id,
        Message::SetOut { id, val: _ } => id,
    }
}

/// The pin identifier a response carries.
pub open spec fn resp_id(r: Response) -> u16 {
    match r {
        Response::InValue { id, val: _ } => id,
    }
}

/// A fixed table of one slot per pin identifier; identifier `id` addresses
/// slot `id - 1`. Every slot is explicitly initialized.
#[derive(Debug)]
pub struct GPIOBuf<T> {
    buf: Vec<T>,
}

impl<T> View for GPIOBuf<T> {
    type V = Seq<T>;

    closed spec fn view(&self) -> Seq<T> {
        self.buf@
    }
}

impl<T> GPIOBuf<T> {
    /// Well-formed: exactly one slot per addressable pin identifier.
    pub open spec fn wf(self) -> bool {
        self@.len() == GPIO_COUNT as int
    }

    /// The slot for `id`, or `IDOutOfBounds` for an identifier outside the
    /// addressable range.
    pub fn index(&self, id: u16) -> (r: Result<&T, Error>)
        requires
            self.wf(),
        ensures
            id_in_range(id) <==> r is Ok,
            r matches Ok(v) ==> *v == self@[id - 1],
            r matches Err(e) ==> e == Error::IDOutOfBounds,
    {
        if 1 <= id && id <= GPIO_COUNT {
            Ok(&self.buf[(id - 1) as usize])
        } else {
            Err(Error::IDOutOfBounds)
        }
    }

    /// Stores `val` in the slot for `id`, or fails with `IDOutOfBounds` and
    /// leaves the table unchanged.
    pub fn index_set(&mut self, id: u16, val: T) -> (r: Result<(), Error>)
        requires
            old(self).wf(),
        ensures
            final(self).wf(),
            id_in_range(id) <==> r is Ok,
            r is Ok ==> final(self)@ == old(self)@.update(id - 1, val),
            r is Err ==> final(self)@ == old(self)@ && r == Err::<(), Error>(
                Error::IDOutOfBounds,
            ),
    {
        if 1 <= id && id <= GPIO_COUNT {
            let idx = (id - 1) as usize;
            let slot = &mut self.buf[idx];
            *slot = val;
            proof {
                assert(self.buf@ =~= old(self)@.update(id - 1, val));
            }
            Ok(())
        } else {
            Err(Error::IDOutOfBounds)
        }
    }
}

impl<T> Default for GPIOBuf<Option<T>> {
    /// A table with every slot empty.
    fn default() -> (r: Self)
        ensures
            r.wf(),
            forall|j: int| 0 <= j < GPIO_COUNT as int ==> r@[j] is None,
    {
        let mut buf: Vec<Option<T>> = Vec::new();
        let mut k: u16 = 0;
        while k < GPIO_COUNT
            invariant
                k <= GPIO_COUNT,
                buf@.len() == k as int,
                forall|j: int| 0 <= j < k as int ==> buf@[j] is None,
            decreases GPIO_COUNT - k,
        {
            buf.push(None);
            k = k + 1;
        }
        GPIOBuf { buf }
    }
}

/// The receiver engine: the input and output caches, the pending response
/// queue, and the injected GPIO capability interface. One instance owns its
/// caches and queue exclusively for its lifetime.
pub struct Receiver<I: Interface> {
    buf_in: GPIOBuf<Option<<I as Interface>::In>>,
    buf_out: GPIOBuf<Option<<I as Interface>::Out>>,
    resp_buf: Vec<Response>,
    i: I,
}

impl<I: Interface> Receiver<I> {
    /// The input cache: slot `id - 1` holds the opened input handle for pin
    /// `id`, if any.
    pub closed spec fn ins(self) -> Seq<Option<<I as Interface>::In>> {
        self.buf_in@
    }

    /// The output cache.
    pub closed spec fn outs(self) -> Seq<Option<<I as Interface>::Out>> {
        self.buf_out@
    }

    /// The pending response queue, in insertion order.
    pub closed spec fn pending(self) -> Seq<Response> {
        self.resp_buf@
    }

    /// The injected GPIO capability interface instance.
    pub closed spec fn iface(self) -> I {
        self.i
    }

    /// Well-formed: both caches hold one slot per addressable identifier.
    pub open spec fn wf(self) -> bool {
        self.ins().len() == GPIO_COUNT as int && self.outs().len() == GPIO_COUNT as int
    }

    /// A fresh engine: both caches empty, no pending responses.
    pub fn new(i: I) -> (r: Receiver<I>)
        ensures
            r.wf(),
            r.pending().len() == 0,
            forall|j: int| 0 <= j < GPIO_COUNT as int ==> r.ins()[j] is None,
            forall|j: int| 0 <= j < GPIO_COUNT as int ==> r.outs()[j] is None,
            r.iface() == i,
    {
        Receiver {
            buf_in: Default::default(),
            buf_out: Default::default(),
            resp_buf: Vec::new(),
            i,
        }
    }
}

/// What dispatching `OpenIn { id }` does. An identifier out of range changes
/// nothing and is refused; a pin already cached leaves the whole engine —
/// slot, caches, queue and interface — exactly as it was; otherwise the
/// interface is asked once, and on success the new handle fills the slot,
/// while on failure the slot stays empty.
pub open spec fn open_in_post<I: Interface>(
    pre: Receiver<I>,
    post: Receiver<I>,
    id: u16,
    r: Result<(), Error>,
) -> bool {
    if !id_in_range(id) {
        post == pre && r == Err::<(), Error>(Error::IDOutOfBounds)
    } else if pre.ins()[id - 1] is Some {
        post == pre && r is Ok
    } else {
        &&& post.outs() == pre.outs()
        &&& post.pending() == pre.pending()
        &&& post.ins().len() == pre.ins().len()
        &&& forall|j: int|
            0 <= j < pre.ins().len() && j != id - 1 ==> post.ins()[j] == pre.ins()[j]
        &&& r is Ok ==> post.ins()[id - 1] is Some
        &&& r is Err ==> post.ins()[id - 1] is None
    }
}

/// What dispatching `OpenOut { id }` does; the mirror of `open_in_post`.
pub open spec fn open_out_post<I: Interface>(
    pre: Receiver<I>,
    post: Receiver<I>,
    id: u16,
    r: Result<(), Error>,
) -> bool {
    if !id_in_range(id) {
        post == pre && r == Err::<(), Error>(Error::IDOutOfBounds)
    } else if pre.outs()[id - 1] is Some {
        post == pre && r is Ok
    } else {
        &&& post.ins() == pre.ins()
        &&& post.pending() == pre.pending()
        &&& post.outs().len() == pre.outs().len()
        &&& forall|j: int|
            0 <= j < pre.outs().len() && j != id - 1 ==> post.outs()[j] == pre.outs()[j]
        &&& r is Ok ==> post.outs()[id - 1] is Some
        &&& r is Err ==> post.outs()[id - 1] is None
    }
}

/// What dispatching `RequestIn { id }` does. An unopened pin is tolerated:
/// nothing changes and no error is raised. An opened pin is read through its
/// cached handle — the interface instance itself is not touched — and on
/// success exactly one `InValue` response for `id` is appended to the queue.
pub open spec fn request_in_post<I: Interface>(
    pre: Receiver<I>,
    post: Receiver<I>,
    id: u16,
    r: Result<(), Error>,
) -> bool {
    if !id_in_range(id) {
        post == pre && r == Err::<(), Error>(Error::IDOutOfBounds)
    } else if pre.ins()[id - 1] is None {
        post == pre && r is Ok
    } else {
        &&& post.outs() == pre.outs()
        &&& post.iface() == pre.iface()
        &&& post.ins().len() == pre.ins().len()
        &&& post.ins()[id - 1] is Some
        &&& forall|j: int|
            0 <= j < pre.ins().len() && j != id - 1 ==> post.ins()[j] == pre.ins()[j]
        &&& r is Ok ==> post.pending().len() == pre.pending().len() + 1 && post.pending()
            == pre.pending().push(post.pending().last()) && resp_id(post.pending().last()) == id
        &&& r is Err ==> post.pending() == pre.pending()
    }
}

/// What dispatching `SetOut { id, val }` does. An unopened pin is tolerated:
/// nothing changes and no error is raised. An opened pin is driven through
/// its cached handle; no response is ever produced.
pub open spec fn set_out_post<I: Interface>(
    pre: Receiver<I>,
    post: Receiver<I>,
    id: u16,
    r: Result<(), Error>,
) -> bool {
    if !id_in_range(id) {
        post == pre && r == Err::<(), Error>(Error::IDOutOfBounds)
    } else if pre.outs()[id - 1] is None {
        post == pre && r is Ok
    } else {
        &&& post.ins() == pre.ins()
        &&& post.iface() == pre.iface()
        &&& post.pending() == pre.pending()
        &&& post.outs().len() == pre.outs().len()
        &&& post.outs()[id - 1] is Some
        &&& forall|j: int|
            0 <= j < pre.outs().len() && j != id - 1 ==> post.outs()[j] == pre.outs()[j]
    }
}

/// What dispatching one command does, by variant.
pub open spec fn dispatch_post<I: Interface>(
    pre: Receiver<I>,
    post: Receiver<I>,
    msg: Message,
    r: Result<(), Error>,
) -> bool {
    match msg {
        Message::OpenIn { id } => open_in_post(pre, post, id, r),
        Message::OpenOut { id } => open_out_post(pre, post, id, r),
        Message::RequestIn { id } => request_in_post(pre, post, id, r),
        Message::SetOut { id, val: _ } => set_out_post(pre, post, id, r),
    }
}

/// What processing one frame from the head of `bytes` does: fewer than the
/// prefix plus the announced payload is a short read (`IO`); a payload of no
/// known shape is a `Protocol` error; otherwise the decoded command is
/// dispatched and, on success, exactly the frame's `2 + L` bytes are
/// consumed.
pub open spec fn execute_post<I: Interface>(
    pre: Receiver<I>,
    post: Receiver<I>,
    bytes: Seq<u8>,
    r: Result<usize, Error>,
) -> bool {
    if bytes.len() < 2 {
        r == Err::<usize, Error>(Error::IO) && post == pre
    } else {
        let plen = prefixed_len(bytes[0], bytes[1]);
        if bytes.len() < 2 + plen {
            r == Err::<usize, Error>(Error::IO) && post == pre
        } else {
            match parse_msg(bytes.subrange(2, 2 + plen)) {
                None => r == Err::<usize, Error>(Error::Protocol) && post == pre,
                Some(m) => match r {
                    Ok(n) => n == 2 + plen && dispatch_post(pre, post, m, Ok(())),
                    Err(e) => dispatch_post(pre, post, m, Err(e)),
                },
            }
        }
    }
}

/// The byte image of a pending queue: each response framed, in queue order.
pub open spec fn frames_of(rs: Seq<Response>) -> Seq<u8>
    decreases rs.len(),
{
    if rs.len() == 0 {
        Seq::empty()
    } else {
        frames_of(rs.drop_last()) + frame_encoding(resp_encoding(rs.last()))
    }
}

impl<I: Interface> Receiver<I> {
    /// The injected interface instance, for the host or a test to observe.
    pub fn interface(&self) -> (r: &I)
        ensures
            *r == self.iface(),
    {
        &self.i
    }

    /// The cached input slot for `id`, for the host or a test to observe.
    pub fn input(&self, id: u16) -> (r: Result<&Option<<I as Interface>::In>, Error>)
        requires
            self.wf(),
        ensures
            id_in_range(id) <==> r is Ok,
            r matches Ok(v) ==> *v == self.ins()[id - 1],
            r matches Err(e) ==> e == Error::IDOutOfBounds,
    {
        self.buf_in.index(id)
    }

    /// The cached output slot for `id`, for the host or a test to observe.
    pub fn output(&self, id: u16) -> (r: Result<&Option<<I as Interface>::Out>, Error>)
        requires
            self.wf(),
        ensures
            id_in_range(id) <==> r is Ok,
            r matches Ok(v) ==> *v == self.outs()[id - 1],
            r matches Err(e) ==> e == Error::IDOutOfBounds,
    {
        self.buf_out.index(id)
    }

    /// Dispatches one already decoded command.
    pub fn handle(&mut self, msg: Message) -> (r: Result<(), Error>)
        requires
            old(self).wf(),
        ensures
            final(self).wf(),
            dispatch_post(*old(self), *final(self), msg, r),
    {
        match msg {
            Message::OpenIn { id } => {
                if !(1 <= id && id <= GPIO_COUNT) {
                    return Err(Error::IDOutOfBounds);
                }
                let idx = (id - 1) as usize;
                if self.buf_in.buf[idx].is_some() {
                    // already cached: a benign repeat, reported by the host's
                    // side channel; the handle is never re-opened or replaced
                    Ok(())
                } else {
                    match self.i.open_in(id) {
                        Ok(handle) => {
                            let _ = self.buf_in.index_set(id, Some(handle));
                            Ok(())
                        },
                        Err(e) => Err(e),
                    }
                }
            },
            Message::OpenOut { id } => {
                if !(1 <= id && id <= GPIO_COUNT) {
                    return Err(Error::IDOutOfBounds);
                }
                let idx = (id - 1) as usize;
                if self.buf_out.buf[idx].is_some() {
                    Ok(())
                } else {
                    match self.i.open_out(id) {
                        Ok(handle) => {
                            let _ = self.buf_out.index_set(id, Some(handle));
                            Ok(())
                        },
                        Err(e) => Err(e),
                    }
                }
            },
            Message::RequestIn { id } => {
                if !(1 <= id && id <= GPIO_COUNT) {
                    return Err(Error::IDOutOfBounds);
                }
                let idx = (id - 1) as usize;
                if self.buf_in.buf[idx].is_none() {
                    // requested value of an unopened pin: a caller ordering
                    // slip, tolerated so the engine stays live
                    return Ok(());
                }
                let read: Result<GpioValue, Error> = match &mut self.buf_in.buf[idx] {
                    Some(h) => h.read_value(),
                    None => vstd::pervasive::unreached(),
                };
                match read {
                    Ok(v) => {
                        self.resp_buf.push(Response::InValue { id, val: v.as_bool() });
                        Ok(())
                    },
                    Err(e) => Err(e),
                }
            },
            Message::SetOut { id, val } => {
                if !(1 <= id && id <= GPIO_COUNT) {
                    return Err(Error::IDOutOfBounds);
                }
                let idx = (id - 1) as usize;
                if self.buf_out.buf[idx].is_none() {
                    // driving an unopened pin: tolerated as above
                    return Ok(());
                }
                let set: Result<(), Error> = match &mut self.buf_out.buf[idx] {
                    Some(h) => h.set(GpioValue::from_bool(val)),
                    None => vstd::pervasive::unreached(),
                };
                match set {
                    Ok(()) => Ok(()),
                    Err(e) => Err(e),
                }
            },
        }
    }

    /// Decodes exactly one frame from the head of `bytes` and dispatches the
    /// command it carries. On success the result is the number of bytes
    /// consumed: the two prefix bytes plus the announced payload length,
    /// never more, never less.
    pub fn execute(&mut self, bytes: &[u8]) -> (r: Result<usize, Error>)
        requires
            old(self).wf(),
        ensures
            final(self).wf(),
            execute_post(*old(self), *final(self), bytes@, r),
    {
        if bytes.len() < 2 {
            return Err(Error::IO);
        }
        let plen = payload_len(bytes[0], bytes[1]) as usize;
        if bytes.len() - 2 < plen {
            return Err(Error::IO);
        }
        let payload = vstd::slice::slice_subrange(bytes, 2, 2 + plen);
        let msg = match decode_message(payload) {
            Ok(m) => m,
            Err(e) => {
                return Err(e);
            },
        };
        match self.handle(msg) {
            Ok(()) => Ok(2 + plen),
            Err(e) => Err(e),
        }
    }

    /// Encodes every pending response as a frame, in insertion order, clears
    /// the queue, and hands the bytes back for the host to write.
    pub fn execute_write(&mut self) -> (r: Vec<u8>)
        requires
            old(self).wf(),
        ensures
            final(self).wf(),
            r@ == frames_of(old(self).pending()),
            final(self).pending().len() == 0,
            final(self).ins() == old(self).ins(),
            final(self).outs() == old(self).outs(),
            final(self).iface() == old(self).iface(),
    {
        let mut out: Vec<u8> = Vec::new();
        let mut k: usize = 0;
        while k < self.resp_buf.len()
            invariant
                *self == *old(self),
                old(self).wf(),
                k <= self.resp_buf@.len(),
                out@ == frames_of(self.resp_buf@.take(k as int)),
            decreases self.resp_buf@.len() - k,
        {
            let resp = self.resp_buf[k];
            let payload = encode_response(&resp);
            let frame = encode_frame(&payload);
            out.extend_from_slice(frame.as_slice());
            proof {
                let rs = self.resp_buf@;
                assert(rs.take(k as int + 1).drop_last() =~= rs.take(k as int));
                assert(rs.take(k as int + 1).last() == rs[k as int]);
                assert(out@ =~= frames_of(rs.take(k as int + 1)));
            }
            k = k + 1;
        }
        proof {
            assert(self.resp_buf@.take(self.resp_buf@.len() as int) =~= self.resp_buf@);
        }
        self.resp_buf.clear();
        out
    }
}

/// Open-once: a command that opens an already cached pin succeeds and leaves
/// the whole engine — both caches, the queue and the hardware interface
/// instance — exactly as it was, so no second hardware open happens and the
/// cached handle's identity is unchanged.
pub proof fn lemma_open_once<I: Interface>(
    pre: Receiver<I>,
    post: Receiver<I>,
    id: u16,
    r: Result<(), Error>,
)
    requires
        id_in_range(id),
        pre.ins()[id - 1] is Some,
        dispatch_post(pre, post, Message::OpenIn { id }, r),
    ensures
        post == pre,
        r is Ok,
{
}

/// Bounds: a command whose identifier lies outside the addressable range
/// fails with `IDOutOfBounds` and causes no change at all — in particular no
/// hardware interaction, since the interface instance is part of the state.
pub proof fn lemma_out_of_bounds<I: Interface>(
    pre: Receiver<I>,
    post: Receiver<I>,
    msg: Message,
    r: Result<(), Error>,
)
    requires
        !id_in_range(msg_id(msg)),
        dispatch_post(pre, post, msg, r),
    ensures
        post == pre,
        r == Err::<(), Error>(Error::IDOutOfBounds),
{
}

/// Missing-entry tolerance: asking for the value of an unopened input
/// produces no response, no error, and no change of engine state.
pub proof fn lemma_missing_in<I: Interface>(
    pre: Receiver<I>,
    post: Receiver<I>,
    id: u16,
    r: Result<(), Error>,
)
    requires
        id_in_range(id),
        pre.ins()[id - 1] is None,
        dispatch_post(pre, post, Message::RequestIn { id }, r),
    ensures
        post == pre,
        r is Ok,
{
}

/// Missing-entry tolerance: driving an unopened output produces no response,
/// no error, and no change of engine state.
pub proof fn lemma_missing_out<I: Interface>(
    pre: Receiver<I>,
    post: Receiver<I>,
    id: u16,
    val: bool,
    r: Result<(), Error>,
)
    requires
        id_in_range(id),
        pre.outs()[id - 1] is None,
        dispatch_post(pre, post, Message::SetOut { id, val }, r),
    ensures
        post == pre,
        r is Ok,
{
}

/// A frame the sender produced for a command, handed whole to `execute`,
/// decodes back to exactly that command: the engine dispatches it, and on
/// success consumes exactly the frame's bytes. Any error is the dispatch's
/// own, never a framing or decoding failure.
pub proof fn lemma_execute_sent_frame<I: Interface>(
    pre: Receiver<I>,
    post: Receiver<I>,
    m: Message,
    r: Result<usize, Error>,
)
    requires
        execute_post(pre, post, frame_encoding(crate::codec::msg_encoding(m)), r),
    ensures
        match r {
            Ok(n) => n == frame_encoding(crate::codec::msg_encoding(m)).len() && dispatch_post(
                pre,
                post,
                m,
                Ok(()),
            ),
            Err(e) => dispatch_post(pre, post, m, Err(e)),
        },
{
    crate::codec::lemma_command_frame_round_trip(m);
    let f = frame_encoding(crate::codec::msg_encoding(m));
    assert(f.subrange(2, 2 + prefixed_len(f[0], f[1])) == f.subrange(2, f.len() as int));
}

/// Ordering: after opening input `id` and asking for its value twice, the
/// pending queue holds exactly the two readings of `id`, in request order,
/// and the flushed byte image frames them in that same order.
pub proof fn lemma_request_ordering<I: Interface>(
    s0: Receiver<I>,
    s1: Receiver<I>,
    s2: Receiver<I>,
    s3: Receiver<I>,
    id: u16,
)
    requires
        s0.wf(),
        s0.pending().len() == 0,
        id_in_range(id),
        dispatch_post(s0, s1, Message::OpenIn { id }, Ok(())),
        dispatch_post(s1, s2, Message::RequestIn { id }, Ok(())),
        dispatch_post(s2, s3, Message::RequestIn { id }, Ok(())),
    ensures
        s3.pending().len() == 2,
        resp_id(s3.pending()[0]) == id,
        resp_id(s3.pending()[1]) == id,
        frames_of(s3.pending()) == frame_encoding(resp_encoding(s3.pending()[0]))
            + frame_encoding(resp_encoding(s3.pending()[1])),
{
    assert(s1.ins()[id - 1] is Some);
    assert(s2.pending().len() == 1);
    assert(s3.pending().len() == 2);
    assert(s3.pending()[1] == s3.pending().last());
    assert(s2.pending()[0] == s2.pending().last());
    assert(s3.pending()[0] == s2.pending()[0]);
    let rs = s3.pending();
    assert(rs.drop_last().drop_last() =~= Seq::<Response>::empty());
    assert(rs.drop_last().last() == rs[0]);
    assert(frames_of(rs.drop_last()) == frames_of(rs.drop_last().drop_last()) + frame_encoding(
        resp_encoding(rs.drop_last().last()),
    ));
    assert(Seq::<u8>::empty() + frame_encoding(resp_encoding(rs[0])) =~= frame_encoding(
        resp_encoding(rs[0]),
    ));
}

} // verus!
