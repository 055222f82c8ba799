//! Length-prefixed framing over a raw duplex byte channel.
//!
//! A message on the wire is its length as eight little-endian bytes followed
//! by the payload. The channel only promises that a transfer moves some
//! bytes, possibly fewer than asked for, and that it may be interrupted.
//! [`FrameSender`] and [`FrameReceiver`] keep track of how far a message has
//! got; the caller performs the raw transfers and reports each outcome.

use byteorder::{ByteOrder, LittleEndian};
use vstd::bytes::{
    lemma_auto_spec_u64_to_from_le_bytes, spec_u64_from_le_bytes, spec_u64_to_le_bytes,
};
use vstd::prelude::*;
use vstd::slice::slice_subrange;

verus! {

/// Number of bytes in the length field that precedes every payload.
pub const LENGTH_FIELD_SIZE: usize = 8;

/// Why a message could not be moved across the channel.
#[derive(Debug, Clone, Copy, PartialEq, Eq)]
pub enum TransportError {
    /// A read made no progress without being interrupted: the peer has
    /// closed the channel.
    Closed,
    /// The channel reported the given error code.
    Io(i32),
}

/// What one raw write on the channel reported.
#[derive(Debug, Clone, Copy, PartialEq, Eq)]
pub enum WriteOutcome {
    /// The channel accepted this many of the bytes offered to it.
    Wrote(usize),
    /// The call was interrupted by a signal before anything was written.
    Interrupted,
    /// The call failed with the given error code.
    Failed(i32),
}

/// What one raw read on the channel reported.
#[derive(Debug, Clone, Copy)]
pub enum ReadOutcome<'a> {
    /// The channel delivered these bytes, in order.
    Data(&'a [u8]),
    /// The call was interrupted by a signal before anything was read.
    Interrupted,
    /// The call failed with the given error code.
    Failed(i32),
}

/// The bytes that stand on the wire for one message.
pub open spec fn frame_of(payload: Seq<u8>) -> Seq<u8> {
    spec_u64_to_le_bytes(payload.len() as u64) + payload
}

/// Splits a byte stream into its first message and what follows it, or
/// `None` while the stream does not yet hold a whole message.
pub open spec fn parse_frame(wire: Seq<u8>) -> Option<(Seq<u8>, Seq<u8>)> {
    if wire.len() < 8 {
        None
    } else {
        let n = spec_u64_from_le_bytes(wire.subrange(0, 8)) as int;
        if wire.len() < 8 + n {
            None
        } else {
            Some((wire.subrange(8, 8 + n), wire.subrange(8 + n, wire.len() as int)))
        }
    }
}

/// Whether `part` is what `whole` starts with.
pub open spec fn starts(whole: Seq<u8>, part: Seq<u8>) -> bool {
    part.len() <= whole.len() && whole.subrange(0, part.len() as int) == part
}

/// What a sender answers to the outcome of a raw write: only a failure
/// other than an interrupt is an error.
pub open spec fn write_result(outcome: WriteOutcome) -> Result<(), TransportError> {
    match outcome {
        WriteOutcome::Wrote(_) => Ok(()),
        WriteOutcome::Interrupted => Ok(()),
        WriteOutcome::Failed(code) => Err(TransportError::Io(code)),
    }
}

/// Where a sender stands in its frame after a raw write: further by the
/// bytes that were accepted, and where it was after an interrupt or a
/// failure.
pub open spec fn position_after(sent: nat, outcome: WriteOutcome) -> nat {
    match outcome {
        WriteOutcome::Wrote(n) => sent + n as nat,
        WriteOutcome::Interrupted => sent,
        WriteOutcome::Failed(_) => sent,
    }
}

/// What a receiver that has consumed `consumed` answers to the outcome of a
/// raw read, and what it has consumed afterwards. Delivered bytes are
/// appended. A read that delivers nothing while the message is incomplete
/// means that the peer has closed the channel.
pub open spec fn read_result(consumed: Seq<u8>, outcome: ReadOutcome<'_>) -> (
    Result<(), TransportError>,
    Seq<u8>,
) {
    match outcome {
        ReadOutcome::Data(chunk) => if chunk@.len() == 0 && parse_frame(consumed) is None {
            (Err(TransportError::Closed), consumed)
        } else {
            (Ok(()), consumed + chunk@)
        },
        ReadOutcome::Interrupted => (Ok(()), consumed),
        ReadOutcome::Failed(code) => (Err(TransportError::Io(code)), consumed),
    }
}

/// A number of missing bytes as a `usize` can say it.
pub open spec fn clamped(missing: int) -> int {
    if missing <= usize::MAX {
        missing
    } else {
        usize::MAX as int
    }
}

/// `byteorder::LittleEndian::write_u64` on a fresh buffer of eight bytes.
/// Trusted: the buffer then holds `n` in little-endian order, least
/// significant byte first.
#[verifier::external_body]
fn length_to_bytes(n: u64) -> (r: Vec<u8>)
    ensures
        r@ == spec_u64_to_le_bytes(n),
{
    let mut buf = vec![0u8; 8];
    LittleEndian::write_u64(&mut buf, n);
    buf
}

/// `byteorder::LittleEndian::read_u64`. Trusted: the result is the number
/// whose little-endian bytes are the eight bytes of `buf`. The outside
/// function panics on a shorter buffer, which `requires` leaves out.
#[verifier::external_body]
fn length_from_bytes(buf: &[u8]) -> (r: u64)
    requires
        buf@.len() == 8,
    ensures
        r == spec_u64_from_le_bytes(buf@),
{
    LittleEndian::read_u64(buf)
}

/// Progress of one outgoing message.
pub struct FrameSender<'a> {
    header: Vec<u8>,
    payload: &'a [u8],
    header_sent: usize,
    payload_sent: usize,
}

impl<'a> FrameSender<'a> {
    /// The payload being sent.
    pub closed spec fn payload(&self) -> Seq<u8> {
        self.payload@
    }

    /// How many bytes of the frame the channel has accepted so far.
    pub closed spec fn sent(&self) -> nat {
        (self.header_sent + self.payload_sent) as nat
    }

    /// The invariant of a sender: the header encodes the payload's length,
    /// and the payload is not started before the header is through.
    pub closed spec fn wf(&self) -> bool {
        &&& self.header@ == spec_u64_to_le_bytes(self.payload@.len() as u64)
        &&& self.header@.len() == 8
        &&& self.payload@.len() <= u64::MAX
        &&& self.header_sent <= 8
        &&& self.payload_sent <= self.payload@.len()
        &&& self.header_sent < 8 ==> self.payload_sent == 0
    }

    /// All the bytes this sender has to put on the wire.
    pub open spec fn frame(&self) -> Seq<u8> {
        frame_of(self.payload())
    }

    /// The bytes that the channel has accepted so far.
    pub open spec fn emitted(&self) -> Seq<u8> {
        self.frame().subrange(0, self.sent() as int)
    }

    /// How many bytes are left in the segment being sent: the rest of the
    /// length field, or, after it, the rest of the payload.
    pub open spec fn pending_len(&self) -> nat {
        if self.sent() < 8 {
            (8 - self.sent()) as nat
        } else {
            (self.frame().len() - self.sent()) as nat
        }
    }

    /// Whether the whole frame has been accepted by the channel.
    pub open spec fn done(&self) -> bool {
        self.sent() == self.frame().len()
    }

    /// A well-formed sender stands inside its frame, which is eight bytes
    /// longer than the payload.
    pub proof fn lemma_position_in_frame(&self)
        requires
            self.wf(),
        ensures
            self.frame().len() == 8 + self.payload().len(),
            self.sent() <= self.frame().len(),
            self.sent() + self.pending_len() <= self.frame().len(),
            self.pending_len() == 0 <==> self.done(),
    {
    }

    /// Starts sending `buffer`: nothing has been written yet.
    pub fn new(buffer: &'a [u8]) -> (s: Self)
        ensures
            s.wf(),
            s.payload() == buffer@,
            s.sent() == 0,
    {
        proof {
            lemma_auto_spec_u64_to_from_le_bytes();
        }
        FrameSender {
            header: length_to_bytes(buffer.len() as u64),
            payload: buffer,
            header_sent: 0,
            payload_sent: 0,
        }
    }

    /// The bytes to offer to the channel in the next raw write: what is left
    /// of the current segment. Empty exactly when the message is through.
    pub fn pending(&self) -> (r: &[u8])
        requires
            self.wf(),
        ensures
            r@.len() == self.pending_len(),
            self.sent() + r@.len() <= self.frame().len(),
            r@ == self.frame().subrange(self.sent() as int, (self.sent() + r@.len()) as int),
            r@.len() == 0 <==> self.done(),
    {
        if self.header_sent < LENGTH_FIELD_SIZE {
            let r = slice_subrange(self.header.as_slice(), self.header_sent, LENGTH_FIELD_SIZE);
            assert(r@ =~= self.frame().subrange(
                self.sent() as int,
                (self.sent() + r@.len()) as int,
            ));
            r
        } else {
            let r = slice_subrange(self.payload, self.payload_sent, self.payload.len());
            assert(r@ =~= self.frame().subrange(
                self.sent() as int,
                (self.sent() + r@.len()) as int,
            ));
            r
        }
    }

    /// Whether the whole frame has been accepted by the channel.
    pub fn is_done(&self) -> (r: bool)
        requires
            self.wf(),
        ensures
            r == self.done(),
    {
        self.header_sent == LENGTH_FIELD_SIZE && self.payload_sent == self.payload.len()
    }

    /// Takes note of what the last raw write of [`Self::pending`] reported.
    ///
    /// Accepted bytes move the position forward by their number, be it zero.
    /// An interrupted call counts as zero bytes and is no error. Any other
    /// failure is returned and leaves the position where it was.
    pub fn advance(&mut self, outcome: WriteOutcome) -> (r: Result<(), TransportError>)
        requires
            old(self).wf(),
            outcome matches WriteOutcome::Wrote(n) ==> n <= old(self).pending_len(),
        ensures
            final(self).wf(),
            final(self).payload() == old(self).payload(),
            starts(final(self).emitted(), old(self).emitted()),
            r == write_result(outcome),
            final(self).sent() == position_after(old(self).sent(), outcome),
    {
        let r = match outcome {
            WriteOutcome::Wrote(n) => {
                assert(self.frame().len() == 8 + self.payload@.len());
                if self.header_sent < LENGTH_FIELD_SIZE {
                    self.header_sent = self.header_sent + n;
                } else {
                    assert(self.payload_sent + n <= self.payload.len());
                    self.payload_sent = self.payload_sent + n;
                }
                Ok(())
            },
            WriteOutcome::Interrupted => Ok(()),
            WriteOutcome::Failed(code) => Err(TransportError::Io(code)),
        };
        assert(self.emitted().subrange(0, old(self).sent() as int) =~= old(self).emitted());
        r
    }
}

/// Starts sending `buffer` as one message: the returned sender has the
/// length field and then the payload to write, and has written nothing.
pub fn send_buffer<'a>(buffer: &'a [u8]) -> (s: FrameSender<'a>)
    ensures
        s.wf(),
        s.payload() == buffer@,
        s.sent() == 0,
        s.frame() == frame_of(buffer@),
{
    FrameSender::new(buffer)
}

/// How many bytes a receiver that has consumed `wire` still needs for the
/// segment it is in: the rest of the length field, or, after it, the rest of
/// the payload that the length field announces.
pub open spec fn missing_after(wire: Seq<u8>) -> int {
    if wire.len() < 8 {
        8 - wire.len()
    } else {
        8 + spec_u64_from_le_bytes(wire.subrange(0, 8)) - wire.len()
    }
}

/// Progress of one incoming message.
pub struct FrameReceiver {
    header: Vec<u8>,
    length: u64,
    payload: Vec<u8>,
}

impl FrameReceiver {
    /// The bytes taken from the channel so far, in order.
    pub closed spec fn consumed(&self) -> Seq<u8> {
        self.header@ + self.payload@
    }

    /// The invariant of a receiver: it never holds more than one message,
    /// and the payload is not started before the length field is whole.
    pub closed spec fn wf(&self) -> bool {
        &&& self.header@.len() <= 8
        &&& self.header@.len() < 8 ==> self.payload@.len() == 0
        &&& self.header@.len() == 8 ==> self.length == spec_u64_from_le_bytes(self.header@)
            && self.payload@.len() <= self.length
    }

    /// How many bytes are missing in the current segment.
    pub open spec fn missing(&self) -> int {
        missing_after(self.consumed())
    }

    /// Whether a whole message has been consumed.
    pub open spec fn complete(&self) -> bool {
        parse_frame(self.consumed()) is Some
    }

    /// The payload of the message, once it is complete.
    pub open spec fn buffer(&self) -> Seq<u8>
        recommends
            self.complete(),
    {
        parse_frame(self.consumed()).unwrap().0
    }

    /// A well-formed receiver has consumed no byte beyond its message.
    pub proof fn lemma_within_frame(&self)
        requires
            self.wf(),
        ensures
            self.missing() >= 0,
            self.complete() <==> self.missing() == 0,
            self.complete() ==> self.consumed() == frame_of(self.buffer()),
    {
        lemma_auto_spec_u64_to_from_le_bytes();
        let wire = self.consumed();
        if self.header@.len() == 8 {
            assert(wire.subrange(0, 8) =~= self.header@);
            if self.complete() {
                assert(wire.subrange(8, 8 + self.length) =~= self.payload@);
                assert(wire =~= frame_of(self.payload@));
            }
        }
    }

    /// Starts receiving: nothing has been read yet.
    pub fn new() -> (r: Self)
        ensures
            r.wf(),
            r.consumed() == Seq::<u8>::empty(),
    {
        let r = FrameReceiver { header: Vec::new(), length: 0, payload: Vec::new() };
        assert(r.consumed() =~= Seq::<u8>::empty());
        r
    }

    /// How many bytes to ask the channel for in the next raw read: what is
    /// missing in the current segment, as far as a `usize` can say it. Zero
    /// exactly when the message is complete.
    pub fn wanted(&self) -> (n: usize)
        requires
            self.wf(),
        ensures
            n == clamped(self.missing()),
            n == 0 <==> self.complete(),
    {
        proof {
            self.lemma_within_frame();
            assert(self.header@.len() == 8 ==> self.consumed().subrange(0, 8) =~= self.header@);
        }
        if self.header.len() < LENGTH_FIELD_SIZE {
            LENGTH_FIELD_SIZE - self.header.len()
        } else {
            let rest: u64 = self.length - self.payload.len() as u64;
            if rest > usize::MAX as u64 {
                usize::MAX
            } else {
                rest as usize
            }
        }
    }

    /// Whether a whole message has been consumed.
    pub fn is_complete(&self) -> (r: bool)
        requires
            self.wf(),
        ensures
            r == self.complete(),
    {
        proof {
            self.lemma_within_frame();
            assert(self.header@.len() == 8 ==> self.consumed().subrange(0, 8) =~= self.header@);
        }
        self.header.len() == LENGTH_FIELD_SIZE && self.payload.len() as u64 == self.length
    }

    /// Takes note of what the last raw read reported.
    ///
    /// Delivered bytes are appended to what was consumed. An interrupted
    /// call is no error and changes nothing. A read that delivers nothing
    /// while bytes are still missing means that the peer has closed the
    /// channel. Any other failure is returned as it came.
    pub fn accept(&mut self, outcome: ReadOutcome<'_>) -> (r: Result<(), TransportError>)
        requires
            old(self).wf(),
            outcome matches ReadOutcome::Data(chunk) ==> chunk@.len() <= old(self).missing(),
        ensures
            final(self).wf(),
            (r, final(self).consumed()) == read_result(old(self).consumed(), outcome),
    {
        proof {
            assert(self.header@.len() == 8 ==> self.consumed().subrange(0, 8) =~= self.header@);
        }
        match outcome {
            ReadOutcome::Data(chunk) => {
                if chunk.len() == 0 {
                    assert(self.consumed() + chunk@ =~= self.consumed());
                    if self.is_complete() {
                        Ok(())
                    } else {
                        Err(TransportError::Closed)
                    }
                } else if self.header.len() < LENGTH_FIELD_SIZE {
                    self.header.extend_from_slice(chunk);
                    if self.header.len() == LENGTH_FIELD_SIZE {
                        self.length = length_from_bytes(self.header.as_slice());
                    }
                    assert(self.consumed() =~= old(self).consumed() + chunk@);
                    Ok(())
                } else {
                    self.payload.extend_from_slice(chunk);
                    assert(self.consumed() =~= old(self).consumed() + chunk@);
                    Ok(())
                }
            },
            ReadOutcome::Interrupted => Ok(()),
            ReadOutcome::Failed(code) => Err(TransportError::Io(code)),
        }
    }

    /// Hands out the payload of the complete message.
    pub fn into_buffer(self) -> (r: Vec<u8>)
        requires
            self.wf(),
            self.complete(),
        ensures
            r@ == self.buffer(),
            self.consumed() == frame_of(r@),
    {
        proof {
            self.lemma_within_frame();
            lemma_auto_spec_u64_to_from_le_bytes();
            assert(self.consumed().subrange(0, 8) =~= self.header@);
            assert(self.consumed().subrange(8, 8 + self.length) =~= self.payload@);
        }
        self.payload
    }
}

/// Starts receiving one message: the returned receiver has read nothing and
/// asks for the length field first.
pub fn receive_buffer() -> (r: FrameReceiver)
    ensures
        r.wf(),
        r.consumed() == Seq::<u8>::empty(),
        !r.complete(),
{
    FrameReceiver::new()
}

/// A frame followed by anything parses back into its payload and what
/// followed: the payload is neither cut short nor run into the next message.
pub proof fn lemma_frame_parses(payload: Seq<u8>, rest: Seq<u8>)
    requires
        payload.len() <= u64::MAX,
    ensures
        parse_frame(frame_of(payload) + rest) == Some((payload, rest)),
{
    lemma_auto_spec_u64_to_from_le_bytes();
    let wire = frame_of(payload) + rest;
    let n = payload.len() as int;
    assert(wire.subrange(0, 8) =~= spec_u64_to_le_bytes(payload.len() as u64));
    assert(wire.subrange(8, 8 + n) =~= payload);
    assert(wire.subrange(8 + n, wire.len() as int) =~= rest);
}

/// No proper beginning of a frame is a whole message, and what is missing
/// after it never reaches beyond the end of the frame.
pub proof fn lemma_partial_frame(payload: Seq<u8>, part: Seq<u8>)
    requires
        payload.len() <= u64::MAX,
        starts(frame_of(payload), part),
        part.len() < frame_of(payload).len(),
    ensures
        parse_frame(part) is None,
        0 < missing_after(part) <= frame_of(payload).len() - part.len(),
{
    lemma_auto_spec_u64_to_from_le_bytes();
    if part.len() >= 8 {
        assert(part.subrange(0, 8) =~= spec_u64_to_le_bytes(payload.len() as u64)) by {
            assert(frame_of(payload).subrange(0, part.len() as int) == part);
            assert(part.subrange(0, 8) =~= frame_of(payload).subrange(0, 8));
        }
    }
}

/// What reaches the wire when the channel accepts, write after write,
/// `steps[i]` of the bytes of `frame` that were still unsent, beginning at
/// position `from`. An interrupted or empty write is a step of zero.
pub open spec fn wire_after(frame: Seq<u8>, from: int, steps: Seq<nat>) -> Seq<u8>
    decreases steps.len(),
{
    if steps.len() == 0 {
        Seq::<u8>::empty()
    } else {
        frame.subrange(from, from + steps[0]) + wire_after(
            frame,
            from + steps[0],
            steps.drop_first(),
        )
    }
}

/// The sum of the steps.
pub open spec fn steps_total(steps: Seq<nat>) -> nat
    decreases steps.len(),
{
    if steps.len() == 0 {
        0
    } else {
        steps[0] + steps_total(steps.drop_first())
    }
}

/// Short, empty and interrupted writes neither lose, repeat nor reorder a
/// byte: whatever the steps, the wire holds the stretch of the frame that
/// they add up to.
pub proof fn lemma_short_writes_lose_nothing(frame: Seq<u8>, from: int, steps: Seq<nat>)
    requires
        0 <= from,
        from + steps_total(steps) <= frame.len(),
    ensures
        wire_after(frame, from, steps) == frame.subrange(from, from + steps_total(steps)),
    decreases steps.len(),
{
    if steps.len() == 0 {
        assert(wire_after(frame, from, steps) =~= frame.subrange(from, from + 0));
    } else {
        lemma_short_writes_lose_nothing(frame, from + steps[0], steps.drop_first());
        assert(wire_after(frame, from, steps) =~= frame.subrange(
            from,
            from + steps_total(steps),
        ));
    }
}

/// A channel that delivers the bytes of a frame in order keeps the receiver
/// in step: after a beginning of the frame, the bytes that come next in it,
/// however few, give a longer beginning of the same frame.
pub proof fn lemma_delivery_keeps_step(frame: Seq<u8>, consumed: Seq<u8>, chunk: Seq<u8>)
    requires
        starts(frame, consumed),
        consumed.len() + chunk.len() <= frame.len(),
        chunk == frame.subrange(consumed.len() as int, (consumed.len() + chunk.len()) as int),
    ensures
        starts(frame, consumed + chunk),
{
    assert(frame.subrange(0, (consumed + chunk).len() as int) =~= consumed + chunk);
}

/// Round trip: a receiver that has consumed exactly what a finished sender
/// put on the wire, through whatever sequence of short, empty or
/// interrupted transfers, holds a complete message equal to the payload sent.
pub proof fn lemma_round_trip(s: FrameSender, r: FrameReceiver)
    requires
        s.wf(),
        r.wf(),
        s.done(),
        r.consumed() == s.emitted(),
    ensures
        r.complete(),
        r.buffer() == s.payload(),
{
    assert(s.emitted() =~= s.frame());
    lemma_frame_parses(s.payload(), Seq::<u8>::empty());
    assert(s.frame() + Seq::<u8>::empty() =~= s.frame());
}

/// While the receiver has consumed only a beginning of what the sender has
/// to put on the wire, it is complete exactly when it has consumed all of
/// it, and until then it asks for no byte beyond the end of the message.
pub proof fn lemma_in_step(s: FrameSender, r: FrameReceiver)
    requires
        s.wf(),
        r.wf(),
        starts(s.frame(), r.consumed()),
    ensures
        r.complete() <==> r.consumed() == s.frame(),
        r.complete() ==> r.buffer() == s.payload(),
        !r.complete() ==> 0 < r.missing() <= s.frame().len() - r.consumed().len(),
{
    if r.consumed().len() < s.frame().len() {
        lemma_partial_frame(s.payload(), r.consumed());
    } else {
        assert(r.consumed() =~= s.frame());
        lemma_frame_parses(s.payload(), Seq::<u8>::empty());
        assert(s.frame() + Seq::<u8>::empty() =~= s.frame());
    }
}

} // verus!
