//! Four-byte length-delimited message encoding and decoding.
use bytes::BytesMut;

use vstd::prelude::*;

use super::{MessageDecoder, MessageEncoder, Payload};
use crate::buffer::{advance, buffer_bytes, readable};
use crate::text::{decimal, decimal_text, join_text, TextError};

verus! {

const HEADER_LEN: usize = 4;

/// The payload length that a header declares.
pub open spec fn declared_len(header: Seq<u8>, little_endian: bool) -> nat {
    if little_endian {
        header[0] as nat + header[1] as nat * 0x100 + header[2] as nat * 0x1_0000
            + header[3] as nat * 0x100_0000
    } else {
        header[3] as nat + header[2] as nat * 0x100 + header[1] as nat * 0x1_0000
            + header[0] as nat * 0x100_0000
    }
}

/// The header that declares a payload of `len` bytes.
pub open spec fn header(len: nat, little_endian: bool) -> Seq<u8> {
    let low = (len % 0x100) as u8;
    let second = (len / 0x100 % 0x100) as u8;
    let third = (len / 0x1_0000 % 0x100) as u8;
    let high = (len / 0x100_0000 % 0x100) as u8;
    if little_endian {
        seq![low, second, third, high]
    } else {
        seq![high, third, second, low]
    }
}

/// A payload behind its header.
pub open spec fn frame(payload: Seq<u8>, little_endian: bool) -> Seq<u8> {
    header(payload.len(), little_endian) + payload
}

/// Decodes a big-endian `u32` payload length followed by that payload.
#[derive(Debug, Clone, Copy)]
pub struct LengthDelimitedDecoder {
    max_frame_len: usize,
    little_endian: bool,
}

/// How a decoder judges what has arrived.
pub enum Decoded {
    /// More bytes are needed.
    Incomplete,
    /// The payload is complete.
    Payload(Seq<u8>),
    /// The input is malformed.
    Malformed(LengthDelimitedError),
}

/// What a decoder makes of `input`: the judgement and what it leaves of the input.
pub open spec fn decoded(max: usize, little_endian: bool, input: Seq<u8>) -> (Decoded, Seq<u8>) {
    let len = declared_len(input, little_endian);
    if input.len() < 4 {
        (Decoded::Incomplete, input)
    } else if len > max {
        (Decoded::Malformed(LengthDelimitedError::FrameTooLarge { len: len as usize, max }), input)
    } else if 4 + len > usize::MAX {
        (Decoded::Malformed(LengthDelimitedError::LengthOverflow), input)
    } else if input.len() < 4 + len {
        (Decoded::Incomplete, input)
    } else {
        (
            Decoded::Payload(input.subrange(4, 4 + len as int)),
            input.skip(4 + len as int),
        )
    }
}

impl LengthDelimitedDecoder {
    pub closed spec fn limit(self) -> usize {
        self.max_frame_len
    }

    pub closed spec fn is_little_endian(self) -> bool {
        self.little_endian
    }

    /// Create a big-endian length-delimited decoder.
    pub fn new(max_frame_len: usize) -> (decoder: Self)
        ensures
            decoder.limit() == max_frame_len,
            !decoder.is_little_endian(),
    {
        Self { max_frame_len, little_endian: false }
    }

    /// Decode the four-byte length field as little-endian.
    pub fn with_little_endian(self) -> (decoder: Self)
        ensures
            decoder.limit() == self.limit(),
            decoder.is_little_endian(),
    {
        Self { little_endian: true, ..self }
    }

    /// Return the configured maximum payload length.
    pub fn max_frame_len(self) -> (max: usize)
        ensures
            max == self.limit(),
    {
        self.max_frame_len
    }
}

/// A length-delimited decode error.
#[derive(Debug, Clone, Copy, PartialEq, Eq, Structural)]
pub enum LengthDelimitedError {
    /// The declared payload exceeds the configured frame limit.
    FrameTooLarge {
        /// Declared payload length.
        len: usize,
        /// Configured maximum payload length.
        max: usize,
    },
    /// The frame length cannot be represented on this platform.
    LengthOverflow,
}

/// The text of a length that exceeds its limit.
pub open spec fn too_large_text(len: usize, max: usize) -> Seq<char> {
    "frame length "@ + decimal(len as nat) + " exceeds limit "@ + decimal(max as nat)
}

fn render_too_large(len: usize, max: usize) -> (text: String)
    ensures
        text@ == too_large_text(len, max),
{
    let mut text = join_text("frame length ", decimal_text(len as u64).as_str());
    text.append(" exceeds limit ");
    text.append(decimal_text(max as u64).as_str());
    text
}

impl TextError for LengthDelimitedError {
    open spec fn text_of(&self) -> Seq<char> {
        match self {
            Self::FrameTooLarge { len, max } => too_large_text(*len, *max),
            Self::LengthOverflow => "frame length overflow"@,
        }
    }

    fn to_text(&self) -> (text: String) {
        match self {
            Self::FrameTooLarge { len, max } => render_too_large(*len, *max),
            Self::LengthOverflow => "frame length overflow".to_owned(),
        }
    }
}

/// Reads the length field of a header.
fn read_len(header: &[u8], little_endian: bool) -> (len: u32)
    requires
        header@.len() >= 4,
    ensures
        len == declared_len(header@, little_endian),
{
    let (low, second, third, high): (u32, u32, u32, u32) = if little_endian {
        (header[0] as u32, header[1] as u32, header[2] as u32, header[3] as u32)
    } else {
        (header[3] as u32, header[2] as u32, header[1] as u32, header[0] as u32)
    };
    low + second * 0x100 + third * 0x1_0000 + high * 0x100_0000
}

impl MessageDecoder for LengthDelimitedDecoder {
    type Message = BytesMut;

    type Error = LengthDelimitedError;

    /// The decoder does not change. It either leaves the input alone or takes
    /// one whole frame off its front.
    open spec fn decodes(
        before: Self,
        input: Seq<u8>,
        after: Self,
        rest: Seq<u8>,
        result: Result<Option<BytesMut>, LengthDelimitedError>,
    ) -> bool {
        let (outcome, left) = decoded(before.limit(), before.is_little_endian(), input);
        &&& after == before
        &&& rest == left
        &&& match outcome {
            Decoded::Incomplete => result == Ok::<Option<BytesMut>, LengthDelimitedError>(None),
            Decoded::Payload(payload) => result is Ok && result->Ok_0 is Some && buffer_bytes(
                result->Ok_0->0,
            ) == payload,
            Decoded::Malformed(error) => result == Err::<Option<BytesMut>, _>(error),
        }
    }

    fn decode(&mut self, input: &mut BytesMut) -> (result: Result<
        Option<BytesMut>,
        LengthDelimitedError,
    >) {
        if input.len() < HEADER_LEN {
            return Ok(None);
        }
        let payload_len: usize = read_len(readable(input), self.little_endian) as usize;
        if payload_len > self.max_frame_len {
            return Err(
                LengthDelimitedError::FrameTooLarge { len: payload_len, max: self.max_frame_len },
            );
        }
        let frame_len: usize = match HEADER_LEN.checked_add(payload_len) {
            Some(frame_len) => frame_len,
            None => {
                return Err(LengthDelimitedError::LengthOverflow);
            },
        };
        if input.len() < frame_len {
            return Ok(None);
        }
        let mut payload = input.split_to(frame_len);
        advance(&mut payload, HEADER_LEN);
        proof {
            assert(buffer_bytes(payload) =~= buffer_bytes(*old(input)).subrange(
                4,
                frame_len as int,
            ));
        }
        Ok(Some(payload))
    }

    fn decode_eof(&mut self, input: &mut BytesMut) -> (result: Result<
        Option<BytesMut>,
        LengthDelimitedError,
    >) {
        self.decode(input)
    }
}

/// Encodes a `u32` payload length followed by the payload bytes.
#[derive(Debug, Clone, Copy)]
pub struct LengthDelimitedEncoder {
    max_frame_len: usize,
    little_endian: bool,
}

impl LengthDelimitedEncoder {
    pub closed spec fn limit(self) -> usize {
        self.max_frame_len
    }

    pub closed spec fn is_little_endian(self) -> bool {
        self.little_endian
    }

    /// Create a big-endian length-delimited encoder.
    pub fn new(max_frame_len: usize) -> (encoder: Self)
        ensures
            encoder.limit() == max_frame_len,
            !encoder.is_little_endian(),
    {
        Self { max_frame_len, little_endian: false }
    }

    /// Encode the four-byte length field as little-endian.
    pub fn with_little_endian(self) -> (encoder: Self)
        ensures
            encoder.limit() == self.limit(),
            encoder.is_little_endian(),
    {
        Self { little_endian: true, ..self }
    }

    /// Return the configured maximum payload length.
    pub fn max_frame_len(self) -> (max: usize)
        ensures
            max == self.limit(),
    {
        self.max_frame_len
    }
}

/// A length-delimited encode error.
#[derive(Debug, Clone, Copy, PartialEq, Eq, Structural)]
pub enum LengthDelimitedEncodeError {
    /// The payload exceeds the configured frame limit.
    FrameTooLarge {
        /// Payload length.
        len: usize,
        /// Configured maximum payload length.
        max: usize,
    },
    /// The payload length cannot be represented by the four-byte header.
    LengthOverflow,
}

impl TextError for LengthDelimitedEncodeError {
    open spec fn text_of(&self) -> Seq<char> {
        match self {
            Self::FrameTooLarge { len, max } => too_large_text(*len, *max),
            Self::LengthOverflow => "frame length cannot be represented as u32"@,
        }
    }

    fn to_text(&self) -> (text: String) {
        match self {
            Self::FrameTooLarge { len, max } => render_too_large(*len, *max),
            Self::LengthOverflow => "frame length cannot be represented as u32".to_owned(),
        }
    }
}

/// Why an encoder refuses a payload of `len` bytes, if it does.
pub open spec fn refusal(max: usize, len: nat) -> Option<LengthDelimitedEncodeError> {
    if len > max {
        Some(LengthDelimitedEncodeError::FrameTooLarge { len: len as usize, max })
    } else if len > u32::MAX {
        Some(LengthDelimitedEncodeError::LengthOverflow)
    } else {
        None
    }
}

/// Renders a length field.
fn header_bytes(len: u32, little_endian: bool) -> (bytes: [u8; 4])
    ensures
        bytes@ == header(len as nat, little_endian),
{
    let low: u32 = len % 0x100;
    let second: u32 = len / 0x100 % 0x100;
    let third: u32 = len / 0x1_0000 % 0x100;
    let high: u32 = len / 0x100_0000;
    let bytes: [u8; 4] = if little_endian {
        [low as u8, second as u8, third as u8, high as u8]
    } else {
        [high as u8, third as u8, second as u8, low as u8]
    };
    assert(bytes@ =~= header(len as nat, little_endian));
    bytes
}

impl<M: Payload> MessageEncoder<M> for LengthDelimitedEncoder {
    type Error = LengthDelimitedEncodeError;

    open spec fn has_room(before: Self, message: M, output: Seq<u8>) -> bool {
        output.len() + 4 + message.content().len() <= isize::MAX
    }

    /// The encoder does not change. It appends one frame, or leaves the output
    /// alone.
    open spec fn encodes(
        before: Self,
        message: M,
        output: Seq<u8>,
        after: Self,
        written: Seq<u8>,
        result: Result<(), LengthDelimitedEncodeError>,
    ) -> bool {
        &&& after == before
        &&& match refusal(before.limit(), message.content().len()) {
            Some(error) => result == Err::<(), _>(error) && written == output,
            None => result is Ok && written == output + frame(
                message.content(),
                before.is_little_endian(),
            ),
        }
    }

    fn encode(&mut self, message: M, output: &mut BytesMut) -> (result: Result<
        (),
        LengthDelimitedEncodeError,
    >) {
        let payload = message.bytes();
        let len: usize = payload.len();
        if len > self.max_frame_len {
            return Err(LengthDelimitedEncodeError::FrameTooLarge { len, max: self.max_frame_len });
        }
        if len as u64 > u32::MAX as u64 {
            return Err(LengthDelimitedEncodeError::LengthOverflow);
        }
        let header = header_bytes(len as u32, self.little_endian);
        output.reserve(HEADER_LEN + len);
        output.extend_from_slice(header.as_slice());
        output.extend_from_slice(payload);
        proof {
            assert(buffer_bytes(*output) =~= buffer_bytes(*old(output)) + frame(
                payload@,
                self.little_endian,
            ));
        }
        Ok(())
    }
}

/// A header declares the length that it was made for.
proof fn lemma_header_declares(len: nat, little_endian: bool, tail: Seq<u8>)
    requires
        len <= u32::MAX,
    ensures
        header(len, little_endian).len() == 4,
        declared_len(header(len, little_endian) + tail, little_endian) == len,
{
    let bytes = header(len, little_endian) + tail;
    assert(len == len % 0x100 + 0x100 * (len / 0x100));
    assert(len / 0x100 == len / 0x100 % 0x100 + 0x100 * (len / 0x1_0000));
    assert(len / 0x1_0000 == len / 0x1_0000 % 0x100 + 0x100 * (len / 0x100_0000));
    assert(len / 0x100_0000 < 0x100);
}

/// What an encoder writes, a decoder of the same byte order reads back: from a
/// frame and whatever follows it, the decoder takes exactly the payload and
/// leaves exactly what follows.
pub proof fn law_decode_reads_back_encode(
    payload: Seq<u8>,
    tail: Seq<u8>,
    max: usize,
    little_endian: bool,
)
    requires
        payload.len() <= max,
        payload.len() <= u32::MAX,
        4 + payload.len() <= usize::MAX,
    ensures
        decoded(max, little_endian, frame(payload, little_endian) + tail) == (
            Decoded::Payload(payload),
            tail,
        ),
{
    let input = frame(payload, little_endian) + tail;
    assert(input =~= header(payload.len(), little_endian) + (payload + tail));
    lemma_header_declares(payload.len(), little_endian, payload + tail);
    assert(input.subrange(4, 4 + payload.len() as int) =~= payload);
    assert(input.skip(4 + payload.len() as int) =~= tail);
}

/// A declared length beyond the limit is rejected, whatever follows it, and
/// nothing is consumed.
pub proof fn law_oversized_frames_are_not_consumed(max: usize, little_endian: bool, input: Seq<u8>)
    requires
        input.len() >= 4,
        declared_len(input, little_endian) > max,
    ensures
        decoded(max, little_endian, input) == (
            Decoded::Malformed(
                LengthDelimitedError::FrameTooLarge {
                    len: declared_len(input, little_endian) as usize,
                    max,
                },
            ),
            input,
        ),
{
}

/// The frames of messages, one after the other.
pub open spec fn wire(messages: Seq<Seq<u8>>, little_endian: bool) -> Seq<u8>
    decreases messages.len(),
{
    if messages.len() == 0 {
        Seq::empty()
    } else {
        frame(messages[0], little_endian) + wire(messages.skip(1), little_endian)
    }
}

/// Encoding messages one after the other makes their wire.
pub proof fn law_encoding_in_turn_makes_the_wire(
    messages: Seq<Seq<u8>>,
    next: Seq<u8>,
    little_endian: bool,
)
    ensures
        wire(messages.push(next), little_endian) == wire(messages, little_endian) + frame(
            next,
            little_endian,
        ),
    decreases messages.len(),
{
    let all = messages.push(next);
    if messages.len() == 0 {
        reveal_with_fuel(wire, 2);
        assert(all.skip(1) =~= Seq::empty());
        assert(wire(all, little_endian) =~= frame(next, little_endian));
    } else {
        assert(all.skip(1) =~= messages.skip(1).push(next));
        law_encoding_in_turn_makes_the_wire(messages.skip(1), next, little_endian);
        assert(wire(all, little_endian) =~= wire(messages, little_endian) + frame(
            next,
            little_endian,
        ));
    }
}

/// What comes of decoding until no further message is complete: the messages and
/// what is left of the input.
pub open spec fn drained(max: usize, little_endian: bool, input: Seq<u8>) -> (
    Seq<Seq<u8>>,
    Seq<u8>,
)
    decreases input.len(),
{
    match decoded(max, little_endian, input) {
        (Decoded::Payload(payload), rest) => if rest.len() < input.len() {
            let (later, left) = drained(max, little_endian, rest);
            (seq![payload] + later, left)
        } else {
            (Seq::empty(), input)
        },
        _ => (Seq::empty(), input),
    }
}

/// What comes of input that arrives in fragments and is drained after each.
pub open spec fn received(
    max: usize,
    little_endian: bool,
    pending: Seq<u8>,
    fragments: Seq<Seq<u8>>,
) -> (Seq<Seq<u8>>, Seq<u8>)
    decreases fragments.len(),
{
    if fragments.len() == 0 {
        (Seq::empty(), pending)
    } else {
        let (first, left) = drained(max, little_endian, pending + fragments[0]);
        let (later, rest) = received(max, little_endian, left, fragments.skip(1));
        (first + later, rest)
    }
}

/// Fragments, put together.
pub open spec fn joined(fragments: Seq<Seq<u8>>) -> Seq<u8>
    decreases fragments.len(),
{
    if fragments.len() == 0 {
        Seq::empty()
    } else {
        fragments[0] + joined(fragments.skip(1))
    }
}

/// Whether every message is within a decoder's and a header's limits.
pub open spec fn within_limit(messages: Seq<Seq<u8>>, max: usize) -> bool {
    forall|i: int|
        0 <= i < messages.len() ==> (#[trigger] messages[i]).len() <= max && messages[i].len()
            <= u32::MAX && 4 + messages[i].len() <= usize::MAX
}

/// The start of a frame is incomplete.
proof fn lemma_part_is_incomplete(max: usize, little_endian: bool, payload: Seq<u8>, count: int)
    requires
        payload.len() <= max,
        payload.len() <= u32::MAX,
        4 + payload.len() <= usize::MAX,
        0 <= count < frame(payload, little_endian).len(),
    ensures
        decoded(max, little_endian, frame(payload, little_endian).take(count)) == (
            Decoded::Incomplete,
            frame(payload, little_endian).take(count),
        ),
{
    let part = frame(payload, little_endian).take(count);
    let head = header(payload.len(), little_endian);
    if count >= 4 {
        lemma_header_declares(payload.len(), little_endian, part.skip(4));
        assert(part =~= head + part.skip(4));
    }
}

/// A frame has its header and its payload.
proof fn lemma_frame_len(payload: Seq<u8>, little_endian: bool)
    ensures
        frame(payload, little_endian).len() == 4 + payload.len(),
{
}

/// A start of joined bytes that is no longer than their first part is a start of
/// that part; a longer one continues in the second.
proof fn lemma_split_start(input: Seq<u8>, coming: Seq<u8>, first: Seq<u8>, second: Seq<u8>)
    requires
        input + coming == first + second,
    ensures
        input.len() <= first.len() ==> input == first.take(input.len() as int),
        input.len() >= first.len() ==> input == first + input.skip(first.len() as int)
            && input.skip(first.len() as int) + coming == second,
{
    let whole = input + coming;
    assert(whole.take(input.len() as int) =~= input);
    if input.len() <= first.len() {
        assert((first + second).take(input.len() as int) =~= first.take(input.len() as int));
    }
    if input.len() >= first.len() {
        let rest = input.skip(first.len() as int);
        assert(input.take(first.len() as int) =~= whole.take(first.len() as int));
        assert((first + second).take(first.len() as int) =~= first);
        assert(input =~= input.take(first.len() as int) + rest);
        assert(whole.skip(first.len() as int) =~= rest + coming);
        assert((first + second).skip(first.len() as int) =~= second);
    }
}

/// The limits of messages are the limits of those that come later.
proof fn lemma_within_limit_later(messages: Seq<Seq<u8>>, max: usize, count: int)
    requires
        within_limit(messages, max),
        0 <= count <= messages.len(),
    ensures
        within_limit(messages.skip(count), max),
{
    let others = messages.skip(count);
    assert forall|i: int| 0 <= i < others.len() implies (#[trigger] others[i]).len() <= max
        && others[i].len() <= u32::MAX && 4 + others[i].len() <= usize::MAX by {
        assert(others[i] == messages[i + count]);
    }
}

/// Draining the start of a stream of frames takes some of its messages off the
/// front and leaves the start of the other frames, with no whole one in it.
proof fn lemma_drain_start(
    max: usize,
    little_endian: bool,
    messages: Seq<Seq<u8>>,
    input: Seq<u8>,
    coming: Seq<u8>,
) -> (count: int)
    requires
        within_limit(messages, max),
        input + coming == wire(messages, little_endian),
    ensures
        0 <= count <= messages.len(),
        drained(max, little_endian, input).0 == messages.take(count),
        drained(max, little_endian, input).1 + coming == wire(
            messages.skip(count),
            little_endian,
        ),
        count < messages.len() ==> drained(max, little_endian, input).1.len() < 4
            + messages[count].len(),
    decreases messages.len(),
{
    if messages.len() == 0 {
        assert((input + coming).len() == 0);
        assert(messages.take(0) =~= Seq::empty());
        assert(messages.skip(0) =~= messages);
        0
    } else {
        let payload = messages[0];
        let head = frame(payload, little_endian);
        let others = messages.skip(1);
        lemma_frame_len(payload, little_endian);
        lemma_split_start(input, coming, head, wire(others, little_endian));
        if input.len() < head.len() {
            lemma_part_is_incomplete(max, little_endian, payload, input.len() as int);
            assert(messages.take(0) =~= Seq::empty());
            assert(messages.skip(0) =~= messages);
            0
        } else {
            let rest = input.skip(head.len() as int);
            law_decode_reads_back_encode(payload, rest, max, little_endian);
            lemma_within_limit_later(messages, max, 1);
            let later = lemma_drain_start(max, little_endian, others, rest, coming);
            let count = later + 1;
            assert(messages.take(count) =~= seq![payload] + others.take(later));
            assert(messages.skip(count) =~= others.skip(later));
            count
        }
    }
}

/// Messages survive any fragmentation: however the frames of messages are cut up
/// on their way, a decoder of the same byte order that is drained after every
/// fragment yields exactly these messages, in order, and is left with nothing.
pub proof fn law_fragmentation_is_invisible(
    max: usize,
    little_endian: bool,
    messages: Seq<Seq<u8>>,
    fragments: Seq<Seq<u8>>,
)
    requires
        within_limit(messages, max),
        joined(fragments) == wire(messages, little_endian),
    ensures
        received(max, little_endian, Seq::empty(), fragments) == (messages, Seq::<u8>::empty()),
{
    assert(Seq::<u8>::empty() + joined(fragments) =~= joined(fragments));
    lemma_received(max, little_endian, messages, Seq::empty(), fragments);
}

proof fn lemma_received(
    max: usize,
    little_endian: bool,
    messages: Seq<Seq<u8>>,
    pending: Seq<u8>,
    fragments: Seq<Seq<u8>>,
)
    requires
        within_limit(messages, max),
        pending + joined(fragments) == wire(messages, little_endian),
        messages.len() > 0 ==> pending.len() < 4 + messages[0].len(),
    ensures
        received(max, little_endian, pending, fragments) == (messages, Seq::<u8>::empty()),
    decreases fragments.len(),
{
    if fragments.len() == 0 {
        assert(pending + joined(fragments) =~= pending);
        if messages.len() > 0 {
            lemma_frame_len(messages[0], little_endian);
        }
        assert(pending =~= Seq::empty());
        assert(messages =~= Seq::empty());
    } else {
        let input = pending + fragments[0];
        let coming = joined(fragments.skip(1));
        assert(input + coming =~= pending + joined(fragments));
        let count = lemma_drain_start(max, little_endian, messages, input, coming);
        let left = drained(max, little_endian, input).1;
        let others = messages.skip(count);
        lemma_within_limit_later(messages, max, count);
        lemma_received(max, little_endian, others, left, fragments.skip(1));
        assert(messages.take(count) + others =~= messages);
    }
}

/// The length field is the length written to the base 256 in four digits: the
/// least significant digit comes first where the field is little-endian, and last
/// where it is big-endian.
pub proof fn law_headers_are_written_to_the_base_256(len: nat)
    requires
        len <= u32::MAX,
    ensures
        header(len, true).len() == 4,
        header(len, false).len() == 4,
        header(len, true)[0] == len % 256,
        header(len, true)[1] == len / 256 % 256,
        header(len, true)[2] == len / 65536 % 256,
        header(len, true)[3] == len / 16777216,
        forall|i: int|
            0 <= i < 4 ==> (#[trigger] header(len, false)[i]) == header(len, true)[3 - i],
{
}

/// A length field declares the sum of its bytes, each weighted by the power of 256
/// of its place, counted from the front where the field is little-endian and from
/// the back where it is big-endian. What follows the field does not matter.
pub proof fn law_declared_lengths_are_read_to_the_base_256(
    first: u8,
    second: u8,
    third: u8,
    fourth: u8,
    tail: Seq<u8>,
)
    ensures
        declared_len(seq![first, second, third, fourth] + tail, true) == first + 256 * second
            + 65536 * third + 16777216 * fourth,
        declared_len(seq![first, second, third, fourth] + tail, false) == fourth + 256 * third
            + 65536 * second + 16777216 * first,
{
    let field = seq![first, second, third, fourth];
    let input = field + tail;
    assert(input[0] == first && input[1] == second && input[2] == third && input[3] == fourth);
}

/// A decoder answers by the bytes alone: with fewer than four it needs more; a
/// declared length up to its limit is a frame once that many bytes have followed,
/// and until then needs more; a larger one is refused. It gives exactly the bytes
/// behind the length field and leaves exactly those behind the payload, and it
/// takes nothing while it gives nothing.
pub proof fn law_decoders_answer_by_the_declared_length(
    max: usize,
    little_endian: bool,
    input: Seq<u8>,
)
    requires
        input.len() <= usize::MAX,
    ensures
        ({
            let (outcome, left) = decoded(max, little_endian, input);
            let len = if little_endian {
                input[0] + 256 * input[1] + 65536 * input[2] + 16777216 * input[3]
            } else {
                input[3] + 256 * input[2] + 65536 * input[1] + 16777216 * input[0]
            };
            &&& outcome is Incomplete <==> input.len() < 4 || (len <= max && 4 + len <= usize::MAX
                && input.len() < 4 + len)
            &&& outcome is Payload <==> input.len() >= 4 && len <= max && 4 + len <= input.len()
            &&& outcome is Malformed <==> input.len() >= 4 && (len > max || 4 + len > usize::MAX)
            &&& !(outcome is Payload) ==> left == input
            &&& outcome matches Decoded::Payload(payload) ==> {
                &&& payload.len() == len
                &&& left.len() == input.len() - 4 - len
                &&& forall|i: int| 0 <= i < len ==> #[trigger] payload[i] == input[4 + i]
                &&& forall|i: int| 0 <= i < left.len() ==> #[trigger] left[i] == input[4 + len + i]
            }
            &&& outcome matches Decoded::Malformed(LengthDelimitedError::FrameTooLarge {
                len: declared,
                max: most,
            }) ==> declared == len && most == max && len > max
            &&& outcome == Decoded::Malformed(LengthDelimitedError::LengthOverflow) ==> len <= max
        }),
{
}

/// An encoder refuses a payload beyond its limit or beyond what four bytes can
/// declare, and no other. A frame is four bytes longer than its payload, which
/// stands behind the length field as it is.
pub proof fn law_encoders_refuse_by_length_alone(
    max: usize,
    payload: Seq<u8>,
    little_endian: bool,
)
    requires
        payload.len() <= usize::MAX,
    ensures
        ({
            let refused = refusal(max, payload.len());
            let written = frame(payload, little_endian);
            &&& refused is None <==> payload.len() <= max && payload.len() < 4294967296
            &&& payload.len() > max ==> (refused matches Some(
                LengthDelimitedEncodeError::FrameTooLarge { len, max: most },
            ) && len == payload.len() && most == max)
            &&& payload.len() <= max && payload.len() >= 4294967296 ==> refused == Some(
                LengthDelimitedEncodeError::LengthOverflow,
            )
            &&& written.len() == payload.len() + 4
            &&& forall|i: int| 0 <= i < payload.len() ==> #[trigger] written[4 + i] == payload[i]
        }),
{
}

/// A decoder gives a message exactly if a whole frame within its limit stands at
/// the front, namely the payload, and it takes that frame and no more. Otherwise
/// it takes nothing, and fails exactly if the declared length is beyond its limit
/// or beyond what can be counted.
pub proof fn law_decoders_take_whole_frames(
    before: LengthDelimitedDecoder,
    input: Seq<u8>,
    after: LengthDelimitedDecoder,
    rest: Seq<u8>,
    result: Result<Option<BytesMut>, LengthDelimitedError>,
)
    requires
        LengthDelimitedDecoder::decodes(before, input, after, rest, result),
        input.len() <= usize::MAX,
    ensures
        ({
            let len = if before.is_little_endian() {
                input[0] + 256 * input[1] + 65536 * input[2] + 16777216 * input[3]
            } else {
                input[3] + 256 * input[2] + 65536 * input[1] + 16777216 * input[0]
            };
            let given = result matches Ok(Some(_));
            &&& after == before
            &&& result is Err <==> input.len() >= 4 && (len > before.limit() || 4 + len
                > usize::MAX)
            &&& given <==> input.len() >= 4 && len <= before.limit() && 4 + len <= input.len()
            &&& !given ==> rest == input
            &&& result matches Ok(Some(payload)) ==> {
                &&& buffer_bytes(payload).len() == len
                &&& rest.len() + len + 4 == input.len()
                &&& input == input.take(4) + buffer_bytes(payload) + rest
            }
        }),
{
    if let Ok(Some(payload)) = result {
        let len = declared_len(input, before.is_little_endian());
        assert(input =~= input.take(4) + input.subrange(4, 4 + len as int) + input.skip(
            4 + len as int,
        ));
    }
}

/// An encoder writes exactly if the payload is within its limit and its length fits
/// four bytes: the length field, then the payload, behind what was there. Otherwise
/// it fails and writes nothing.
pub proof fn law_encoders_append_whole_frames<M: Payload>(
    before: LengthDelimitedEncoder,
    message: M,
    output: Seq<u8>,
    after: LengthDelimitedEncoder,
    written: Seq<u8>,
    result: Result<(), LengthDelimitedEncodeError>,
)
    requires
        <LengthDelimitedEncoder as MessageEncoder<M>>::encodes(
            before,
            message,
            output,
            after,
            written,
            result,
        ),
    ensures
        after == before,
        result is Ok <==> message.content().len() <= before.limit() && message.content().len()
            < 4294967296,
        result is Err ==> written == output,
        result is Ok ==> {
            let len = message.content().len();
            let start = output.len() as int;
            &&& written.len() == output.len() + 4 + len
            &&& written.take(start) == output
            &&& written.skip(start + 4) == message.content()
            &&& before.is_little_endian() ==> written[start] == len % 256 && written[start + 1]
                == len / 256 % 256 && written[start + 2] == len / 65536 % 256 && written[start + 3]
                == len / 16777216
            &&& !before.is_little_endian() ==> written[start + 3] == len % 256 && written[start + 2]
                == len / 256 % 256 && written[start + 1] == len / 65536 % 256 && written[start]
                == len / 16777216
        },
{
    if result is Ok {
        let len = message.content().len();
        let start = output.len() as int;
        law_headers_are_written_to_the_base_256(len);
        let field = header(len, before.is_little_endian());
        assert(written =~= output + (field + message.content()));
        assert(written.take(start) =~= output);
        assert(written.skip(start + 4) =~= message.content());
        assert(written[start] == field[0] && written[start + 1] == field[1] && written[start + 2]
            == field[2] && written[start + 3] == field[3]);
        assert(header(len, false)[0] == header(len, true)[3] && header(len, false)[1] == header(
            len,
            true,
        )[2] && header(len, false)[2] == header(len, true)[1] && header(len, false)[3] == header(
            len,
            true,
        )[0]);
    }
}

} // verus!
