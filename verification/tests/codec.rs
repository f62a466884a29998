use std::convert::Infallible;

use bytes::{Buf, Bytes, BytesMut};
use nacelle::codec::reader::{judge, ReadStep};
use nacelle::codec::writer::{FlushStep, NothingAccepted};
use nacelle::codec::{
    LengthDelimitedDecoder, LengthDelimitedEncodeError, LengthDelimitedEncoder, LengthDelimitedError,
    MessageDecoder, MessageEncoder, MessageReadError, MessageReader, MessageWriteError, MessageWriter,
    RotatingMessageReader,
};
use nacelle::text::TextError;

fn frame(payload: &[u8]) -> Vec<u8> {
    let len = u32::try_from(payload.len()).expect("test payload length");
    let mut frame = len.to_be_bytes().to_vec();
    frame.extend_from_slice(payload);
    frame
}

/// A transport that yields one chunk per read and then ends.
struct Source {
    chunks: Vec<Vec<u8>>,
}

impl Source {
    fn of(chunks: &[&[u8]]) -> Self {
        let mut chunks: Vec<Vec<u8>> = chunks.iter().map(|chunk| chunk.to_vec()).collect();
        chunks.reverse();
        Self { chunks }
    }
}

fn refill<D>(reader: &mut MessageReader<Source, D>) {
    let chunk = reader.transport_mut().chunks.pop().unwrap_or_default();
    reader.buffer_mut().extend_from_slice(&chunk);
    reader.on_read(chunk.len());
}

fn read_message<D: MessageDecoder>(
    reader: &mut MessageReader<Source, D>,
) -> Result<Option<D::Message>, MessageReadError<D::Error>> {
    loop {
        match reader.poll_message()? {
            ReadStep::Message(message) => return Ok(Some(message)),
            ReadStep::End => return Ok(None),
            ReadStep::NeedRead => refill(reader),
        }
    }
}

fn read_rotating(
    reader: &mut RotatingMessageReader<Source, LengthDelimitedDecoder>,
) -> Result<Option<BytesMut>, MessageReadError<LengthDelimitedError>> {
    loop {
        match reader.poll_message()? {
            ReadStep::Message(message) => return Ok(Some(message)),
            ReadStep::End => return Ok(None),
            ReadStep::NeedRead => refill(reader.inner_mut()),
        }
    }
}

/// A transport that accepts a few bytes per write.
struct Sink {
    accepted: Vec<u8>,
    at_once: usize,
    flushed: bool,
}

impl Sink {
    fn accepting(at_once: usize) -> Self {
        Self { accepted: Vec::new(), at_once, flushed: false }
    }
}

fn flush<E>(writer: &mut MessageWriter<Sink, E>) -> Result<(), NothingAccepted> {
    let mut step = writer.flush_step();
    while step == FlushStep::Write {
        let queued = writer.buffer().to_vec();
        let sink = writer.transport_mut();
        let count = queued.len().min(sink.at_once);
        sink.accepted.extend_from_slice(&queued[..count]);
        step = writer.on_written(count)?;
    }
    writer.transport_mut().flushed = true;
    Ok(())
}

#[test]
fn decodes_fragmented_and_coalesced_messages() {
    let mut decoder = LengthDelimitedDecoder::new(1024);
    let hello = frame(b"hello");
    let (first_fragment, second_fragment) = hello.split_at(3);
    let mut input = BytesMut::from(first_fragment);
    assert!(decoder
        .decode(&mut input)
        .expect("partial decode")
        .is_none());

    input.extend_from_slice(second_fragment);
    input.extend_from_slice(&frame(b"world"));
    assert_eq!(
        &decoder.decode(&mut input).expect("decode").expect("first")[..],
        b"hello"
    );
    assert_eq!(
        &decoder.decode(&mut input).expect("decode").expect("second")[..],
        b"world"
    );
    assert!(decoder.decode(&mut input).expect("empty decode").is_none());
}

#[test]
fn rejects_oversized_frame_without_consuming_header() {
    let mut decoder = LengthDelimitedDecoder::new(4);
    let mut input = BytesMut::from(frame(b"hello").as_slice());

    let error = decoder.decode(&mut input).expect_err("oversized frame");
    assert_eq!(
        error,
        LengthDelimitedError::FrameTooLarge { len: 5, max: 4 }
    );
    assert_eq!(input.len(), 9);
}

#[test]
fn supports_little_endian_and_empty_payloads() {
    let mut decoder = LengthDelimitedDecoder::new(0).with_little_endian();
    let mut input = BytesMut::from(&0_u32.to_le_bytes()[..]);

    assert!(decoder
        .decode(&mut input)
        .expect("decode")
        .expect("empty message")
        .is_empty());
}

#[test]
fn encodes_big_and_little_endian_frames() {
    let mut big = BytesMut::new();
    LengthDelimitedEncoder::new(16)
        .encode(&b"hello"[..], &mut big)
        .expect("big-endian encode");
    assert_eq!(&big[..], &[0, 0, 0, 5, b'h', b'e', b'l', b'l', b'o']);

    let mut little = BytesMut::new();
    LengthDelimitedEncoder::new(16)
        .with_little_endian()
        .encode(&b"hello"[..], &mut little)
        .expect("little-endian encode");
    assert_eq!(&little[..], &[5, 0, 0, 0, b'h', b'e', b'l', b'l', b'o']);
}

#[test]
fn oversized_payload_does_not_modify_output() {
    let mut output = BytesMut::from(&b"kept"[..]);
    let error = LengthDelimitedEncoder::new(4)
        .encode(&b"hello"[..], &mut output)
        .expect_err("oversized frame");

    assert_eq!(
        error,
        LengthDelimitedEncodeError::FrameTooLarge { len: 5, max: 4 }
    );
    assert_eq!(&output[..], b"kept");
}

#[test]
fn reader_handles_fragmented_and_coalesced_messages() {
    let source = Source::of(&[
        &[0, 0, 0],
        &[
            5, b'h', b'e', b'l', b'l', b'o', 0, 0, 0, 5, b'w', b'o', b'r', b'l', b'd',
        ],
    ]);

    let mut reader = MessageReader::new(source, LengthDelimitedDecoder::new(32));
    assert_eq!(
        &read_message(&mut reader).expect("read").expect("first")[..],
        b"hello"
    );
    assert_eq!(
        &read_message(&mut reader).expect("read").expect("second")[..],
        b"world"
    );
    assert!(read_message(&mut reader).expect("clean EOF").is_none());
    assert!(read_message(&mut reader).expect("still at EOF").is_none());
}

#[test]
fn reader_reports_incomplete_eof() {
    let source = Source::of(&[&[0, 0, 0, 5, b'h']]);

    let mut reader = MessageReader::new(source, LengthDelimitedDecoder::new(32));
    let error = read_message(&mut reader).expect_err("partial EOF");
    assert!(matches!(
        error,
        MessageReadError::UnexpectedEof { remaining: 5 }
    ));
    assert_eq!(error.to_text(), "unexpected EOF with 5 undecoded bytes");
}

#[derive(Debug, Default)]
struct NoProgressDecoder;

impl MessageDecoder for NoProgressDecoder {
    type Message = ();
    type Error = Infallible;

    fn decode(&mut self, _input: &mut BytesMut) -> Result<Option<Self::Message>, Self::Error> {
        Ok(Some(()))
    }

    fn decode_eof(&mut self, input: &mut BytesMut) -> Result<Option<Self::Message>, Self::Error> {
        self.decode(input)
    }
}

#[test]
fn reader_rejects_message_without_progress() {
    let mut reader = MessageReader::new(Source::of(&[]), NoProgressDecoder);

    let error = read_message(&mut reader).expect_err("progress violation");
    assert!(matches!(error, MessageReadError::MessageWithoutProgress));
}

#[derive(Debug, Default)]
struct ConsumingWaitDecoder;

impl MessageDecoder for ConsumingWaitDecoder {
    type Message = ();
    type Error = Infallible;

    fn decode(&mut self, input: &mut BytesMut) -> Result<Option<Self::Message>, Self::Error> {
        if !input.is_empty() {
            input.advance(1);
        }
        Ok(None)
    }

    fn decode_eof(&mut self, input: &mut BytesMut) -> Result<Option<Self::Message>, Self::Error> {
        self.decode(input)
    }
}

#[test]
fn reader_rejects_consumption_before_need_more() {
    let mut reader = MessageReader::new(Source::of(&[&[1, 2]]), ConsumingWaitDecoder);

    let error = read_message(&mut reader).expect_err("progress violation");
    assert!(matches!(
        error,
        MessageReadError::ConsumedOnNeedMore {
            before: 2,
            after: 1
        }
    ));
}

#[test]
fn reader_accepts_caller_buffer() {
    let buffer = BytesMut::from(&[0, 0, 0, 0][..]);
    let reader = MessageReader::with_buffer(Source::of(&[]), LengthDelimitedDecoder::new(0), buffer);

    assert_eq!(reader.buffer().len(), 4);
}

#[test]
fn writer_feeds_and_sends_messages() {
    let mut writer = MessageWriter::new(Sink::accepting(7), LengthDelimitedEncoder::new(16));
    writer.feed(&b"hello"[..]).expect("feed");
    assert_eq!(writer.buffer().len(), 9);

    writer.feed(&b"world"[..]).expect("feed");
    flush(&mut writer).expect("flush");
    assert!(writer.buffer().is_empty());
    let (sink, _, _) = writer.into_parts();
    assert!(sink.flushed);
    assert_eq!(
        sink.accepted,
        [
            0, 0, 0, 5, b'h', b'e', b'l', b'l', b'o', 0, 0, 0, 5, b'w', b'o', b'r', b'l', b'd'
        ]
    );
}

#[derive(Debug, Default)]
struct FailingEncoder;

impl MessageEncoder<()> for FailingEncoder {
    type Error = &'static str;

    fn encode(&mut self, (): (), output: &mut BytesMut) -> Result<(), Self::Error> {
        output.extend_from_slice(b"discarded");
        Err("rejected")
    }
}

#[test]
fn writer_rolls_back_failed_encoding() {
    let mut writer = MessageWriter::new(Sink::accepting(8), FailingEncoder);

    let error = writer.feed(()).expect_err("encoder must fail");
    assert_eq!(error, "rejected");
    assert!(writer.buffer().is_empty());
}

#[test]
fn a_transport_that_accepts_nothing_fails_the_flush() {
    let mut writer = MessageWriter::new(Sink::accepting(0), LengthDelimitedEncoder::new(16));
    writer.feed(&b"hello"[..]).expect("feed");

    let error = flush(&mut writer).expect_err("nothing accepted");
    assert_eq!(error.to_text(), "transport accepted no queued bytes");
    assert_eq!(writer.buffer().len(), 9);
}

fn loaded_reader(
    encoded: &[u8],
    threshold: usize,
    replacement_capacity: usize,
) -> RotatingMessageReader<Source, LengthDelimitedDecoder> {
    RotatingMessageReader::with_replacement_capacity(
        MessageReader::new(
            Source::of(&[encoded]),
            LengthDelimitedDecoder::new(encoded.len()),
        ),
        threshold,
        replacement_capacity,
    )
}

#[test]
fn rotates_empty_tail_after_large_message() {
    let encoded = frame(&vec![7; 4096]);
    let mut reader = loaded_reader(&encoded, 1024, 128);

    let message = read_rotating(&mut reader)
        .expect("read message")
        .expect("decoded message");

    assert_eq!(message.len(), 4096);
    assert_eq!(reader.inner().buffer().len(), 0);
    assert_eq!(reader.inner().buffer().capacity(), 128);
    assert!(!reader.rotation_pending());
}

#[test]
fn defers_rotation_until_coalesced_input_is_consumed() {
    let mut encoded = frame(&vec![7; 4096]);
    encoded.extend_from_slice(&frame(b"next"));
    let mut reader = loaded_reader(&encoded, 1024, 128);

    let first = read_rotating(&mut reader)
        .expect("read first message")
        .expect("decoded first message");
    assert_eq!(first.len(), 4096);
    assert!(!reader.inner().buffer().is_empty());
    assert!(reader.rotation_pending());

    let second = read_rotating(&mut reader)
        .expect("read second message")
        .expect("decoded second message");
    assert_eq!(&second[..], b"next");
    assert!(reader.inner().buffer().is_empty());
    assert_eq!(reader.inner().buffer().capacity(), 128);
    assert!(!reader.rotation_pending());
}

#[test]
fn keeps_existing_buffer_after_small_message() {
    let encoded = frame(b"small");
    let mut reader = loaded_reader(&encoded, 1024, 128);

    let message = read_rotating(&mut reader)
        .expect("read message")
        .expect("decoded message");

    assert_eq!(&message[..], b"small");
    assert!(reader.inner().buffer().capacity() > 128);
    assert!(!reader.rotation_pending());
}

#[test]
fn rotates_a_large_message_without_copying_it() {
    let encoded = frame(&vec![7; 256 * 1024]);
    let mut reader = loaded_reader(&encoded, 64 * 1024, 8 * 1024);

    let message = read_rotating(&mut reader)
        .expect("read message")
        .expect("decoded message");

    assert_eq!(message.len(), 256 * 1024);
    assert_eq!(message.capacity(), 256 * 1024);
    assert_eq!(message.first(), Some(&7));
    assert_eq!(message.last(), Some(&7));
    assert_eq!(reader.inner().buffer().capacity(), 8 * 1024);
}

#[test]
fn rotation_happens_once_the_buffer_is_empty() {
    let mut reader = RotatingMessageReader::new(
        MessageReader::new(Source::of(&[]), LengthDelimitedDecoder::new(16)),
        100,
    );
    assert_eq!(reader.rotation_threshold(), 100);
    assert_eq!(reader.replacement_capacity(), 8 * 1024);
    assert!(!reader.rotate_after(Some(100)));
    assert!(reader.rotate_after(Some(101)));
    assert!(!reader.rotate_after(None));

    reader.inner_mut().buffer_mut().extend_from_slice(b"x");
    assert!(!reader.rotate_after(Some(101)));
    assert!(reader.rotation_pending());
    reader.inner_mut().buffer_mut().clear();
    assert!(reader.rotate_after(None));
    assert_eq!(reader.into_inner().into_parts().2.capacity(), 8 * 1024);
}

#[test]
fn length_delimited_round_trip_survives_arbitrary_fragmentation() {
    for fragment_size in 1_usize..64 {
        let messages: Vec<Vec<u8>> = (0..32_usize)
            .map(|index| {
                (0..(index * 37 + fragment_size * 11) % 256)
                    .map(|at| (at * 31 + index) as u8)
                    .collect()
            })
            .collect();
        let mut wire = BytesMut::new();
        let mut encoder = LengthDelimitedEncoder::new(256);
        for message in &messages {
            encoder
                .encode(message.as_slice(), &mut wire)
                .expect("generated encode");
        }

        let mut decoder = LengthDelimitedDecoder::new(256);
        let mut input = BytesMut::new();
        let mut decoded = Vec::new();
        for fragment in wire.chunks(fragment_size) {
            input.extend_from_slice(fragment);
            while let Some(message) = decoder.decode(&mut input).expect("generated decode") {
                decoded.push(message.to_vec());
            }
        }

        assert_eq!(decoded, messages);
        assert!(input.is_empty());
    }
}

#[test]
fn oversized_declared_lengths_are_rejected_without_consumption() {
    for declared in [33_u32, 34, 255, 256, 65_536, 0x0100_0000, u32::MAX] {
        for tail in [0_usize, 1, 63] {
            let mut wire = declared.to_be_bytes().to_vec();
            wire.extend_from_slice(&vec![9; tail]);
            let mut input = BytesMut::from(wire.as_slice());
            let mut decoder = LengthDelimitedDecoder::new(32);

            let error = decoder.decode(&mut input).expect_err("oversized frame");
            assert_eq!(
                error,
                LengthDelimitedError::FrameTooLarge {
                    len: declared as usize,
                    max: 32
                }
            );
            assert_eq!(input.len(), wire.len());
        }
    }
}

#[test]
fn oversized_payloads_fail_before_modifying_output() {
    for len in [33_usize, 34, 255] {
        for prefix in [0_usize, 1, 15] {
            let mut output = BytesMut::from(vec![3; prefix].as_slice());
            let before = output.clone();
            let error = LengthDelimitedEncoder::new(32)
                .encode(vec![5_u8; len], &mut output)
                .expect_err("oversized payload");

            assert!(matches!(
                error,
                LengthDelimitedEncodeError::FrameTooLarge { .. }
            ));
            assert_eq!(output, before);
        }
    }
}

#[test]
fn every_payload_type_is_framed_alike() {
    let mut encoder = LengthDelimitedEncoder::new(8);
    let mut output = BytesMut::new();
    encoder.encode(vec![1_u8, 2], &mut output).expect("vector");
    encoder
        .encode(BytesMut::from(&[3_u8][..]), &mut output)
        .expect("buffer");
    encoder
        .encode(Bytes::from_static(&[4_u8]), &mut output)
        .expect("chunk");
    assert_eq!(
        &output[..],
        &[0, 0, 0, 2, 1, 2, 0, 0, 0, 1, 3, 0, 0, 0, 1, 4]
    );
    assert_eq!(encoder.max_frame_len(), 8);
}

#[test]
fn codec_errors_have_texts() {
    assert_eq!(
        LengthDelimitedError::FrameTooLarge { len: 5, max: 4 }.to_text(),
        "frame length 5 exceeds limit 4"
    );
    assert_eq!(
        LengthDelimitedError::LengthOverflow.to_text(),
        "frame length overflow"
    );
    assert_eq!(
        LengthDelimitedEncodeError::LengthOverflow.to_text(),
        "frame length cannot be represented as u32"
    );
    let read: MessageReadError<LengthDelimitedError> = MessageReadError::Io("gone".to_string());
    assert_eq!(read.to_text(), "I/O error: gone");
    let write: MessageWriteError<LengthDelimitedEncodeError> =
        MessageWriteError::Encoder(LengthDelimitedEncodeError::FrameTooLarge { len: 5, max: 4 });
    assert_eq!(
        write.to_text(),
        "encoder error: frame length 5 exceeds limit 4"
    );
}

#[test]
fn decodings_are_judged_by_what_they_consumed() {
    let decoded: Result<Option<u8>, Infallible> = Ok(Some(7));
    assert!(matches!(
        judge(decoded, 3, 2, false),
        Ok(ReadStep::Message(7))
    ));
    let waiting: Result<Option<u8>, Infallible> = Ok(None);
    assert!(matches!(judge(waiting, 3, 3, false), Ok(ReadStep::NeedRead)));
    let ended: Result<Option<u8>, Infallible> = Ok(None);
    assert!(matches!(judge(ended, 0, 0, true), Ok(ReadStep::End)));
    let failed: Result<Option<u8>, &str> = Err("bad");
    assert!(matches!(
        judge(failed, 3, 0, true),
        Err(MessageReadError::Decoder("bad"))
    ));
}

#[test]
fn codecs_can_be_changed_between_messages() {
    let long = frame(b"longer");
    let mut reader = MessageReader::new(Source::of(&[long.as_slice()]), LengthDelimitedDecoder::new(2));
    assert!(matches!(
        read_message(&mut reader),
        Err(MessageReadError::Decoder(_))
    ));
    let mut reader = MessageReader::new(Source::of(&[long.as_slice()]), LengthDelimitedDecoder::new(2));
    *reader.decoder_mut() = LengthDelimitedDecoder::new(64);
    assert_eq!(reader.decoder().max_frame_len(), 64);
    assert_eq!(
        read_message(&mut reader).expect("message").as_deref(),
        Some(b"longer".as_slice())
    );

    let mut writer = MessageWriter::new(Sink::accepting(3), LengthDelimitedEncoder::new(2));
    assert!(writer.feed(Bytes::from_static(b"longer")).is_err());
    *writer.encoder_mut() = LengthDelimitedEncoder::new(64);
    writer.feed(Bytes::from_static(b"longer")).expect("encoded");
    flush(&mut writer).expect("flushed");
    assert_eq!(writer.transport().accepted, frame(b"longer"));
}

/// Lines, of which the last may end with the stream.
struct LineDecoder;

impl MessageDecoder for LineDecoder {
    type Message = BytesMut;
    type Error = Infallible;

    fn decode(&mut self, input: &mut BytesMut) -> Result<Option<Self::Message>, Self::Error> {
        match input.iter().position(|byte| *byte == b'\n') {
            Some(end) => {
                let line = input.split_to(end);
                input.advance(1);
                Ok(Some(line))
            }
            None => Ok(None),
        }
    }

    fn decode_eof(&mut self, input: &mut BytesMut) -> Result<Option<Self::Message>, Self::Error> {
        match self.decode(input)? {
            Some(line) => Ok(Some(line)),
            None if input.is_empty() => Ok(None),
            None => Ok(Some(input.split())),
        }
    }
}

#[test]
fn the_end_of_the_stream_is_left_to_the_decoder() {
    let mut reader = MessageReader::new(Source::of(&[b"one\ntw", b"o\nthree"]), LineDecoder);
    let mut lines = Vec::new();
    while let Some(line) = read_message(&mut reader).expect("a line") {
        lines.push(line.to_vec());
    }
    assert_eq!(lines, vec![b"one".to_vec(), b"two".to_vec(), b"three".to_vec()]);
    assert!(read_message(&mut reader).expect("the end").is_none());

    let mut reader =
        MessageReader::new(Source::of(&[&[0, 0, 0, 9, 1]]), LengthDelimitedDecoder::new(16));
    assert!(matches!(
        read_message(&mut reader),
        Err(MessageReadError::UnexpectedEof { remaining: 5 })
    ));
}
