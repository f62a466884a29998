use bytes::Bytes;
use nacelle::body::{BodyStep, NacelleBody, TrackedBodyMessage, TrackedBodySender};
use nacelle::error::NacelleError;
use nacelle::memory::{NacelleMemoryAllocation, NacelleMemoryBudget};
use nacelle::response::{NacelleResponse, NacelleResponseMeta, TcpResponseMeta};

fn drained(body: &mut NacelleBody) -> Vec<Vec<u8>> {
    let mut chunks = Vec::new();
    loop {
        match body.next_chunk() {
            BodyStep::Chunk(chunk) => chunks.push(chunk.to_vec()),
            BodyStep::End => return chunks,
            other => panic!("unexpected step {other:?}"),
        }
    }
}

#[test]
fn tracked_streaming_body_holds_memory_until_drop() {
    let mut budget = NacelleMemoryBudget::new(1024);
    let allocation = budget.try_allocate(11).expect("memory should be available");
    let mut sender = TrackedBodySender::new(());
    let mut body = NacelleBody::new(11);

    let message = sender
        .memory_message(allocation)
        .expect("memory is sent once");
    assert!(matches!(body.next_chunk(), BodyStep::AwaitMessage));
    assert!(matches!(
        body.on_message(Some(message)),
        BodyStep::AwaitMessage
    ));
    sender.on_memory_sent();
    match body.on_message(Some(TrackedBodyMessage::Chunk(Ok(Bytes::from_static(
        b"hello world",
    ))))) {
        BodyStep::Chunk(chunk) => assert_eq!(chunk, Bytes::from_static(b"hello world")),
        other => panic!("unexpected step {other:?}"),
    }
    assert!(matches!(body.on_message(None), BodyStep::End));
    assert_eq!(body.remaining_bytes(), 0);
    assert_eq!(budget.used_bytes(), 11);

    let held = body.take_memory_allocation().expect("held memory");
    budget.release(held);
    assert_eq!(budget.used_bytes(), 0);
}

#[test]
fn memory_is_sent_once() {
    let mut sender = TrackedBodySender::new(7);
    assert_eq!(*sender.sender(), 7);
    assert!(sender
        .memory_message(NacelleMemoryAllocation::empty())
        .is_ok());
    sender.on_memory_sent();
    assert!(sender
        .memory_message(NacelleMemoryAllocation::empty())
        .is_err());
}

#[test]
fn buffered_chunks_come_in_order() {
    let mut body = NacelleBody::from_buffered(
        vec![
            Bytes::from_static(b"ab"),
            Bytes::from_static(b""),
            Bytes::from_static(b"c"),
        ],
        3,
    );
    assert_eq!(body.remaining_bytes(), 3);
    assert_eq!(drained(&mut body), vec![b"ab".to_vec(), b"".to_vec(), b"c".to_vec()]);
    assert_eq!(body.remaining_bytes(), 0);
}

#[test]
fn single_chunks_are_taken_whole() {
    let mut body = NacelleBody::bytes(Bytes::from_static(b"xyz"));
    assert_eq!(body.remaining_bytes(), 3);
    assert_eq!(drained(&mut body), vec![b"xyz".to_vec()]);
    assert_eq!(drained(&mut NacelleBody::empty()), Vec::<Vec<u8>>::new());
    assert_eq!(
        drained(&mut NacelleBody::bytes(Bytes::new())),
        Vec::<Vec<u8>>::new()
    );

    assert!(matches!(
        NacelleBody::from_single_chunk(Bytes::from_static(b"one"), 3).try_into_single_chunk_or_empty(),
        Ok(Some(chunk)) if chunk == Bytes::from_static(b"one")
    ));
    assert!(matches!(
        NacelleBody::empty().try_into_single_chunk_or_empty(),
        Ok(None)
    ));
    assert!(NacelleBody::new(5).try_into_single_chunk_or_empty().is_err());
    assert!(NacelleBody::from_buffered(
        vec![Bytes::from_static(b"a"), Bytes::from_static(b"b")],
        2
    )
    .try_into_single_chunk_or_empty()
    .is_err());
}

#[test]
fn failures_of_a_stream_are_passed_on() {
    let mut body = NacelleBody::new(4);
    assert!(matches!(
        body.on_message(Some(TrackedBodyMessage::Chunk(Err(NacelleError::UnexpectedEof)))),
        BodyStep::Failed(NacelleError::UnexpectedEof)
    ));
    assert_eq!(body.remaining_bytes(), 4);
}

#[test]
fn a_body_keeps_the_memory_it_was_given() {
    let mut budget = NacelleMemoryBudget::new(8);
    let allocation = budget.try_allocate(5).expect("allocation");
    let mut body = NacelleBody::bytes(Bytes::from_static(b"hello")).with_memory_allocation(allocation);
    assert_eq!(drained(&mut body), vec![b"hello".to_vec()]);
    assert_eq!(
        body.take_memory_allocation().map(|held| held.bytes()),
        Some(5)
    );
    assert!(body.take_memory_allocation().is_none());
}

#[test]
fn responses_carry_their_meta() {
    let response = NacelleResponse::tcp_bytes(Bytes::from_static(b"hi"));
    assert_eq!(response.meta.tcp(), Some(&TcpResponseMeta::default()));
    assert_eq!(response.body.remaining_bytes(), 2);
    let meta = TcpResponseMeta {
        request_id: Some(3),
        opcode: Some(4),
    };
    let response = NacelleResponse::tcp_with_meta(meta, NacelleBody::empty());
    assert_eq!(response.meta.tcp(), Some(&meta));
    assert_eq!(NacelleResponse::empty_tcp().body.remaining_bytes(), 0);
    let response = NacelleResponse::http_bytes(204, Bytes::from_static(b"!"));
    assert!(response.meta.tcp().is_none());
    match response.meta {
        NacelleResponseMeta::Http(meta) => {
            assert_eq!(meta.status, 204);
            assert!(meta.headers.is_empty());
        }
        other => panic!("unexpected meta {other:?}"),
    }
}
