use lunatic_distributed::reassembly::{ChunkOutcome, MessageRead, ReassemblyBuffer};
use lunatic_distributed::wire::{
    encode_chunk, header_chunk_size, read_next_stream_chunk, Chunk, CHUNK_HEADER_BYTES,
};

fn chunk(message_id: u64, message_size: u32, chunk_id: u64, data: &[u8]) -> Chunk {
    Chunk {
        message_id,
        message_size,
        chunk_id,
        data: data.to_vec(),
    }
}

#[test]
fn chunk_header_round_trip() {
    let c = chunk(0x0102030405060708, 11, 0x1122334455667788, &[1, 2, 3]);
    let wire = encode_chunk(&c);
    assert_eq!(wire.len(), CHUNK_HEADER_BYTES + 3);
    let (back, next) = read_next_stream_chunk(&wire, 0).expect("a complete chunk");
    assert_eq!(back.message_id, 0x0102030405060708);
    assert_eq!(back.message_size, 11);
    assert_eq!(back.chunk_id, 0x1122334455667788);
    assert_eq!(back.data, vec![1, 2, 3]);
    assert_eq!(next, wire.len());
}

#[test]
fn chunk_header_is_little_endian() {
    let c = chunk(1, 2, 3, &[9]);
    let wire = encode_chunk(&c);
    assert_eq!(&wire[0..8], &[1, 0, 0, 0, 0, 0, 0, 0]);
    assert_eq!(&wire[8..12], &[2, 0, 0, 0]);
    assert_eq!(&wire[12..20], &[3, 0, 0, 0, 0, 0, 0, 0]);
    assert_eq!(&wire[20..24], &[1, 0, 0, 0]);
    assert_eq!(&wire[24..], &[9]);
}

#[test]
fn header_declares_the_payload_length() {
    let wire = encode_chunk(&chunk(1, 9, 0, &[5, 6, 7]));
    assert_eq!(header_chunk_size(&wire[0..CHUNK_HEADER_BYTES].to_vec()), 3);
}

#[test]
fn truncated_chunk_is_refused() {
    let c = chunk(1, 4, 0, &[1, 2, 3, 4]);
    let mut wire = encode_chunk(&c);
    wire.pop();
    assert!(read_next_stream_chunk(&wire, 0).is_none());
    assert!(read_next_stream_chunk(&wire, wire.len()).is_none());
}

#[test]
fn payload_round_trip_across_chunks() {
    // One message in three chunks of uneven sizes: the reassembler
    // emits exactly the original bytes, exactly once.
    let payload: Vec<u8> = (0..100u8).collect();
    let mut buffer = ReassemblyBuffer::new();
    let parts: [&[u8]; 3] = [&payload[0..1], &payload[1..57], &payload[57..100]];
    let mut emitted = Vec::new();
    for (k, part) in parts.iter().enumerate() {
        match buffer.push_chunk(chunk(42, 100, k as u64, part)) {
            ChunkOutcome::Complete { message_id, data } => emitted.push((message_id, data)),
            ChunkOutcome::Incomplete => {}
            ChunkOutcome::Oversize => panic!("no chunk oversteps the declared size"),
        }
    }
    assert_eq!(emitted.len(), 1);
    assert_eq!(emitted[0].0, 42);
    assert_eq!(emitted[0].1, payload);
    assert!(!buffer.is_pending(42));
}

#[test]
fn interleaved_messages_stay_apart() {
    // Chunks of two messages alternate on one stream: each message
    // reassembles to its own bytes, nothing leaks between them.
    let a: Vec<u8> = vec![10; 8];
    let b: Vec<u8> = vec![20; 6];
    let mut buffer = ReassemblyBuffer::new();
    let arrivals = [
        chunk(1, 8, 0, &a[0..5]),
        chunk(2, 6, 0, &b[0..2]),
        chunk(1, 8, 1, &a[5..8]),
        chunk(2, 6, 1, &b[2..6]),
    ];
    let mut emitted = Vec::new();
    for c in arrivals {
        if let ChunkOutcome::Complete { message_id, data } = buffer.push_chunk(c) {
            emitted.push((message_id, data));
        }
    }
    assert_eq!(emitted, vec![(1, a), (2, b)]);
}

#[test]
fn empty_message_completes_at_once() {
    let mut buffer = ReassemblyBuffer::new();
    match buffer.push_chunk(chunk(7, 0, 0, &[])) {
        ChunkOutcome::Complete { message_id, data } => {
            assert_eq!(message_id, 7);
            assert!(data.is_empty());
        }
        _ => panic!("a zero-size message completes on its first chunk"),
    }
}

#[test]
fn oversize_chunk_discards_the_message() {
    let mut buffer = ReassemblyBuffer::new();
    assert!(matches!(
        buffer.push_chunk(chunk(5, 4, 0, &[1, 2])),
        ChunkOutcome::Incomplete
    ));
    assert!(buffer.is_pending(5));
    assert!(matches!(
        buffer.push_chunk(chunk(5, 4, 1, &[3, 4, 5])),
        ChunkOutcome::Oversize
    ));
    assert!(!buffer.is_pending(5));
}

#[test]
fn oversize_first_chunk_is_rejected() {
    let mut buffer = ReassemblyBuffer::new();
    assert!(matches!(
        buffer.push_chunk(chunk(5, 1, 0, &[1, 2])),
        ChunkOutcome::Oversize
    ));
    assert!(!buffer.is_pending(5));
}

#[test]
fn later_size_declarations_are_not_consulted() {
    // The stored declared size wins; a later chunk's differing
    // declaration changes nothing.
    let mut buffer = ReassemblyBuffer::new();
    assert!(matches!(
        buffer.push_chunk(chunk(9, 4, 0, &[1, 2])),
        ChunkOutcome::Incomplete
    ));
    match buffer.push_chunk(chunk(9, 999, 1, &[3, 4])) {
        ChunkOutcome::Complete { message_id, data } => {
            assert_eq!(message_id, 9);
            assert_eq!(data, vec![1, 2, 3, 4]);
        }
        _ => panic!("the stored size of 4 decides completion"),
    }
}

#[test]
fn read_message_walks_interleaved_stream() {
    // A whole stream prefix holding two interleaved messages: reading
    // twice hands out both, in completion order.
    let a: Vec<u8> = (0..9u8).collect();
    let b: Vec<u8> = (50..54u8).collect();
    let mut stream = Vec::new();
    stream.extend_from_slice(&encode_chunk(&chunk(1, 9, 0, &a[0..4])));
    stream.extend_from_slice(&encode_chunk(&chunk(2, 4, 0, &b[0..1])));
    stream.extend_from_slice(&encode_chunk(&chunk(2, 4, 1, &b[1..4])));
    stream.extend_from_slice(&encode_chunk(&chunk(1, 9, 1, &a[4..9])));

    let mut buffer = ReassemblyBuffer::new();
    let first = lunatic_distributed::reassembly::read_next_stream_message(&mut buffer, &stream, 0);
    let (id1, data1, pos1) = match first {
        MessageRead::Message {
            message_id,
            data,
            next_pos,
        } => (message_id, data, next_pos),
        _ => panic!("the second arrival completes message 2"),
    };
    assert_eq!(id1, 2);
    assert_eq!(data1, b);
    let second =
        lunatic_distributed::reassembly::read_next_stream_message(&mut buffer, &stream, pos1);
    match second {
        MessageRead::Message {
            message_id,
            data,
            next_pos,
        } => {
            assert_eq!(message_id, 1);
            assert_eq!(data, a);
            assert_eq!(next_pos, stream.len());
        }
        _ => panic!("the last arrival completes message 1"),
    }
}

#[test]
fn read_message_reports_truncation() {
    let mut stream = encode_chunk(&chunk(1, 10, 0, &[1, 2, 3]));
    stream.truncate(stream.len() - 1);
    let mut buffer = ReassemblyBuffer::new();
    assert!(matches!(
        lunatic_distributed::reassembly::read_next_stream_message(&mut buffer, &stream, 0),
        MessageRead::Truncated
    ));
}

#[test]
fn read_message_reports_corruption() {
    let mut stream = Vec::new();
    stream.extend_from_slice(&encode_chunk(&chunk(1, 2, 0, &[1])));
    stream.extend_from_slice(&encode_chunk(&chunk(1, 2, 1, &[2, 3])));
    let mut buffer = ReassemblyBuffer::new();
    assert!(matches!(
        lunatic_distributed::reassembly::read_next_stream_message(&mut buffer, &stream, 0),
        MessageRead::Corrupt
    ));
}
