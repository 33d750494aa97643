use lunatic_distributed::simple::{
    decode_length_prefix, encode_simple, read_simple_message, LENGTH_PREFIX_BYTES,
};

fn round_trip(payload: Vec<u8>) {
    let wire = encode_simple(&payload);
    assert_eq!(wire.len(), LENGTH_PREFIX_BYTES + payload.len());
    let (back, next) = read_simple_message(&wire, 0).expect("a complete message");
    assert_eq!(back, payload);
    assert_eq!(next, wire.len());
}

#[test]
fn simple_round_trip_empty() {
    round_trip(Vec::new());
}

#[test]
fn simple_round_trip_one_byte() {
    round_trip(vec![0xAB]);
}

#[test]
fn simple_round_trip_exceeds_one_packet() {
    // Larger than any single network packet: the protocol is
    // indifferent to how the transport slices it.
    let payload: Vec<u8> = (0..4096u32).map(|i| (i % 251) as u8).collect();
    round_trip(payload);
}

#[test]
fn simple_prefix_is_little_endian() {
    let wire = encode_simple(&vec![7, 8, 9]);
    assert_eq!(&wire[0..4], &[3, 0, 0, 0]);
    assert_eq!(&wire[4..], &[7, 8, 9]);
}

#[test]
fn simple_message_read_at_offset() {
    let mut wire = vec![0xFF, 0xFF];
    wire.extend_from_slice(&encode_simple(&vec![1, 2]));
    wire.push(0xEE);
    let (back, next) = read_simple_message(&wire, 2).expect("a complete message");
    assert_eq!(back, vec![1, 2]);
    assert_eq!(next, wire.len() - 1);
}

#[test]
fn length_prefix_decodes_little_endian() {
    assert_eq!(decode_length_prefix(&vec![1, 2, 0, 0]), 0x0201);
    let wire = encode_simple(&vec![9; 300]);
    assert_eq!(decode_length_prefix(&wire[0..4].to_vec()), 300);
}

#[test]
fn simple_truncated_read_is_refused() {
    let mut wire = encode_simple(&vec![1, 2, 3]);
    wire.pop();
    assert!(read_simple_message(&wire, 0).is_none());
    assert!(read_simple_message(&vec![1, 0, 0], 0).is_none());
    assert!(read_simple_message(&Vec::new(), 0).is_none());
}
