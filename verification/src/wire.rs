//! Wire format of the chunked framing protocol.
//!
//! A stream carries a sequence of chunks. Each chunk is a fixed-width
//! header — message id (8 bytes), declared total message size (4),
//! chunk id (8), chunk payload size (4), all little-endian — followed
//! by that many payload bytes. The chunk id travels on the wire for
//! diagnostics only; reassembly never consults it.

use vstd::bytes::*;
use vstd::prelude::*;
use vstd::slice::*;

verus! {

/// Width in bytes of a chunk header on the wire.
pub const CHUNK_HEADER_BYTES: usize = 24;

/// One wire fragment of a logical message, tagged with the message it
/// belongs to.
pub struct Chunk {
    pub message_id: u64,
    pub message_size: u32,
    pub chunk_id: u64,
    pub data: Vec<u8>,
}

/// Mathematical model of a [`Chunk`]: the same fields with the payload
/// as a byte sequence.
pub struct ChunkModel {
    pub message_id: u64,
    pub message_size: u32,
    pub chunk_id: u64,
    pub data: Seq<u8>,
}

impl View for Chunk {
    type V = ChunkModel;

    open spec fn view(&self) -> ChunkModel {
        ChunkModel {
            message_id: self.message_id,
            message_size: self.message_size,
            chunk_id: self.chunk_id,
            data: self.data@,
        }
    }
}

/// The bytes a chunk occupies on the wire: its header followed by its
/// payload.
pub open spec fn spec_encode_chunk(c: ChunkModel) -> Seq<u8> {
    spec_u64_to_le_bytes(c.message_id) + spec_u32_to_le_bytes(c.message_size)
        + spec_u64_to_le_bytes(c.chunk_id) + spec_u32_to_le_bytes(c.data.len() as u32) + c.data
}

/// Reading one chunk that starts at `pos` in `buf`: `None` when the
/// bytes from `pos` on are too few for a header or for the payload the
/// header declares; otherwise the chunk and the position just past it.
pub open spec fn spec_read_chunk(buf: Seq<u8>, pos: int) -> Option<(ChunkModel, int)> {
    if 0 <= pos && pos + CHUNK_HEADER_BYTES <= buf.len() {
        let message_id = spec_u64_from_le_bytes(buf.subrange(pos, pos + 8));
        let message_size = spec_u32_from_le_bytes(buf.subrange(pos + 8, pos + 12));
        let chunk_id = spec_u64_from_le_bytes(buf.subrange(pos + 12, pos + 20));
        let chunk_size = spec_u32_from_le_bytes(buf.subrange(pos + 20, pos + 24)) as int;
        let body = pos + CHUNK_HEADER_BYTES;
        if body + chunk_size <= buf.len() {
            Some(
                (
                    ChunkModel {
                        message_id,
                        message_size,
                        chunk_id,
                        data: buf.subrange(body, body + chunk_size),
                    },
                    body + chunk_size,
                ),
            )
        } else {
            None
        }
    } else {
        None
    }
}

/// Encodes one chunk for the wire: header, then payload.
pub fn encode_chunk(chunk: &Chunk) -> (r: Vec<u8>)
    requires
        chunk.data@.len() <= u32::MAX,
    ensures
        r@ == spec_encode_chunk(chunk@),
        r@.len() == CHUNK_HEADER_BYTES + chunk.data@.len(),
{
    let mut out = u64_to_le_bytes(chunk.message_id);
    let mut part = u32_to_le_bytes(chunk.message_size);
    out.append(&mut part);
    let mut part2 = u64_to_le_bytes(chunk.chunk_id);
    out.append(&mut part2);
    let mut part3 = u32_to_le_bytes(chunk.data.len() as u32);
    out.append(&mut part3);
    let ghost header = out@;
    let n = chunk.data.len();
    let mut i: usize = 0;
    while i < n
        invariant
            i <= n,
            n == chunk.data@.len(),
            out@ == header + chunk.data@.subrange(0, i as int),
        decreases n - i,
    {
        out.push(chunk.data[i]);
        assert(out@ =~= header + chunk.data@.subrange(0, i + 1));
        i = i + 1;
    }
    assert(chunk.data@.subrange(0, n as int) =~= chunk.data@);
    assert(out@ =~= spec_encode_chunk(chunk@));
    out
}

/// Reads the next chunk of a stream whose bytes so far are `buf`,
/// starting at `pos`: the header's four fields, then as many payload
/// bytes as the header declares. `None` is a truncated read — the
/// header or the payload is not there in full.
pub fn read_next_stream_chunk(buf: &Vec<u8>, pos: usize) -> (r: Option<(Chunk, usize)>)
    ensures
        match r {
            Some((c, next)) => {
                &&& spec_read_chunk(buf@, pos as int) == Some((c@, next as int))
                &&& pos < next <= buf@.len()
            },
            None => spec_read_chunk(buf@, pos as int) is None,
        },
{
    if buf.len() < CHUNK_HEADER_BYTES || pos > buf.len() - CHUNK_HEADER_BYTES {
        return None;
    }
    let s = buf.as_slice();
    let message_id = u64_from_le_bytes(slice_subrange(s, pos, pos + 8));
    let message_size = u32_from_le_bytes(slice_subrange(s, pos + 8, pos + 12));
    let chunk_id = u64_from_le_bytes(slice_subrange(s, pos + 12, pos + 20));
    let chunk_size = u32_from_le_bytes(slice_subrange(s, pos + 20, pos + 24));
    let body = pos + CHUNK_HEADER_BYTES;
    if (chunk_size as usize) > buf.len() - body {
        return None;
    }
    let data = slice_to_vec(slice_subrange(s, body, body + chunk_size as usize));
    Some((Chunk { message_id, message_size, chunk_id, data }, body + chunk_size as usize))
}

/// The payload length a chunk header declares: its last four bytes,
/// little-endian. A reader needs it to know how many payload bytes
/// follow the header.
pub fn header_chunk_size(header: &Vec<u8>) -> (r: u32)
    requires
        header@.len() == CHUNK_HEADER_BYTES,
    ensures
        r == spec_u32_from_le_bytes(header@.subrange(20, 24)),
{
    u32_from_le_bytes(slice_subrange(header.as_slice(), 20, 24))
}

/// Encoding then reading gives the chunk back: a chunk written at `pos`
/// of a larger buffer is read back intact, with the position just past
/// it, whatever bytes surround it.
pub proof fn lemma_chunk_round_trip(buf: Seq<u8>, pos: int, c: ChunkModel)
    requires
        c.data.len() <= u32::MAX,
        0 <= pos,
        pos + CHUNK_HEADER_BYTES + c.data.len() <= buf.len(),
        buf.subrange(pos, pos + CHUNK_HEADER_BYTES + c.data.len()) == spec_encode_chunk(c),
    ensures
        spec_read_chunk(buf, pos) == Some((c, pos + CHUNK_HEADER_BYTES + c.data.len())),
{
    lemma_auto_spec_u64_to_from_le_bytes();
    lemma_auto_spec_u32_to_from_le_bytes();
    let enc = spec_encode_chunk(c);
    let end = pos + CHUNK_HEADER_BYTES + c.data.len();
    assert(buf.subrange(pos, pos + 8) =~= enc.subrange(0, 8));
    assert(enc.subrange(0, 8) =~= spec_u64_to_le_bytes(c.message_id));
    assert(buf.subrange(pos + 8, pos + 12) =~= enc.subrange(8, 12));
    assert(enc.subrange(8, 12) =~= spec_u32_to_le_bytes(c.message_size));
    assert(buf.subrange(pos + 12, pos + 20) =~= enc.subrange(12, 20));
    assert(enc.subrange(12, 20) =~= spec_u64_to_le_bytes(c.chunk_id));
    assert(buf.subrange(pos + 20, pos + 24) =~= enc.subrange(20, 24));
    assert(enc.subrange(20, 24) =~= spec_u32_to_le_bytes(c.data.len() as u32));
    assert(buf.subrange(pos + 24, end) =~= enc.subrange(24, enc.len() as int));
    assert(enc.subrange(24, enc.len() as int) =~= c.data);
}

} // verus!
