//! The simple companion protocol for point-to-point exchanges: one
//! self-contained message, sent as a 4-byte little-endian length prefix
//! followed by exactly that many raw bytes. Unlike the chunked
//! protocol, nothing interleaves: one send is one message.

use vstd::bytes::*;
use vstd::prelude::*;
use vstd::slice::*;

verus! {

/// Width in bytes of the length prefix on the wire.
pub const LENGTH_PREFIX_BYTES: usize = 4;

/// The bytes one simple-protocol message occupies on the wire.
pub open spec fn spec_encode_simple(payload: Seq<u8>) -> Seq<u8> {
    spec_u32_to_le_bytes(payload.len() as u32) + payload
}

/// Reading one simple-protocol message that starts at `pos` in `buf`:
/// `None` when the prefix or the payload it declares is not there in
/// full; otherwise the payload and the position just past it.
pub open spec fn spec_read_simple(buf: Seq<u8>, pos: int) -> Option<(Seq<u8>, int)> {
    if 0 <= pos && pos + LENGTH_PREFIX_BYTES <= buf.len() {
        let size = spec_u32_from_le_bytes(buf.subrange(pos, pos + LENGTH_PREFIX_BYTES)) as int;
        let body = pos + LENGTH_PREFIX_BYTES;
        if body + size <= buf.len() {
            Some((buf.subrange(body, body + size), body + size))
        } else {
            None
        }
    } else {
        None
    }
}

/// Encodes one message: its length, little-endian in four bytes, then
/// its bytes.
pub fn encode_simple(payload: &Vec<u8>) -> (r: Vec<u8>)
    requires
        payload@.len() <= u32::MAX,
    ensures
        r@ == spec_encode_simple(payload@),
        r@.len() == LENGTH_PREFIX_BYTES + payload@.len(),
{
    let mut out = u32_to_le_bytes(payload.len() as u32);
    let ghost prefix = out@;
    let n = payload.len();
    let mut i: usize = 0;
    while i < n
        invariant
            i <= n,
            n == payload@.len(),
            out@ == prefix + payload@.subrange(0, i as int),
        decreases n - i,
    {
        out.push(payload[i]);
        assert(out@ =~= prefix + payload@.subrange(0, i + 1));
        i = i + 1;
    }
    assert(payload@.subrange(0, n as int) =~= payload@);
    assert(out@ =~= spec_encode_simple(payload@));
    out
}

/// Reads one message: four prefix bytes, then as many payload bytes as
/// they declare. `None` is a truncated read.
pub fn read_simple_message(buf: &Vec<u8>, pos: usize) -> (r: Option<(Vec<u8>, usize)>)
    ensures
        match r {
            Some((payload, next)) => {
                &&& spec_read_simple(buf@, pos as int) == Some((payload@, next as int))
                &&& pos < next <= buf@.len()
            },
            None => spec_read_simple(buf@, pos as int) is None,
        },
{
    if buf.len() < LENGTH_PREFIX_BYTES || pos > buf.len() - LENGTH_PREFIX_BYTES {
        return None;
    }
    let s = buf.as_slice();
    let size = u32_from_le_bytes(slice_subrange(s, pos, pos + LENGTH_PREFIX_BYTES));
    let body = pos + LENGTH_PREFIX_BYTES;
    if (size as usize) > buf.len() - body {
        return None;
    }
    let payload = slice_to_vec(slice_subrange(s, body, body + size as usize));
    Some((payload, body + size as usize))
}

/// The message length a prefix declares, little-endian. A reader needs
/// it to know how many payload bytes follow the prefix.
pub fn decode_length_prefix(prefix: &Vec<u8>) -> (r: u32)
    requires
        prefix@.len() == LENGTH_PREFIX_BYTES,
    ensures
        r == spec_u32_from_le_bytes(prefix@),
{
    u32_from_le_bytes(prefix.as_slice())
}

/// Round trip of the simple protocol: a message written at `pos` of a
/// larger buffer is read back byte-identical, whatever bytes surround
/// it — for the empty payload as for any other.
pub proof fn lemma_simple_round_trip(buf: Seq<u8>, pos: int, payload: Seq<u8>)
    requires
        payload.len() <= u32::MAX,
        0 <= pos,
        pos + LENGTH_PREFIX_BYTES + payload.len() <= buf.len(),
        buf.subrange(pos, pos + LENGTH_PREFIX_BYTES + payload.len()) == spec_encode_simple(payload),
    ensures
        spec_read_simple(buf, pos) == Some((payload, pos + LENGTH_PREFIX_BYTES + payload.len())),
{
    lemma_auto_spec_u32_to_from_le_bytes();
    let enc = spec_encode_simple(payload);
    let end = pos + LENGTH_PREFIX_BYTES + payload.len();
    assert(buf.subrange(pos, pos + LENGTH_PREFIX_BYTES) =~= enc.subrange(
        0,
        LENGTH_PREFIX_BYTES as int,
    ));
    assert(enc.subrange(0, LENGTH_PREFIX_BYTES as int) =~= spec_u32_to_le_bytes(
        payload.len() as u32,
    ));
    assert(buf.subrange(pos + LENGTH_PREFIX_BYTES, end) =~= enc.subrange(
        LENGTH_PREFIX_BYTES as int,
        enc.len() as int,
    ));
    assert(enc.subrange(LENGTH_PREFIX_BYTES as int, enc.len() as int) =~= payload);
}

} // verus!
