//! Reassembly of chunked messages.
//!
//! A stream's receiver keeps one entry per in-flight message id: the
//! declared total size and the bytes accumulated so far. Chunks of
//! different messages may interleave freely; each is appended to its
//! own entry in arrival order, keyed by message id alone. When an
//! entry's accumulated length reaches its declared size, the entry is
//! dropped and the message is emitted. An arrival that would push an
//! entry past its declared size is rejected and the entry discarded:
//! accumulated length never exceeds declared size.

use crate::wire::{Chunk, ChunkModel};
use vstd::hash_map::HashMapWithView;
use vstd::prelude::*;

verus! {

/// Accumulation state of one in-flight message.
pub struct MessageEntry {
    pub declared_size: u32,
    pub data: Vec<u8>,
}

/// Mathematical model of a [`MessageEntry`].
pub struct EntryModel {
    pub declared_size: u32,
    pub data: Seq<u8>,
}

impl View for MessageEntry {
    type V = EntryModel;

    open spec fn view(&self) -> EntryModel {
        EntryModel { declared_size: self.declared_size, data: self.data@ }
    }
}

/// What one arriving chunk produced.
pub enum ChunkOutcome {
    /// The chunk completed its message: the full payload, emitted once.
    Complete { message_id: u64, data: Vec<u8> },
    /// The chunk was stored; its message is still short of its declared
    /// size.
    Incomplete,
    /// The chunk would have pushed its message past the declared size;
    /// the message's entry was discarded.
    Oversize,
}

/// Mathematical model of a [`ChunkOutcome`].
pub enum OutcomeModel {
    Complete { message_id: u64, data: Seq<u8> },
    Incomplete,
    Oversize,
}

impl View for ChunkOutcome {
    type V = OutcomeModel;

    open spec fn view(&self) -> OutcomeModel {
        match self {
            ChunkOutcome::Complete { message_id, data } => OutcomeModel::Complete {
                message_id: *message_id,
                data: data@,
            },
            ChunkOutcome::Incomplete => OutcomeModel::Incomplete,
            ChunkOutcome::Oversize => OutcomeModel::Oversize,
        }
    }
}

/// Every stored entry is strictly short of its declared size: an entry
/// that reaches it is emitted at once, never stored.
pub open spec fn buffer_wf(m: Map<u64, EntryModel>) -> bool {
    forall|id: u64| #[trigger] m.contains_key(id) ==> m[id].data.len() < m[id].declared_size
}

/// One step of reassembly: the buffer contents after a chunk arrives,
/// and what the arrival produced. The declared size of an already known
/// message is the stored one; a later chunk's own declaration is not
/// consulted.
pub open spec fn spec_push_chunk(m: Map<u64, EntryModel>, c: ChunkModel) -> (Map<
    u64,
    EntryModel,
>, OutcomeModel) {
    let declared = if m.contains_key(c.message_id) {
        m[c.message_id].declared_size
    } else {
        c.message_size
    };
    let accumulated = if m.contains_key(c.message_id) {
        m[c.message_id].data + c.data
    } else {
        c.data
    };
    if accumulated.len() > declared {
        (m.remove(c.message_id), OutcomeModel::Oversize)
    } else if accumulated.len() == declared {
        (
            m.remove(c.message_id),
            OutcomeModel::Complete { message_id: c.message_id, data: accumulated },
        )
    } else {
        (
            m.insert(c.message_id, EntryModel { declared_size: declared, data: accumulated }),
            OutcomeModel::Incomplete,
        )
    }
}

/// Per-stream reassembly state: one entry per in-flight message id.
pub struct ReassemblyBuffer {
    entries: HashMapWithView<u64, MessageEntry>,
}

impl ReassemblyBuffer {
    /// The in-flight messages: declared size and accumulated bytes of
    /// each, by message id.
    pub closed spec fn contents(self) -> Map<u64, EntryModel> {
        self.entries@.map_values(|e: MessageEntry| e@)
    }

    /// An empty buffer: no message is in flight.
    pub fn new() -> (r: Self)
        ensures
            r.contents() == Map::<u64, EntryModel>::empty(),
            buffer_wf(r.contents()),
    {
        let r = ReassemblyBuffer { entries: HashMapWithView::new() };
        proof {
            assert(r.contents() =~= Map::<u64, EntryModel>::empty());
        }
        r
    }

    /// Applies one arriving chunk: appends its payload to its message's
    /// entry (or opens the entry), emits the message once the declared
    /// size is reached exactly, and rejects a chunk that would exceed
    /// it.
    pub fn push_chunk(&mut self, chunk: Chunk) -> (r: ChunkOutcome)
        requires
            buffer_wf(old(self).contents()),
        ensures
            buffer_wf(final(self).contents()),
            final(self).contents() == spec_push_chunk(old(self).contents(), chunk@).0,
            r@ == spec_push_chunk(old(self).contents(), chunk@).1,
    {
        let message_id = chunk.message_id;
        let mut incoming = chunk.data;
        let ghost m0 = old(self).contents();
        match self.entries.remove(&message_id) {
            Some(mut entry) => {
                proof {
                    assert(m0.contains_key(message_id));
                    assert(m0[message_id] == entry@);
                }
                let room = entry.declared_size as usize - entry.data.len();
                if incoming.len() > room {
                    proof {
                        assert(self.entries@.map_values(|e: MessageEntry| e@) =~= m0.remove(
                            message_id,
                        ));
                    }
                    ChunkOutcome::Oversize
                } else if incoming.len() == room {
                    entry.data.append(&mut incoming);
                    proof {
                        assert(self.entries@.map_values(|e: MessageEntry| e@) =~= m0.remove(
                            message_id,
                        ));
                    }
                    ChunkOutcome::Complete { message_id, data: entry.data }
                } else {
                    entry.data.append(&mut incoming);
                    let ghost updated = entry@;
                    self.entries.insert(message_id, entry);
                    proof {
                        assert(self.entries@.map_values(|e: MessageEntry| e@) =~= m0.insert(
                            message_id,
                            updated,
                        ));
                    }
                    ChunkOutcome::Incomplete
                }
            },
            None => {
                proof {
                    assert(!m0.contains_key(message_id));
                    assert(m0.remove(message_id) =~= m0);
                }
                if incoming.len() > chunk.message_size as usize {
                    ChunkOutcome::Oversize
                } else if incoming.len() == chunk.message_size as usize {
                    ChunkOutcome::Complete { message_id, data: incoming }
                } else {
                    let entry = MessageEntry { declared_size: chunk.message_size, data: incoming };
                    let ghost opened = entry@;
                    self.entries.insert(message_id, entry);
                    proof {
                        assert(self.entries@.map_values(|e: MessageEntry| e@) =~= m0.insert(
                            message_id,
                            opened,
                        ));
                    }
                    ChunkOutcome::Incomplete
                }
            },
        }
    }

    /// Whether a message with this id is in flight.
    pub fn is_pending(&self, message_id: u64) -> (r: bool)
        ensures
            r == self.contents().contains_key(message_id),
    {
        self.entries.contains_key(&message_id)
    }
}

/// How one attempt to read a complete message off a stream ends.
pub enum MessageRead {
    /// A chunk completed a message: its id, its full payload, and the
    /// position just past the last chunk consumed.
    Message { message_id: u64, data: Vec<u8>, next_pos: usize },
    /// The bytes end in the middle of a chunk: the session is over.
    Truncated,
    /// A chunk would push its message past the declared size: the
    /// session is over.
    Corrupt,
}

/// Model of [`MessageRead`], together with the buffer contents left
/// behind.
pub enum ReadModel {
    Message { message_id: u64, data: Seq<u8>, next_pos: int, buffer: Map<u64, EntryModel> },
    Truncated { buffer: Map<u64, EntryModel> },
    Corrupt { buffer: Map<u64, EntryModel> },
}

/// Reading one message from the bytes of a stream, starting at `pos`
/// with in-flight state `m`: chunks are consumed in wire order until
/// one completes a message.
pub open spec fn spec_read_message(m: Map<u64, EntryModel>, buf: Seq<u8>, pos: int) -> ReadModel
    decreases buf.len() - pos,
{
    match crate::wire::spec_read_chunk(buf, pos) {
        Option::None => ReadModel::Truncated { buffer: m },
        Option::Some((c, next)) => {
            let (m2, out) = spec_push_chunk(m, c);
            match out {
                OutcomeModel::Complete { message_id, data } => ReadModel::Message {
                    message_id,
                    data,
                    next_pos: next,
                    buffer: m2,
                },
                OutcomeModel::Incomplete => spec_read_message(m2, buf, next),
                OutcomeModel::Oversize => ReadModel::Corrupt { buffer: m2 },
            }
        },
    }
}

/// Reads the next complete message from the bytes of a stream: chunks
/// are read in wire order and applied to the reassembly buffer until
/// one of them completes a message. Messages other than the emitted one
/// stay in flight across calls.
#[verifier::loop_isolation(false)]
pub fn read_next_stream_message(buffer: &mut ReassemblyBuffer, buf: &Vec<u8>, pos: usize) -> (r:
    MessageRead)
    requires
        buffer_wf(old(buffer).contents()),
    ensures
        buffer_wf(final(buffer).contents()),
        ({
            let model = spec_read_message(old(buffer).contents(), buf@, pos as int);
            match r {
                MessageRead::Message { message_id, data, next_pos } => model
                    == (ReadModel::Message {
                    message_id,
                    data: data@,
                    next_pos: next_pos as int,
                    buffer: final(buffer).contents(),
                }),
                MessageRead::Truncated => model == (ReadModel::Truncated {
                    buffer: final(buffer).contents(),
                }),
                MessageRead::Corrupt => model == (ReadModel::Corrupt {
                    buffer: final(buffer).contents(),
                }),
            }
        }),
{
    let ghost goal = spec_read_message(old(buffer).contents(), buf@, pos as int);
    let mut p = pos;
    loop
        invariant
            buffer_wf(buffer.contents()),
            spec_read_message(buffer.contents(), buf@, p as int) == goal,
        decreases buf@.len() - p,
    {
        match crate::wire::read_next_stream_chunk(buf, p) {
            Option::None => {
                proof {
                    reveal_with_fuel(spec_read_message, 1);
                }
                return MessageRead::Truncated;
            },
            Option::Some((chunk, next)) => {
                let ghost pre = buffer.contents();
                let ghost chunk_model = chunk@;
                let out = buffer.push_chunk(chunk);
                proof {
                    reveal_with_fuel(spec_read_message, 1);
                    assert(crate::wire::spec_read_chunk(buf@, p as int) == Some(
                        (chunk_model, next as int),
                    ));
                    assert(buffer.contents() == spec_push_chunk(pre, chunk_model).0);
                    assert(out@ == spec_push_chunk(pre, chunk_model).1);
                }
                match out {
                    ChunkOutcome::Complete { message_id, data } => {
                        return MessageRead::Message { message_id, data, next_pos: next };
                    },
                    ChunkOutcome::Incomplete => {
                        p = next;
                    },
                    ChunkOutcome::Oversize => {
                        return MessageRead::Corrupt;
                    },
                }
            },
        }
    }
}

/// The chunks of `chunks` that belong to message `id`, in arrival
/// order.
pub open spec fn chunks_for(chunks: Seq<ChunkModel>, id: u64) -> Seq<ChunkModel>
    decreases chunks.len(),
{
    if chunks.len() == 0 {
        Seq::empty()
    } else if chunks.last().message_id == id {
        chunks_for(chunks.drop_last(), id).push(chunks.last())
    } else {
        chunks_for(chunks.drop_last(), id)
    }
}

/// The payloads of a chunk sequence, concatenated in order.
pub open spec fn concat_data(chunks: Seq<ChunkModel>) -> Seq<u8>
    decreases chunks.len(),
{
    if chunks.len() == 0 {
        Seq::empty()
    } else {
        concat_data(chunks.drop_last()) + chunks.last().data
    }
}

/// Feeding a chunk sequence through the reassembler, in order: the
/// final buffer contents and one outcome per chunk.
pub open spec fn spec_feed(m: Map<u64, EntryModel>, chunks: Seq<ChunkModel>) -> (Map<
    u64,
    EntryModel,
>, Seq<OutcomeModel>)
    decreases chunks.len(),
{
    if chunks.len() == 0 {
        (m, Seq::empty())
    } else {
        let prev = spec_feed(m, chunks.drop_last());
        let step = spec_push_chunk(prev.0, chunks.last());
        (step.0, prev.1.push(step.1))
    }
}

/// The payloads emitted for message `id` by a sequence of outcomes, in
/// order.
pub open spec fn emissions_for(outs: Seq<OutcomeModel>, id: u64) -> Seq<Seq<u8>>
    decreases outs.len(),
{
    if outs.len() == 0 {
        Seq::empty()
    } else {
        let rest = emissions_for(outs.drop_last(), id);
        match outs.last() {
            OutcomeModel::Complete { message_id, data } => if message_id == id {
                rest.push(data)
            } else {
                rest
            },
            _ => rest,
        }
    }
}

/// `chunks` carries `payload` as message `id`: the chunks of that id
/// concatenate to `payload`, every one of them declares the payload's
/// length as the message size, and no proper prefix of them already
/// reaches that length (so completion falls on the last of them).
pub open spec fn well_chunked(chunks: Seq<ChunkModel>, id: u64, payload: Seq<u8>) -> bool {
    let own = chunks_for(chunks, id);
    &&& own.len() >= 1
    &&& concat_data(own) == payload
    &&& payload.len() <= u32::MAX
    &&& forall|i: int| 0 <= i < own.len() ==> (#[trigger] own[i]).message_size == payload.len()
    &&& forall|k: int|
        1 <= k < own.len() ==> concat_data(#[trigger] own.take(k)).len() < payload.len()
}

/// One reassembly step keeps the buffer well formed.
pub proof fn lemma_push_preserves_wf(m: Map<u64, EntryModel>, c: ChunkModel)
    requires
        buffer_wf(m),
    ensures
        buffer_wf(spec_push_chunk(m, c).0),
{
}

/// One reassembly step touches no message but the chunk's own: every
/// other entry is exactly as it was.
pub proof fn lemma_push_frame(m: Map<u64, EntryModel>, c: ChunkModel, other: u64)
    requires
        other != c.message_id,
    ensures
        spec_push_chunk(m, c).0.contains_key(other) == m.contains_key(other),
        m.contains_key(other) ==> spec_push_chunk(m, c).0[other] == m[other],
{
}

/// While message `id` is short of `sz` bytes, feeding any chunk
/// sequence accumulates its payload for `id` in order and emits nothing
/// for `id`, whatever chunks of other messages are interleaved.
proof fn lemma_feed_accumulates(
    m: Map<u64, EntryModel>,
    chunks: Seq<ChunkModel>,
    id: u64,
    sz: u32,
)
    requires
        buffer_wf(m),
        !m.contains_key(id),
        forall|i: int|
            0 <= i < chunks_for(chunks, id).len() ==> (#[trigger] chunks_for(
                chunks,
                id,
            )[i]).message_size == sz,
        forall|k: int|
            1 <= k <= chunks_for(chunks, id).len() ==> concat_data(
                #[trigger] chunks_for(chunks, id).take(k),
            ).len() < sz,
    ensures
        spec_feed(m, chunks).1.len() == chunks.len(),
        buffer_wf(spec_feed(m, chunks).0),
        chunks_for(chunks, id).len() == 0 ==> !spec_feed(m, chunks).0.contains_key(id),
        chunks_for(chunks, id).len() > 0 ==> spec_feed(m, chunks).0.contains_key(id) && spec_feed(
            m,
            chunks,
        ).0[id] == (EntryModel { declared_size: sz, data: concat_data(chunks_for(chunks, id)) }),
        emissions_for(spec_feed(m, chunks).1, id) == Seq::<Seq<u8>>::empty(),
    decreases chunks.len(),
{
    if chunks.len() == 0 {
        return ;
    }
    let rest = chunks.drop_last();
    let c = chunks.last();
    let own = chunks_for(chunks, id);
    let own_rest = chunks_for(rest, id);
    let outs1 = spec_feed(m, rest).1;
    let step = spec_push_chunk(spec_feed(m, rest).0, c);
    assert(spec_feed(m, chunks).1 == outs1.push(step.1));
    assert(outs1.push(step.1).drop_last() =~= outs1);
    if c.message_id == id {
        assert(own == own_rest.push(c));
        assert(own_rest =~= own.drop_last());
        assert forall|k: int| 1 <= k <= own_rest.len() implies concat_data(
            #[trigger] own_rest.take(k),
        ).len() < sz by {
            assert(own_rest.take(k) =~= own.take(k));
        }
        assert forall|i: int| 0 <= i < own_rest.len() implies (#[trigger] own_rest[i]).message_size
            == sz by {
            assert(own_rest[i] == own[i]);
        }
        lemma_feed_accumulates(m, rest, id, sz);
        let m1 = spec_feed(m, rest).0;
        lemma_push_preserves_wf(m1, c);
        assert(own.take(own.len() as int) =~= own);
        if own_rest.len() == 0 {
            assert(concat_data(own) =~= c.data);
        } else {
            assert(m1[id].data + c.data =~= concat_data(own));
        }
        assert(concat_data(own).len() < sz);
    } else {
        assert(own == own_rest);
        lemma_feed_accumulates(m, rest, id, sz);
        let m1 = spec_feed(m, rest).0;
        lemma_push_preserves_wf(m1, c);
        lemma_push_frame(m1, c, id);
    }
}

/// Round trip of reassembly: a payload split into chunks that share one
/// message id and declare the payload's length is emitted exactly once,
/// exactly as the original bytes, on the arrival of the last of its
/// chunks — whatever chunks of other messages interleave with them.
pub proof fn lemma_reassembly_round_trip(
    m: Map<u64, EntryModel>,
    chunks: Seq<ChunkModel>,
    id: u64,
    payload: Seq<u8>,
)
    requires
        buffer_wf(m),
        !m.contains_key(id),
        well_chunked(chunks, id, payload),
    ensures
        spec_feed(m, chunks).1.len() == chunks.len(),
        emissions_for(spec_feed(m, chunks).1, id) == seq![payload],
        !spec_feed(m, chunks).0.contains_key(id),
        buffer_wf(spec_feed(m, chunks).0),
    decreases chunks.len(),
{
    assert(chunks.len() > 0) by {
        if chunks.len() == 0 {
            assert(chunks_for(chunks, id) =~= Seq::empty());
        }
    }
    let rest = chunks.drop_last();
    let c = chunks.last();
    let own = chunks_for(chunks, id);
    let own_rest = chunks_for(rest, id);
    let outs1 = spec_feed(m, rest).1;
    let step = spec_push_chunk(spec_feed(m, rest).0, c);
    assert(spec_feed(m, chunks).1 == outs1.push(step.1));
    assert(outs1.push(step.1).drop_last() =~= outs1);
    if c.message_id == id {
        assert(own == own_rest.push(c));
        assert(own_rest =~= own.drop_last());
        assert forall|k: int| 1 <= k <= own_rest.len() implies concat_data(
            #[trigger] own_rest.take(k),
        ).len() < payload.len() by {
            assert(own_rest.take(k) =~= own.take(k));
        }
        assert forall|i: int| 0 <= i < own_rest.len() implies (#[trigger] own_rest[i]).message_size
            == payload.len() by {
            assert(own_rest[i] == own[i]);
        }
        lemma_feed_accumulates(m, rest, id, payload.len() as u32);
        let m1 = spec_feed(m, rest).0;
        if own_rest.len() == 0 {
            assert(concat_data(own) =~= c.data);
        } else {
            assert(m1[id].data + c.data =~= concat_data(own));
        }
        lemma_push_preserves_wf(m1, c);
    } else {
        assert(own == own_rest);
        assert(well_chunked(rest, id, payload));
        lemma_reassembly_round_trip(m, rest, id, payload);
        let m1 = spec_feed(m, rest).0;
        lemma_push_preserves_wf(m1, c);
        lemma_push_frame(m1, c, id);
    }
}

/// The bytes a chunk sequence occupies on the wire, laid end to end.
pub open spec fn spec_encode_stream(chunks: Seq<ChunkModel>) -> Seq<u8>
    decreases chunks.len(),
{
    if chunks.len() == 0 {
        Seq::empty()
    } else {
        crate::wire::spec_encode_chunk(chunks.first()) + spec_encode_stream(chunks.drop_first())
    }
}

/// Concatenated payloads split at the front: the first chunk's bytes,
/// then the rest's.
proof fn lemma_concat_front(chunks: Seq<ChunkModel>)
    requires
        chunks.len() >= 1,
    ensures
        concat_data(chunks) == chunks.first().data + concat_data(chunks.drop_first()),
    decreases chunks.len(),
{
    if chunks.len() == 1 {
        assert(chunks.drop_last() =~= Seq::empty());
        assert(chunks.drop_first() =~= Seq::empty());
        assert(concat_data(chunks) =~= chunks.first().data + concat_data(chunks.drop_first()));
    } else {
        let t = chunks.drop_last();
        let c = chunks.last();
        lemma_concat_front(t);
        assert(chunks.drop_first() =~= t.drop_first().push(c));
        assert(chunks.drop_first().drop_last() =~= t.drop_first());
        assert(concat_data(chunks) =~= chunks.first().data + concat_data(chunks.drop_first()));
    }
}

/// Reading one message off a wire that carries the encodings of its
/// remaining chunks, from any accumulation state the earlier chunks
/// left behind.
proof fn lemma_read_stream_from(
    m: Map<u64, EntryModel>,
    buf: Seq<u8>,
    pos: int,
    chunks: Seq<ChunkModel>,
    id: u64,
    payload: Seq<u8>,
)
    requires
        buffer_wf(m),
        chunks.len() >= 1,
        forall|i: int|
            0 <= i < chunks.len() ==> (#[trigger] chunks[i]).message_id == id
                && chunks[i].message_size == payload.len(),
        payload.len() <= u32::MAX,
        (if m.contains_key(id) {
            m[id].data
        } else {
            Seq::empty()
        }) + concat_data(chunks) == payload,
        m.contains_key(id) ==> m[id].declared_size == payload.len(),
        forall|k: int|
            1 <= k < chunks.len() ==> ((if m.contains_key(id) {
                m[id].data
            } else {
                Seq::empty()
            }) + concat_data(#[trigger] chunks.take(k))).len() < payload.len(),
        0 <= pos,
        pos + spec_encode_stream(chunks).len() <= buf.len(),
        buf.subrange(pos, pos + spec_encode_stream(chunks).len()) == spec_encode_stream(chunks),
    ensures
        spec_read_message(m, buf, pos) == (ReadModel::Message {
            message_id: id,
            data: payload,
            next_pos: pos + spec_encode_stream(chunks).len(),
            buffer: m.remove(id),
        }),
    decreases chunks.len(),
{
    let acc = if m.contains_key(id) {
        m[id].data
    } else {
        Seq::empty()
    };
    let c0 = chunks.first();
    let enc0 = crate::wire::spec_encode_chunk(c0);
    let rest = chunks.drop_first();
    let stream = spec_encode_stream(chunks);
    let len0 = crate::wire::CHUNK_HEADER_BYTES + c0.data.len();
    vstd::bytes::lemma_auto_spec_u64_to_from_le_bytes();
    vstd::bytes::lemma_auto_spec_u32_to_from_le_bytes();
    lemma_concat_front(chunks);
    assert(payload.len() == acc.len() + c0.data.len() + concat_data(rest).len());
    assert(c0.data.len() <= u32::MAX);
    assert(enc0.len() == len0);
    assert(stream == enc0 + spec_encode_stream(rest));
    assert(buf.subrange(pos, pos + len0) =~= enc0) by {
        assert(stream.subrange(0, len0 as int) =~= enc0);
        assert(buf.subrange(pos, pos + len0) =~= buf.subrange(pos, pos + stream.len()).subrange(
            0,
            len0 as int,
        ));
    }
    crate::wire::lemma_chunk_round_trip(buf, pos, c0);
    assert(chunks.take(1) =~= seq![c0]);
    assert(chunks.take(1).drop_last() =~= Seq::empty());
    assert(concat_data(Seq::<ChunkModel>::empty()) == Seq::<u8>::empty());
    assert(concat_data(chunks.take(1)) =~= c0.data);
    let step = spec_push_chunk(m, c0);
    reveal_with_fuel(spec_read_message, 1);
    if rest.len() == 0 {
        assert(concat_data(rest) =~= Seq::empty());
        assert(acc + c0.data =~= payload);
        assert(step.1 == (OutcomeModel::Complete { message_id: id, data: acc + c0.data }));
        assert(spec_encode_stream(rest) =~= Seq::<u8>::empty());
        assert(stream.len() == len0);
    } else {
        let accumulated = acc + c0.data;
        assert(accumulated.len() < payload.len());
        let m2 = m.insert(
            id,
            EntryModel { declared_size: payload.len() as u32, data: accumulated },
        );
        assert(step == (m2, OutcomeModel::Incomplete));
        assert forall|k: int| 1 <= k < rest.len() implies (m2[id].data + concat_data(
            #[trigger] rest.take(k),
        )).len() < payload.len() by {
            assert(chunks.take(k + 1).first() == c0);
            assert(chunks.take(k + 1).drop_first() =~= rest.take(k));
            lemma_concat_front(chunks.take(k + 1));
            assert(acc + concat_data(chunks.take(k + 1)) =~= m2[id].data + concat_data(
                rest.take(k),
            ));
        }
        assert(m2[id].data + concat_data(rest) =~= payload) by {
            assert(acc + concat_data(chunks) =~= (acc + c0.data) + concat_data(rest));
        }
        assert(buf.subrange(pos + len0, pos + len0 + spec_encode_stream(rest).len())
            =~= spec_encode_stream(rest)) by {
            assert(stream.subrange(len0 as int, stream.len() as int) =~= spec_encode_stream(rest));
            assert(buf.subrange(pos + len0, pos + stream.len()) =~= buf.subrange(
                pos,
                pos + stream.len(),
            ).subrange(len0 as int, stream.len() as int));
        }
        lemma_read_stream_from(m2, buf, pos + len0, rest, id, payload);
        assert(m2.remove(id) =~= m.remove(id));
        assert(pos + len0 + spec_encode_stream(rest).len() == pos + stream.len());
    }
}

/// Round trip of the whole codec: a payload carried as the chunks of
/// one message, encoded end to end onto a wire, is read back as exactly
/// the original bytes, consuming exactly those bytes and leaving no
/// entry behind.
pub proof fn lemma_stream_round_trip(chunks: Seq<ChunkModel>, id: u64, payload: Seq<u8>)
    requires
        chunks.len() >= 1,
        forall|i: int|
            0 <= i < chunks.len() ==> (#[trigger] chunks[i]).message_id == id
                && chunks[i].message_size == payload.len(),
        concat_data(chunks) == payload,
        payload.len() <= u32::MAX,
        forall|k: int|
            1 <= k < chunks.len() ==> concat_data(#[trigger] chunks.take(k)).len() < payload.len(),
    ensures
        spec_read_message(Map::empty(), spec_encode_stream(chunks), 0) == (ReadModel::Message {
            message_id: id,
            data: payload,
            next_pos: spec_encode_stream(chunks).len() as int,
            buffer: Map::<u64, EntryModel>::empty(),
        }),
{
    let stream = spec_encode_stream(chunks);
    let m = Map::<u64, EntryModel>::empty();
    assert(chunks.take(0) =~= Seq::empty());
    assert(concat_data(chunks.take(0)) =~= Seq::<u8>::empty());
    assert(stream.subrange(0, stream.len() as int) =~= stream);
    lemma_read_stream_from(m, stream, 0, chunks, id, payload);
    assert(m.remove(id) =~= m);
}

/// Interleaving independence: two messages whose chunk sequences
/// interleave in any order on one stream each reassemble to their own
/// original bytes, with nothing leaking between them, and each is
/// emitted exactly once.
pub proof fn lemma_interleaving_independence(
    m: Map<u64, EntryModel>,
    chunks: Seq<ChunkModel>,
    id_a: u64,
    payload_a: Seq<u8>,
    id_b: u64,
    payload_b: Seq<u8>,
)
    requires
        buffer_wf(m),
        id_a != id_b,
        !m.contains_key(id_a),
        !m.contains_key(id_b),
        well_chunked(chunks, id_a, payload_a),
        well_chunked(chunks, id_b, payload_b),
    ensures
        emissions_for(spec_feed(m, chunks).1, id_a) == seq![payload_a],
        emissions_for(spec_feed(m, chunks).1, id_b) == seq![payload_b],
{
    lemma_reassembly_round_trip(m, chunks, id_a, payload_a);
    lemma_reassembly_round_trip(m, chunks, id_b, payload_b);
}

} // verus!
