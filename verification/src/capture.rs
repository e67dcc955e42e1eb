//! Captures: the blocks of a pcapng file, the packets in them, and the tables
//! that a run of blocks becomes.
use arrow::datatypes::Schema;
use std::sync::Arc;
use vstd::prelude::*;

use crate::buf;
use crate::buf::{Buf, CHUNK_SIZE};
use crate::columns;
use crate::columns::Batch;
use crate::packet;
use crate::row;
use crate::row::RowView;
use crate::schema;
use crate::wire;

verus! {

/// The length of a block header: the type of the block and its length.
pub const BLOCK_HEADER: usize = 8;

/// The length of the shortest block: its header and the length again.
pub const BLOCK_MIN: u32 = 12;

/// The type of a block that holds a packet as it was captured.
pub const ENHANCED_PACKET: u32 = 6;

/// Where the packet starts in the body of such a block.
pub const ENHANCED_DATA: usize = 20;

/// The type of a block that holds a packet and its length only.
pub const SIMPLE_PACKET: u32 = 3;

/// Where the packet starts in the body of such a block.
pub const SIMPLE_DATA: usize = 4;

/// What the header of a block says.
#[derive(Clone, Copy, Debug, PartialEq, Eq, Structural)]
pub struct BlockHeader {
    /// The type of the block.
    pub btype: u32,
    /// How many bytes follow the header.
    pub body_len: usize,
}

/// The header that eight bytes hold. There is none where they give a length that
/// no block can have: the capture ends there.
pub open spec fn header_of(hdr: Seq<u8>) -> Option<BlockHeader> {
    let blen = wire::u32_at(hdr, 4);
    if blen < BLOCK_MIN {
        None
    } else {
        Some(
            BlockHeader {
                btype: wire::u32_at(hdr, 0),
                body_len: (blen - BLOCK_HEADER) as usize,
            },
        )
    }
}

/// Reads the header of a block.
pub fn block_header(hdr: &[u8; 8]) -> (r: Option<BlockHeader>)
    ensures
        r == header_of(hdr@),
{
    let b = vstd::array::array_as_slice(hdr);
    let btype: u32 = wire::ru32(b, 0);
    let blen: u32 = wire::ru32(b, 4);
    if blen < BLOCK_MIN {
        return None;
    }
    Some(BlockHeader { btype, body_len: blen as usize - BLOCK_HEADER })
}

/// The packet in a block, if it holds a whole one.
pub open spec fn packet_in(btype: u32, body: Seq<u8>) -> Option<Seq<u8>> {
    if btype == ENHANCED_PACKET {
        if body.len() >= ENHANCED_DATA && ENHANCED_DATA + wire::u32_at(body, 12) <= body.len() {
            Some(body.subrange(ENHANCED_DATA as int, ENHANCED_DATA + wire::u32_at(body, 12)))
        } else {
            None
        }
    } else if btype == SIMPLE_PACKET && body.len() >= 8 {
        if SIMPLE_DATA + wire::u32_at(body, 0) <= body.len() {
            Some(body.subrange(SIMPLE_DATA as int, SIMPLE_DATA + wire::u32_at(body, 0)))
        } else {
            Some(body.skip(SIMPLE_DATA as int))
        }
    } else {
        None
    }
}

/// The bytes of a slice that may be missing.
pub open spec fn bytes_of(v: Option<&[u8]>) -> Option<Seq<u8>> {
    match v {
        Some(s) => Some(s@),
        None => None,
    }
}

/// Finds the packet in a block.
pub fn block_packet<'a>(btype: u32, body: &'a [u8]) -> (r: Option<&'a [u8]>)
    ensures
        bytes_of(r) == packet_in(btype, body@),
{
    if btype == ENHANCED_PACKET {
        if body.len() < ENHANCED_DATA {
            return None;
        }
        let cap_len: usize = wire::ru32(body, 12) as usize;
        if cap_len > body.len() - ENHANCED_DATA {
            return None;
        }
        Some(vstd::slice::slice_subrange(body, ENHANCED_DATA, ENHANCED_DATA + cap_len))
    } else if btype == SIMPLE_PACKET {
        if body.len() < 8 {
            return None;
        }
        let orig_len: usize = wire::ru32(body, 0) as usize;
        let most: usize = body.len() - SIMPLE_DATA;
        let cap_len: usize = if orig_len < most {
            orig_len
        } else {
            most
        };
        let packet = vstd::slice::slice_subrange(body, SIMPLE_DATA, SIMPLE_DATA + cap_len);
        proof {
            if orig_len > most {
                assert(packet@ =~= body@.skip(SIMPLE_DATA as int));
            }
        }
        Some(packet)
    } else {
        None
    }
}

/// What is to be done after a block.
#[derive(Clone, Copy, Debug, PartialEq, Eq, Structural)]
pub enum Step {
    /// Go on with the next block.
    Continue,
    /// Write the rows gathered so far as a table, then go on.
    WriteChunk,
    /// The rows of the block do not fit: stop.
    Full,
}

/// How far a conversion has got.
#[verifier::ext_equal]
pub struct Progress {
    /// The rows that are not written yet.
    pub pending: Seq<RowView>,
    /// The number of packets so far.
    pub packets: nat,
    /// The number of rows written.
    pub rows: nat,
    /// The number of tables written.
    pub chunks: nat,
}

impl Progress {
    /// The progress at the start.
    pub open spec fn start() -> Progress {
        Progress { pending: Seq::empty(), packets: 0, rows: 0, chunks: 0 }
    }

    /// The progress after a block whose rows fit.
    pub open spec fn after_block(self, btype: u32, body: Seq<u8>) -> Progress {
        match packet_in(btype, body) {
            Some(data) => Progress {
                pending: self.pending + packet::packet_rows(data),
                packets: self.packets + 1,
                ..self
            },
            None => self,
        }
    }

    /// Whether the rows of a block fit.
    pub open spec fn has_room(self, btype: u32, body: Seq<u8>) -> bool {
        match packet_in(btype, body) {
            Some(data) => row::fits(self.pending + packet::packet_rows(data)),
            None => true,
        }
    }

    /// Whether the rows are to be written after a block of this type: tables are
    /// written only after a block with a packet as it was captured.
    pub open spec fn is_due(self, btype: u32, body: Seq<u8>) -> bool {
        &&& btype == ENHANCED_PACKET
        &&& packet_in(btype, body) is Some
        &&& self.pending.len() >= CHUNK_SIZE
    }

    /// Whether rows are left to be written where the capture ends.
    pub open spec fn has_rest(self) -> bool {
        self.pending.len() > 0
    }

    /// The progress after the rows have been written.
    pub open spec fn after_chunk(self) -> Progress {
        Progress {
            pending: Seq::empty(),
            rows: self.rows + self.pending.len(),
            chunks: self.chunks + 1,
            ..self
        }
    }
}

/// A conversion: the rows gathered so far and what has been counted.
pub struct Converter {
    buf: Buf,
    total_pkts: usize,
    total_rows: usize,
    chunks_written: usize,
}

impl View for Converter {
    type V = Progress;

    closed spec fn view(&self) -> Progress {
        Progress {
            pending: self.buf@,
            packets: self.total_pkts as nat,
            rows: self.total_rows as nat,
            chunks: self.chunks_written as nat,
        }
    }
}

impl Converter {
    pub closed spec fn wf(&self) -> bool {
        self.buf.wf()
    }

    /// A conversion that has not begun.
    pub fn new() -> (r: Self)
        ensures
            r.wf(),
            r@ == Progress::start(),
    {
        Converter { buf: Buf::new(), total_pkts: 0, total_rows: 0, chunks_written: 0 }
    }

    /// The number of packets so far.
    pub fn total_pkts(&self) -> (r: usize)
        ensures
            r == self@.packets,
    {
        self.total_pkts
    }

    /// The number of rows written.
    pub fn total_rows(&self) -> (r: usize)
        ensures
            r == self@.rows,
    {
        self.total_rows
    }

    /// The number of tables written.
    pub fn chunks_written(&self) -> (r: usize)
        ensures
            r == self@.chunks,
    {
        self.chunks_written
    }

    /// The number of rows that are not written yet.
    pub fn pending(&self) -> (r: usize)
        requires
            self.wf(),
        ensures
            r == self@.pending.len(),
    {
        self.buf.len()
    }

    /// Takes a block in and says what is to be done next. Where its rows do not
    /// fit, those up to the first that does not are kept.
    pub fn on_block(&mut self, btype: u32, body: &[u8]) -> (step: Step)
        requires
            old(self).wf(),
            old(self)@.packets < usize::MAX,
        ensures
            final(self).wf(),
            step is Full <==> !old(self)@.has_room(btype, body@),
            step is WriteChunk <==> old(self)@.has_room(btype, body@) && old(self)@.after_block(
                btype,
                body@,
            ).is_due(btype, body@),
            !(step is Full) ==> final(self)@ == old(self)@.after_block(btype, body@),
            step is Full ==> {
                &&& packet::filled(
                    old(self)@.pending,
                    packet::packet_rows(packet_in(btype, body@)->0),
                    final(self)@.pending,
                )
                &&& final(self)@ == (Progress {
                    pending: final(self)@.pending,
                    ..old(self)@.after_block(btype, body@)
                })
            },
    {
        match block_packet(btype, body) {
            Some(data) => {
                self.total_pkts = self.total_pkts + 1;
                if !packet::try_process_pkt(data, &mut self.buf) {
                    return Step::Full;
                }
                if btype == ENHANCED_PACKET && self.buf.len() >= CHUNK_SIZE {
                    Step::WriteChunk
                } else {
                    Step::Continue
                }
            },
            None => Step::Continue,
        }
    }

    /// Whether a last table is to be written where the capture ends.
    pub fn on_end(&self) -> (write: bool)
        requires
            self.wf(),
        ensures
            write == self@.has_rest(),
    {
        self.buf.len() > 0
    }

    /// Gives the rows gathered so far as a table under the schema `sc`, and
    /// counts them as written. `price_bits` gives the bits of the floating-point
    /// number that stands for a price in ten-thousandths.
    pub fn take_chunk<F: Fn(i64) -> u64>(&mut self, sc: &Arc<Schema>, price_bits: F) -> (b: Batch)
        requires
            old(self).wf(),
            schema::schema_admits(columns::schema_fields(&**sc), old(self)@.pending),
            forall|v: i64| call_requires(price_bits, (v,)),
            old(self)@.rows + old(self)@.pending.len() <= usize::MAX,
            old(self)@.chunks < usize::MAX,
        ensures
            final(self).wf(),
            final(self)@ == old(self)@.after_chunk(),
            columns::batch_fields(&b) == columns::schema_fields(&**sc),
            columns::batch_columns(&b).len() == row::all_columns().len(),
            forall|k: int|
                0 <= k < row::all_columns().len() ==> buf::column_written(
                    price_bits,
                    old(self)@.pending,
                    row::all_columns()[k],
                    #[trigger] columns::batch_columns(&b)[k],
                ),
    {
        self.total_rows = self.total_rows + self.buf.len();
        self.chunks_written = self.chunks_written + 1;
        self.buf.finish(sc, price_bits)
    }
}

/// A block: its type and what follows its header.
pub struct Block {
    pub btype: u32,
    pub body: Seq<u8>,
}

/// A run of the conversion: the tables written and how far it has got.
pub struct Run {
    pub chunks: Seq<Seq<RowView>>,
    pub progress: Progress,
}

/// The run over blocks: each is taken in, and the rows are written where they
/// are due.
pub open spec fn run(blocks: Seq<Block>) -> Run
    decreases blocks.len(),
{
    if blocks.len() == 0 {
        Run { chunks: Seq::empty(), progress: Progress::start() }
    } else {
        let before = run(blocks.drop_last());
        let b = blocks.last();
        let p = before.progress.after_block(b.btype, b.body);
        if p.is_due(b.btype, b.body) {
            Run { chunks: before.chunks.push(p.pending), progress: p.after_chunk() }
        } else {
            Run { chunks: before.chunks, progress: p }
        }
    }
}

/// The rows of the packet in a block.
pub open spec fn block_rows(b: Block) -> Seq<RowView> {
    match packet_in(b.btype, b.body) {
        Some(data) => packet::packet_rows(data),
        None => Seq::empty(),
    }
}

/// The rows of all packets in blocks, in order.
pub open spec fn capture_rows(blocks: Seq<Block>) -> Seq<RowView>
    decreases blocks.len(),
{
    if blocks.len() == 0 {
        Seq::empty()
    } else {
        capture_rows(blocks.drop_last()) + block_rows(blocks.last())
    }
}

/// The rows of tables, in order.
pub open spec fn written_rows(chunks: Seq<Seq<RowView>>) -> Seq<RowView>
    decreases chunks.len(),
{
    if chunks.len() == 0 {
        Seq::empty()
    } else {
        written_rows(chunks.drop_last()) + chunks.last()
    }
}

/// Nothing is lost, repeated or moved: the rows of the tables, and behind them
/// those not written yet, are the rows of all packets in order.
pub proof fn law_no_row_is_lost(blocks: Seq<Block>)
    ensures
        written_rows(run(blocks).chunks) + run(blocks).progress.pending == capture_rows(blocks),
    decreases blocks.len(),
{
    if blocks.len() > 0 {
        law_no_row_is_lost(blocks.drop_last());
        let before = run(blocks.drop_last());
        let b = blocks.last();
        let p = before.progress.after_block(b.btype, b.body);
        assert(before.progress.pending + block_rows(b) =~= p.pending);
        if p.is_due(b.btype, b.body) {
            assert(run(blocks).chunks.drop_last() =~= before.chunks);
        }
        assert(written_rows(run(blocks).chunks) + run(blocks).progress.pending =~= written_rows(
            before.chunks,
        ) + before.progress.pending + block_rows(b));
    }
}

/// What is counted is what was done: the rows and tables written, and the blocks
/// with a packet.
pub proof fn law_counts(blocks: Seq<Block>)
    ensures
        run(blocks).progress.rows == written_rows(run(blocks).chunks).len(),
        run(blocks).progress.chunks == run(blocks).chunks.len(),
        run(blocks).progress.packets == packets_in(blocks),
        run(blocks).progress.rows + run(blocks).progress.pending.len() == capture_rows(
            blocks,
        ).len(),
    decreases blocks.len(),
{
    if blocks.len() > 0 {
        law_counts(blocks.drop_last());
        let before = run(blocks.drop_last());
        let b = blocks.last();
        let p = before.progress.after_block(b.btype, b.body);
        if p.is_due(b.btype, b.body) {
            assert(run(blocks).chunks.drop_last() =~= before.chunks);
        }
    }
    law_no_row_is_lost(blocks);
}

/// The number of blocks that hold a packet.
pub open spec fn packets_in(blocks: Seq<Block>) -> nat
    decreases blocks.len(),
{
    if blocks.len() == 0 {
        0
    } else {
        let b = blocks.last();
        packets_in(blocks.drop_last()) + if packet_in(b.btype, b.body) is Some {
            1nat
        } else {
            0nat
        }
    }
}

/// Every table that is written before the capture ends has at least the rows from
/// which on one is written.
pub proof fn law_tables_are_full(blocks: Seq<Block>, k: int)
    requires
        0 <= k < run(blocks).chunks.len(),
    ensures
        run(blocks).chunks[k].len() >= 500_000,
    decreases blocks.len(),
{
    if blocks.len() > 0 {
        let before = run(blocks.drop_last());
        if k < before.chunks.len() {
            law_tables_are_full(blocks.drop_last(), k);
        }
    }
}

/// The tables that blocks become: those of the run, and behind them a last one
/// where rows are left.
pub open spec fn tables(blocks: Seq<Block>) -> Seq<Seq<RowView>> {
    let r = run(blocks);
    if r.progress.has_rest() {
        r.chunks.push(r.progress.pending)
    } else {
        r.chunks
    }
}

/// The tables of a capture hold the rows of all its packets, in order, and no
/// table is empty.
pub proof fn law_tables_hold_the_capture(blocks: Seq<Block>)
    ensures
        written_rows(tables(blocks)) == capture_rows(blocks),
        forall|k: int| 0 <= k < tables(blocks).len() ==> (#[trigger] tables(blocks)[k]).len() > 0,
{
    let r = run(blocks);
    law_no_row_is_lost(blocks);
    if r.progress.has_rest() {
        assert(tables(blocks).drop_last() =~= r.chunks);
    } else {
        assert(written_rows(r.chunks) + r.progress.pending =~= written_rows(r.chunks));
    }
    assert forall|k: int| 0 <= k < tables(blocks).len() implies (
    #[trigger] tables(blocks)[k]).len() > 0 by {
        if k < r.chunks.len() {
            law_tables_are_full(blocks, k);
        }
    }
}

/// Whether no block is of the simple kind, after which nothing is written.
pub open spec fn none_simple(blocks: Seq<Block>) -> bool {
    forall|i: int| 0 <= i < blocks.len() ==> (#[trigger] blocks[i]).btype != SIMPLE_PACKET
}

/// Without simple blocks, fewer rows wait than a table has, and the rows of the
/// next block always fit.
pub proof fn law_without_simple_blocks(blocks: Seq<Block>, btype: u32, body: Seq<u8>)
    requires
        none_simple(blocks),
    ensures
        run(blocks).progress.pending.len() < 500_000,
        forall|k: int|
            0 <= k < run(blocks).chunks.len() ==> (#[trigger] run(blocks).chunks[k]).len()
                < CHUNK_SIZE + 0xffff,
        run(blocks).progress.has_room(btype, body),
    decreases blocks.len(),
{
    if blocks.len() > 0 {
        let front = blocks.drop_last();
        let b = blocks.last();
        assert forall|i: int| 0 <= i < front.len() implies (#[trigger] front[i]).btype
            != SIMPLE_PACKET by {
            assert(front[i] == blocks[i]);
        }
        assert(blocks[blocks.len() - 1] == b);
        law_without_simple_blocks(front, btype, body);
        let before = run(front);
        let p = before.progress.after_block(b.btype, b.body);
        if let Some(data) = packet_in(b.btype, b.body) {
            packet::law_at_most_one_row_per_message(data);
        }
        assert forall|k: int| 0 <= k < run(blocks).chunks.len() implies (
        #[trigger] run(blocks).chunks[k]).len() < CHUNK_SIZE + 0xffff by {
            if k < before.chunks.len() {
                assert(run(blocks).chunks[k] == before.chunks[k]);
            }
        }
    }
    if let Some(data) = packet_in(btype, body) {
        let pending = run(blocks).progress.pending;
        let new = packet::packet_rows(data);
        packet::law_at_most_one_row_per_message(data);
        packet::lemma_packet_rows_short(data);
        lemma_pending_short(blocks);
        lemma_short_joined(pending, new);
        row::lemma_short_rows_fit(pending + new);
    }
}

proof fn lemma_short_joined(a: Seq<RowView>, b: Seq<RowView>)
    requires
        row::short(a),
        row::short(b),
    ensures
        row::short(a + b),
{
    let all = a + b;
    assert forall|i: int, c: row::Column| 0 <= i < all.len() implies ((
    #[trigger] all[i].text(c)) matches Some(t) ==> t.len() <= row::LONGEST_TEXT) by {
        if i < a.len() {
            assert(a[i].text(c) == all[i].text(c));
        } else {
            assert(b[i - a.len()].text(c) == all[i].text(c));
        }
    }
}

proof fn lemma_pending_short(blocks: Seq<Block>)
    ensures
        row::short(run(blocks).progress.pending),
    decreases blocks.len(),
{
    if blocks.len() > 0 {
        let before = run(blocks.drop_last());
        let b = blocks.last();
        lemma_pending_short(blocks.drop_last());
        if let Some(data) = packet_in(b.btype, b.body) {
            packet::lemma_packet_rows_short(data);
            lemma_short_joined(before.progress.pending, packet::packet_rows(data));
        }
    }
}

/// The blocks that a capture is made of, up to the first that is not whole.
pub open spec fn blocks_in(bytes: Seq<u8>) -> Seq<Block>
    decreases bytes.len(),
{
    if bytes.len() < BLOCK_HEADER {
        Seq::empty()
    } else {
        match header_of(bytes.take(BLOCK_HEADER as int)) {
            None => Seq::empty(),
            Some(h) => {
                let end = BLOCK_HEADER + h.body_len;
                if end > bytes.len() {
                    Seq::empty()
                } else {
                    seq![
                        Block { btype: h.btype, body: bytes.subrange(BLOCK_HEADER as int, end) },
                    ] + blocks_in(bytes.skip(end))
                }
            },
        }
    }
}

/// A capture that is cut short has the first of the blocks of the whole capture.
pub proof fn law_truncated_capture(bytes: Seq<u8>, n: int)
    requires
        0 <= n <= bytes.len(),
    ensures
        blocks_in(bytes.take(n)).is_prefix_of(blocks_in(bytes)),
    decreases bytes.len(),
{
    let cut = bytes.take(n);
    if cut.len() >= BLOCK_HEADER {
        assert(cut.take(BLOCK_HEADER as int) =~= bytes.take(BLOCK_HEADER as int));
        if let Some(h) = header_of(bytes.take(BLOCK_HEADER as int)) {
            let end = BLOCK_HEADER + h.body_len;
            if end <= n {
                assert(cut.subrange(BLOCK_HEADER as int, end) =~= bytes.subrange(
                    BLOCK_HEADER as int,
                    end,
                ));
                assert(cut.skip(end) =~= bytes.skip(end).take(n - end));
                law_truncated_capture(bytes.skip(end), n - end);
            }
        }
    }
}

/// A capture that is cut short becomes the first of the rows that the whole
/// capture becomes.
pub proof fn law_truncated_capture_rows(bytes: Seq<u8>, n: int)
    requires
        0 <= n <= bytes.len(),
    ensures
        capture_rows(blocks_in(bytes.take(n))).is_prefix_of(capture_rows(blocks_in(bytes))),
{
    law_truncated_capture(bytes, n);
    lemma_rows_of_prefix(blocks_in(bytes.take(n)), blocks_in(bytes));
}

proof fn lemma_rows_of_prefix(a: Seq<Block>, b: Seq<Block>)
    requires
        a.is_prefix_of(b),
    ensures
        capture_rows(a).is_prefix_of(capture_rows(b)),
    decreases b.len(),
{
    if a.len() == b.len() {
        assert(a =~= b);
    } else {
        assert(a.is_prefix_of(b.drop_last()));
        lemma_rows_of_prefix(a, b.drop_last());
    }
}

/// The bytes of blocks as they stand in a capture.
pub open spec fn encoded(blocks: Seq<Block>) -> Seq<u8>
    decreases blocks.len(),
{
    if blocks.len() == 0 {
        Seq::empty()
    } else {
        let b = blocks[0];
        wire::le_bytes(b.btype as nat, 4) + wire::le_bytes(b.body.len() + BLOCK_HEADER as nat, 4)
            + b.body + encoded(blocks.drop_first())
    }
}

/// A capture of blocks is read back as those blocks, in order.
pub proof fn law_capture_of_blocks(blocks: Seq<Block>)
    requires
        forall|i: int|
            0 <= i < blocks.len() ==> BLOCK_MIN <= (#[trigger] blocks[i]).body.len() + BLOCK_HEADER
                <= u32::MAX,
    ensures
        blocks_in(encoded(blocks)) == blocks,
    decreases blocks.len(),
{
    if blocks.len() > 0 {
        let b = blocks[0];
        let rest = blocks.drop_first();
        let size = b.body.len() + BLOCK_HEADER as nat;
        let bytes = encoded(blocks);
        let hdr = bytes.take(BLOCK_HEADER as int);
        reveal_with_fuel(wire::pow256, 5);
        wire::law_le_value_of_le_bytes(b.btype as nat, 4);
        wire::law_le_value_of_le_bytes(size, 4);
        assert(hdr.subrange(0, 4) =~= wire::le_bytes(b.btype as nat, 4));
        assert(hdr.subrange(4, 8) =~= wire::le_bytes(size, 4));
        assert(bytes.subrange(BLOCK_HEADER as int, size as int) =~= b.body);
        assert(bytes.skip(size as int) =~= encoded(rest));
        assert forall|i: int| 0 <= i < rest.len() implies BLOCK_MIN <= (
        #[trigger] rest[i]).body.len() + BLOCK_HEADER <= u32::MAX by {
            assert(rest[i] == blocks[i + 1]);
        }
        law_capture_of_blocks(rest);
        assert(blocks_in(bytes) =~= blocks);
    }
}

/// The header of a block is read back: its type, and a length without the eight
/// bytes of the header. A block of less than twelve bytes has none.
pub proof fn law_header_read_back(btype: u32, length: u32)
    ensures
        ({
            let hdr = wire::le_bytes(btype as nat, 4) + wire::le_bytes(length as nat, 4);
            &&& hdr.len() == 8
            &&& length < 12 ==> header_of(hdr) is None
            &&& length >= 12 ==> header_of(hdr) == Some(
                BlockHeader { btype, body_len: (length - 8) as usize },
            )
        }),
{
    let ty = wire::le_bytes(btype as nat, 4);
    let len = wire::le_bytes(length as nat, 4);
    reveal_with_fuel(wire::pow256, 5);
    wire::law_le_value_of_le_bytes(btype as nat, 4);
    wire::law_le_value_of_le_bytes(length as nat, 4);
    wire::law_u32_read_back(Seq::empty(), btype, len);
    wire::law_u32_read_back(ty, length, Seq::empty());
    assert(Seq::<u8>::empty() + ty + len =~= ty + len);
    assert(ty + len + Seq::<u8>::empty() =~= ty + len);
}

/// The body of a block with a packet as it was captured: the interface and the two
/// halves of the time (`lead`), the captured length, the original length, the packet
/// or what there is of it, and what follows it.
pub open spec fn enhanced_body(lead: Seq<u8>, captured: u32, original: u32, rest: Seq<u8>) -> Seq<
    u8,
> {
    lead + wire::le_bytes(captured as nat, 4) + wire::le_bytes(original as nat, 4) + rest
}

/// A captured packet is found again, whatever the interface, the time and the
/// original length are and whatever follows it. A block that ends before the packet
/// does holds none.
pub proof fn law_captured_packet_found(lead: Seq<u8>, captured: u32, original: u32, rest: Seq<u8>)
    requires
        lead.len() == 12,
    ensures
        captured <= rest.len() ==> packet_in(6, enhanced_body(lead, captured, original, rest))
            == Some(rest.take(captured as int)),
        captured > rest.len() ==> packet_in(6, enhanced_body(lead, captured, original, rest))
            is None,
{
    let body = enhanced_body(lead, captured, original, rest);
    let first = wire::le_bytes(captured as nat, 4);
    let second = wire::le_bytes(original as nat, 4);
    reveal_with_fuel(wire::pow256, 5);
    wire::law_le_value_of_le_bytes(captured as nat, 4);
    wire::law_le_value_of_le_bytes(original as nat, 4);
    wire::law_u32_read_back(lead, captured, second + rest);
    assert(body =~= lead + first + (second + rest));
    if captured <= rest.len() {
        assert(body.subrange(20, 20 + captured) =~= rest.take(captured as int));
    }
}

/// The packet of a block with its length only is found again: as many bytes as the
/// length says, or all there are. Such a block has room for four bytes of packet.
pub proof fn law_simple_packet_found(original: u32, rest: Seq<u8>)
    ensures
        ({
            let found = packet_in(3, wire::le_bytes(original as nat, 4) + rest);
            &&& rest.len() < 4 ==> found is None
            &&& rest.len() >= 4 && original <= rest.len() ==> found == Some(
                rest.take(original as int),
            )
            &&& rest.len() >= 4 && original > rest.len() ==> found == Some(rest)
        }),
{
    let first = wire::le_bytes(original as nat, 4);
    let body = first + rest;
    reveal_with_fuel(wire::pow256, 5);
    wire::law_le_value_of_le_bytes(original as nat, 4);
    wire::law_u32_read_back(Seq::empty(), original, rest);
    assert(Seq::<u8>::empty() + first + rest =~= body);
    assert(body.skip(4) =~= rest);
    if original <= rest.len() {
        assert(body.subrange(4, 4 + original) =~= rest.take(original as int));
    }
}

/// Blocks of other types, and those too short for their lengths, hold no packet.
pub proof fn law_other_blocks_hold_no_packet(btype: u32, body: Seq<u8>)
    requires
        btype != 6 && btype != 3 || btype == 6 && body.len() < 20 || btype == 3 && body.len() < 8,
    ensures
        packet_in(btype, body) is None,
{
}

/// A block with a packet counts as one packet and adds the rows of the packet behind
/// those that wait; any other block changes nothing. Neither writes anything.
pub proof fn law_block_taken_in(p: Progress, btype: u32, body: Seq<u8>)
    ensures
        ({
            let q = p.after_block(btype, body);
            &&& q.rows == p.rows && q.chunks == p.chunks
            &&& packet_in(btype, body) is None ==> q == p && p.has_room(btype, body)
            &&& packet_in(btype, body) matches Some(data) ==> {
                &&& q.packets == p.packets + 1
                &&& q.pending == p.pending + packet::packet_rows(data)
            }
        }),
{
}

/// Writing the rows that wait leaves none, counts one table more and as many rows
/// more as there were, and no packet.
pub proof fn law_chunk_written(p: Progress)
    ensures
        p.after_chunk().pending.len() == 0,
        p.after_chunk().rows == p.rows + p.pending.len(),
        p.after_chunk().chunks == p.chunks + 1,
        p.after_chunk().packets == p.packets,
        !p.after_chunk().has_rest(),
        p.pending.len() > 0 <==> p.has_rest(),
{
}

/// After a block with a captured packet fewer than 500,000 rows wait; after any other
/// block nothing is written.
pub proof fn law_when_tables_are_written(blocks: Seq<Block>, b: Block)
    ensures
        b.btype == 6 && packet_in(6, b.body) is Some ==> run(blocks.push(b)).progress.pending.len()
            < 500_000,
        b.btype != 6 || packet_in(6, b.body) is None ==> run(blocks.push(b)).chunks == run(
            blocks,
        ).chunks,
        run(blocks.push(b)).chunks.len() <= run(blocks).chunks.len() + 1,
        run(blocks.push(b)).chunks.len() > run(blocks).chunks.len() ==> run(
            blocks.push(b),
        ).chunks.last().len() >= 500_000,
{
    assert(blocks.push(b).drop_last() =~= blocks);
}

/// A packet as it is delivered: the messages in it, and what stands around them in
/// the packet and in the block that holds it.
pub struct Delivery {
    pub lead: Seq<u8>,
    pub original: u32,
    pub headers: packet::Headers,
    pub messages: Seq<packet::Message>,
    pub tail: Seq<u8>,
    pub padding: Seq<u8>,
}

impl Delivery {
    /// The packet.
    pub open spec fn data(self) -> Seq<u8> {
        self.headers.bytes() + packet::encoded(self.messages) + self.tail
    }

    /// The block that holds the packet.
    pub open spec fn block(self) -> Block {
        Block {
            btype: 6,
            body: enhanced_body(
                self.lead,
                self.data().len() as u32,
                self.original,
                self.data() + self.padding,
            ),
        }
    }

    /// Whether the packet is one of DEEP 1.0 that says how many messages it carries,
    /// and the block can say how long it is.
    pub open spec fn valid(self) -> bool {
        &&& self.lead.len() == 12
        &&& self.headers.valid()
        &&& self.headers.protocol == 0x8004
        &&& self.headers.count == self.messages.len()
        &&& forall|i: int|
            0 <= i < self.messages.len() ==> (#[trigger] self.messages[i]).payload.len() + 1
                <= 0xffff
        &&& self.data().len() + self.padding.len() + 28 <= u32::MAX
    }
}

/// The messages of deliveries, in order.
pub open spec fn messages_of(deliveries: Seq<Delivery>) -> Seq<packet::Message>
    decreases deliveries.len(),
{
    if deliveries.len() == 0 {
        Seq::empty()
    } else {
        messages_of(deliveries.drop_last()) + deliveries.last().messages
    }
}

/// A capture of packets becomes tables that hold the rows of all their messages, in
/// order, and counts every packet.
pub proof fn law_capture_read_back(deliveries: Seq<Delivery>)
    requires
        forall|i: int| 0 <= i < deliveries.len() ==> (#[trigger] deliveries[i]).valid(),
    ensures
        ({
            let blocks = blocks_in(encoded(deliveries.map_values(|d: Delivery| d.block())));
            &&& written_rows(tables(blocks)) == packet::rows_of(messages_of(deliveries))
            &&& run(blocks).progress.packets == deliveries.len()
        }),
{
    let blocks = deliveries.map_values(|d: Delivery| d.block());
    assert forall|i: int| 0 <= i < blocks.len() implies BLOCK_MIN <= (
    #[trigger] blocks[i]).body.len() + BLOCK_HEADER <= u32::MAX by {
        lemma_delivery(deliveries[i]);
    }
    law_capture_of_blocks(blocks);
    law_tables_hold_the_capture(blocks);
    law_counts(blocks);
    lemma_deliveries(deliveries);
}

proof fn lemma_delivery(d: Delivery)
    requires
        d.valid(),
    ensures
        d.block().body.len() == d.data().len() + d.padding.len() + 20,
        packet_in(6, d.block().body) == Some(d.data()),
        packet::packet_rows(d.data()) == packet::rows_of(d.messages),
{
    let captured = d.data().len() as u32;
    law_captured_packet_found(d.lead, captured, d.original, d.data() + d.padding);
    assert((d.data() + d.padding).take(captured as int) =~= d.data());
    packet::law_packet_read_back(d.headers, d.messages, d.tail);
    assert(d.messages.take(d.messages.len() as int) =~= d.messages);
    reveal_with_fuel(wire::pow256, 5);
    wire::law_le_value_of_le_bytes(captured as nat, 4);
    wire::law_le_value_of_le_bytes(d.original as nat, 4);
}

proof fn lemma_deliveries(deliveries: Seq<Delivery>)
    requires
        forall|i: int| 0 <= i < deliveries.len() ==> (#[trigger] deliveries[i]).valid(),
    ensures
        ({
            let blocks = deliveries.map_values(|d: Delivery| d.block());
            &&& capture_rows(blocks) == packet::rows_of(messages_of(deliveries))
            &&& packets_in(blocks) == deliveries.len()
        }),
    decreases deliveries.len(),
{
    let blocks = deliveries.map_values(|d: Delivery| d.block());
    if deliveries.len() > 0 {
        let front = deliveries.drop_last();
        let last = deliveries.last();
        assert forall|i: int| 0 <= i < front.len() implies (#[trigger] front[i]).valid() by {
            assert(front[i] == deliveries[i]);
        }
        assert(deliveries[deliveries.len() - 1].valid());
        lemma_deliveries(front);
        lemma_delivery(last);
        assert(blocks.drop_last() =~= front.map_values(|d: Delivery| d.block()));
        assert(blocks.last() == last.block());
        if last.messages.len() > 0 {
            packet::law_rows_of_messages(messages_of(front), last.messages, last.messages[0]);
        } else {
            assert(messages_of(deliveries) =~= messages_of(front));
            assert(capture_rows(blocks) =~= capture_rows(blocks.drop_last()));
        }
    }
}

} // verus!
