use iex_deep_parser::buf::CHUNK_SIZE;
use iex_deep_parser::capture::{block_header, block_packet, BlockHeader, Converter, Step};
use iex_deep_parser::schema::make_schema;

fn pf_bits(raw: i64) -> u64 {
    (raw as f64 / 10_000.0).to_bits()
}

fn packet(count: u16) -> Vec<u8> {
    let mut data = vec![0u8; 82];
    data[44..46].copy_from_slice(&0x8004u16.to_le_bytes());
    data[56..58].copy_from_slice(&count.to_le_bytes());
    for t in 0..count as i64 {
        data.extend([10u8, 0, 0x53, 0x4f]);
        data.extend(t.to_le_bytes());
    }
    data
}

fn enhanced(data: &[u8]) -> Vec<u8> {
    let mut body = vec![0u8; 12];
    body.extend((data.len() as u32).to_le_bytes());
    body.extend((data.len() as u32).to_le_bytes());
    body.extend(data);
    body.extend([0u8; 4]);
    body
}

fn simple(data: &[u8]) -> Vec<u8> {
    let mut body = (data.len() as u32).to_le_bytes().to_vec();
    body.extend(data);
    body.extend([0u8; 4]);
    body
}

#[test]
fn block_headers() {
    assert_eq!(
        block_header(&[6, 0, 0, 0, 32, 0, 0, 0]),
        Some(BlockHeader { btype: 6, body_len: 24 })
    );
    assert_eq!(
        block_header(&[0x0a, 0x0d, 0x0d, 0x0a, 12, 0, 0, 0]),
        Some(BlockHeader { btype: 0x0a0d_0d0a, body_len: 4 })
    );
    assert_eq!(
        block_header(&[3, 0, 0, 0, 0xff, 0xff, 0xff, 0xff]),
        Some(BlockHeader { btype: 3, body_len: 0xffff_fff7 })
    );
    for blen in 0..12u8 {
        assert_eq!(block_header(&[6, 0, 0, 0, blen, 0, 0, 0]), None);
    }
}

#[test]
fn packets_in_enhanced_blocks() {
    let body = enhanced(&[1, 2, 3]);
    assert_eq!(block_packet(6, &body), Some(&[1u8, 2, 3][..]));
    assert_eq!(block_packet(6, &body[..23]), Some(&[1u8, 2, 3][..]));
    assert_eq!(block_packet(6, &body[..22]), None);
    assert_eq!(block_packet(6, &body[..19]), None);
    assert_eq!(block_packet(6, &enhanced(&[])), Some(&[][..]));
    let mut huge = enhanced(&[1, 2, 3]);
    huge[12..16].copy_from_slice(&[0xff; 4]);
    assert_eq!(block_packet(6, &huge), None);
}

#[test]
fn packets_in_simple_blocks() {
    assert_eq!(block_packet(3, &simple(&[1, 2, 3])), Some(&[1u8, 2, 3][..]));
    let mut cut = simple(&[1, 2, 3]);
    cut[0] = 200;
    assert_eq!(block_packet(3, &cut), Some(&[1u8, 2, 3, 0, 0, 0, 0][..]));
    assert_eq!(block_packet(3, &[9, 0, 0, 0, 1, 2, 3]), None);
    assert_eq!(block_packet(3, &[0, 0, 0, 0, 1, 2, 3, 4]), Some(&[][..]));
}

#[test]
fn other_blocks_hold_no_packet() {
    for btype in [0u32, 1, 2, 4, 5, 7, 0x0a0d_0d0a] {
        assert_eq!(block_packet(btype, &enhanced(&[1, 2, 3])), None);
    }
}

#[test]
fn blocks_are_counted() {
    let mut c = Converter::new();
    assert_eq!(c.on_block(0x0a0d_0d0a, &[0; 20]), Step::Continue);
    assert_eq!(c.total_pkts(), 0);
    assert_eq!(c.on_block(6, &enhanced(&packet(3))), Step::Continue);
    assert_eq!(c.on_block(3, &simple(&packet(2))), Step::Continue);
    assert_eq!(c.on_block(6, &enhanced(&[1, 2, 3])), Step::Continue);
    assert_eq!(c.total_pkts(), 3);
    assert_eq!(c.pending(), 5);
    assert_eq!(c.total_rows(), 0);
    assert_eq!(c.chunks_written(), 0);
    let batch = c.take_chunk(&make_schema(), pf_bits).batch;
    assert_eq!(batch.num_rows(), 5);
    assert_eq!(c.pending(), 0);
    assert_eq!(c.total_rows(), 5);
    assert_eq!(c.chunks_written(), 1);
    assert_eq!(c.total_pkts(), 3);
}

#[test]
fn tables_are_written_when_full() {
    let mut c = Converter::new();
    let body = enhanced(&packet(62_500));
    for _ in 0..7 {
        assert_eq!(c.on_block(6, &body), Step::Continue);
    }
    assert_eq!(c.on_block(6, &body), Step::WriteChunk);
    assert_eq!(c.pending(), CHUNK_SIZE);
    let batch = c.take_chunk(&make_schema(), pf_bits).batch;
    assert_eq!(batch.num_rows(), 500_000);
    assert_eq!(c.on_block(6, &enhanced(&packet(1))), Step::Continue);
    assert_eq!(c.pending(), 1);
    assert_eq!(c.total_rows(), 500_000);
    let last = c.take_chunk(&make_schema(), pf_bits).batch;
    assert_eq!(last.num_rows(), 1);
    assert_eq!(c.total_rows(), 500_001);
    assert_eq!(c.chunks_written(), 2);
}

#[test]
fn simple_blocks_do_not_end_a_table() {
    let mut c = Converter::new();
    let body = simple(&packet(62_500));
    for _ in 0..9 {
        assert_eq!(c.on_block(3, &body), Step::Continue);
    }
    assert_eq!(c.pending(), 562_500);
    assert_eq!(c.on_block(6, &enhanced(&[])), Step::WriteChunk);
    assert_eq!(c.take_chunk(&make_schema(), pf_bits).batch.num_rows(), 562_500);
}

/// Reads the blocks of `bytes` as a stream of them is read.
fn convert(bytes: &[u8]) -> (usize, usize) {
    let mut c = Converter::new();
    let mut rest = bytes;
    while rest.len() >= 8 {
        let hdr: [u8; 8] = rest[..8].try_into().unwrap();
        let Some(h) = block_header(&hdr) else { break };
        if rest.len() - 8 < h.body_len {
            break;
        }
        c.on_block(h.btype, &rest[8..8 + h.body_len]);
        rest = &rest[8 + h.body_len..];
    }
    (c.total_pkts(), c.pending())
}

#[test]
fn truncated_captures_give_the_first_rows() {
    let mut bytes = Vec::new();
    for n in [1u16, 2, 3] {
        let body = enhanced(&packet(n));
        bytes.extend(6u32.to_le_bytes());
        bytes.extend((body.len() as u32 + 8).to_le_bytes());
        bytes.extend(body);
    }
    assert_eq!(convert(&bytes), (3, 6));
    let mut last = (0, 0);
    for n in 0..=bytes.len() {
        let got = convert(&bytes[..n]);
        assert!(got.0 >= last.0);
        assert_eq!(got.1, got.0 * (got.0 + 1) / 2);
        last = got;
    }
    assert_eq!(last, (3, 6));
}

#[test]
fn a_last_table_is_written_where_rows_are_left() {
    let mut c = Converter::new();
    assert!(!c.on_end());
    assert_eq!(c.on_block(6, &enhanced(&packet(0))), Step::Continue);
    assert!(!c.on_end());
    assert_eq!(c.on_block(6, &enhanced(&packet(2))), Step::Continue);
    assert!(c.on_end());
    assert_eq!(c.take_chunk(&make_schema(), pf_bits).batch.num_rows(), 2);
    assert!(!c.on_end());
    assert_eq!((c.total_pkts(), c.total_rows(), c.chunks_written()), (2, 2, 1));
}
