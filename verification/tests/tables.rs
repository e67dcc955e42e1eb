use arrow::array::{Array, AsArray};
use arrow::datatypes::{DataType, Field, Float64Type, Int64Type, Schema, UInt32Type, UInt8Type};
use arrow::record_batch::RecordBatch;
use iex_deep_parser::buf::Buf;
use iex_deep_parser::message::decode_message;
use iex_deep_parser::row::Row;
use iex_deep_parser::schema::make_schema;
use std::sync::Arc;

fn pf_bits(raw: i64) -> u64 {
    (raw as f64 / 10_000.0).to_bits()
}

/// A payload whose symbol is `symbol` and whose later bytes count up.
fn payload(code: u8, time: i64, symbol: &str, n: usize) -> Vec<u8> {
    let mut p = vec![code];
    p.extend_from_slice(&time.to_le_bytes());
    let mut padded = symbol.as_bytes().to_vec();
    padded.resize(8, b' ');
    p.extend_from_slice(&padded);
    while p.len() < n {
        p.push(p.len() as u8);
    }
    p.truncate(n);
    p
}

fn add(buf: &mut Buf, mt: u8, p: &[u8]) {
    let row = decode_message(mt, p).unwrap();
    assert!(buf.row_fits(&row));
    buf.push_row(&row);
}

fn text(batch: &RecordBatch, column: &str) -> Vec<Option<String>> {
    let a = batch.column_by_name(column).unwrap().as_string::<i32>();
    a.iter().map(|v| v.map(str::to_string)).collect()
}

fn floats(batch: &RecordBatch, column: &str) -> Vec<Option<f64>> {
    batch.column_by_name(column).unwrap().as_primitive::<Float64Type>().iter().collect()
}

fn u32s(batch: &RecordBatch, column: &str) -> Vec<Option<u32>> {
    batch.column_by_name(column).unwrap().as_primitive::<UInt32Type>().iter().collect()
}

fn u8s(batch: &RecordBatch, column: &str) -> Vec<Option<u8>> {
    batch.column_by_name(column).unwrap().as_primitive::<UInt8Type>().iter().collect()
}

fn some(s: &str) -> Option<String> {
    Some(s.to_string())
}

#[test]
fn an_empty_buffer_gives_an_empty_table() {
    let mut buf = Buf::new();
    assert_eq!(buf.len(), 0);
    let batch = buf.finish(&make_schema(), pf_bits).batch;
    assert_eq!(batch.num_rows(), 0);
    assert_eq!(batch.num_columns(), 33);
    assert_eq!(batch.schema(), make_schema());
}

#[test]
fn rows_become_columns() {
    let mut buf = Buf::new();
    let mut plu = payload(0x01, 5, "ZIEXT", 29);
    plu[17..21].copy_from_slice(&9_700u32.to_le_bytes());
    plu[21..29].copy_from_slice(&990_500i64.to_le_bytes());
    let mut trade = payload(0x00, 6, "AAPL", 37);
    trade[17..21].copy_from_slice(&100u32.to_le_bytes());
    trade[21..29].copy_from_slice(&(-1i64).to_le_bytes());
    trade[29..37].copy_from_slice(&429_974i64.to_le_bytes());
    add(&mut buf, 0x38, &plu);
    add(&mut buf, 0x42, &trade);
    add(&mut buf, 0x53, &payload(0x43, 7, "", 9));
    assert_eq!(buf.len(), 3);
    let batch = buf.finish(&make_schema(), pf_bits).batch;
    assert_eq!(batch.num_rows(), 3);
    assert_eq!(
        text(&batch, "msg_type"),
        vec![some("price_level_update_buy"), some("trade_break"), some("system_event")]
    );
    assert_eq!(batch.column(1).as_primitive::<Int64Type>().values().to_vec(), vec![5, 6, 7]);
    assert_eq!(text(&batch, "symbol"), vec![some("ZIEXT"), some("AAPL"), some("")]);
    assert_eq!(u8s(&batch, "flags"), vec![Some(1), Some(0), None]);
    assert_eq!(text(&batch, "side"), vec![some("B"), None, None]);
    assert_eq!(floats(&batch, "price"), vec![Some(99.05), Some(-0.0001), None]);
    assert_eq!(u32s(&batch, "size"), vec![Some(9_700), Some(100), None]);
    let ids: Vec<Option<i64>> =
        batch.column(7).as_primitive::<Int64Type>().iter().collect();
    assert_eq!(ids, vec![None, Some(429_974), None]);
    let breaks: Vec<Option<bool>> = batch.column(8).as_boolean().iter().collect();
    assert_eq!(breaks, vec![None, Some(true), None]);
    assert_eq!(text(&batch, "system_event"), vec![None, None, some("end_of_messages")]);
}

#[test]
fn auction_and_directory_columns() {
    let mut buf = Buf::new();
    let mut a = payload(0x43, 1, "X", 79);
    for (at, raw) in [(21usize, 10_000i64), (29, 20_000), (47, 30_000), (55, 40_000), (63, 50_000)] {
        a[at..at + 8].copy_from_slice(&raw.to_le_bytes());
    }
    a[71..79].copy_from_slice(&60_000i64.to_le_bytes());
    a[17..21].copy_from_slice(&7u32.to_le_bytes());
    a[37..41].copy_from_slice(&8u32.to_le_bytes());
    a[41] = 0x53;
    a[42] = 2;
    a[43..47].copy_from_slice(&9u32.to_le_bytes());
    let mut d = payload(0xa0, 2, "Y", 30);
    d[17..21].copy_from_slice(&100u32.to_le_bytes());
    d[21..29].copy_from_slice(&123_456i64.to_le_bytes());
    d[29] = 1;
    add(&mut buf, 0x41, &a);
    add(&mut buf, 0x44, &d);
    let batch = buf.finish(&make_schema(), pf_bits).batch;
    assert_eq!(text(&batch, "auction_type"), vec![some("closing"), None]);
    assert_eq!(u32s(&batch, "paired_shares"), vec![Some(7), None]);
    assert_eq!(floats(&batch, "reference_price"), vec![Some(1.0), None]);
    assert_eq!(floats(&batch, "indicative_clearing_price"), vec![Some(2.0), None]);
    assert_eq!(u32s(&batch, "imbalance_shares"), vec![Some(8), None]);
    assert_eq!(text(&batch, "imbalance_side"), vec![some("S"), None]);
    assert_eq!(u8s(&batch, "extension_number"), vec![Some(2), None]);
    assert_eq!(u32s(&batch, "scheduled_auction_time"), vec![Some(9), None]);
    assert_eq!(floats(&batch, "auction_book_clearing_price"), vec![Some(3.0), None]);
    assert_eq!(floats(&batch, "collar_reference_price"), vec![Some(4.0), None]);
    assert_eq!(floats(&batch, "lower_auction_collar"), vec![Some(5.0), None]);
    assert_eq!(floats(&batch, "upper_auction_collar"), vec![Some(6.0), None]);
    assert_eq!(u8s(&batch, "flags"), vec![None, Some(0xa0)]);
    assert_eq!(u32s(&batch, "round_lot_size"), vec![None, Some(100)]);
    assert_eq!(floats(&batch, "adj_poc_price"), vec![None, Some(12.3456)]);
    assert_eq!(u8s(&batch, "luld_tier"), vec![None, Some(1)]);
}

#[test]
fn status_columns() {
    let mut buf = Buf::new();
    let mut t = payload(0x48, 1, "X", 21);
    t[17..21].copy_from_slice(b"IPO1");
    add(&mut buf, 0x48, &t);
    add(&mut buf, 0x4f, &payload(0x4e, 2, "X", 17));
    let mut s = payload(0x01, 3, "X", 18);
    s[17] = 0x43;
    add(&mut buf, 0x50, &s);
    add(&mut buf, 0x49, &payload(0x43, 4, "X", 17));
    add(&mut buf, 0x45, &payload(0x4f, 5, "X", 17));
    let mut o = payload(0x4d, 6, "X", 25);
    o[17..25].copy_from_slice(&15_000i64.to_le_bytes());
    add(&mut buf, 0x58, &o);
    let batch = buf.finish(&make_schema(), pf_bits).batch;
    let at = |i: usize, v: &str| -> Vec<Option<String>> {
        (0..6).map(|k| if k == i { some(v) } else { None }).collect()
    };
    assert_eq!(text(&batch, "trading_status"), at(0, "halted"));
    assert_eq!(text(&batch, "reason"), at(0, "IPO1"));
    assert_eq!(text(&batch, "halt_status"), at(1, "not_halted"));
    assert_eq!(u8s(&batch, "short_sale_status"), vec![None, None, Some(1), None, None, None]);
    assert_eq!(text(&batch, "short_sale_detail"), at(2, "continued"));
    assert_eq!(text(&batch, "retail_indicator"), at(3, "buy_and_sell"));
    assert_eq!(text(&batch, "security_event"), at(4, "opening_process_complete"));
    assert_eq!(text(&batch, "price_type"), at(5, "closing"));
    assert_eq!(floats(&batch, "price")[5], Some(1.5));
}

#[test]
fn a_row_has_values_in_the_columns_of_its_type_only() {
    let filled: Vec<(u8, usize, Vec<&str>)> = vec![
        (0x38, 29, vec!["flags", "side", "price", "size"]),
        (0x54, 37, vec!["flags", "price", "size", "trade_id", "is_trade_break"]),
        (0x58, 25, vec!["price", "price_type"]),
        (0x44, 30, vec!["flags", "round_lot_size", "adj_poc_price", "luld_tier"]),
        (0x48, 21, vec!["trading_status", "reason"]),
        (0x4f, 17, vec!["halt_status"]),
        (0x50, 17, vec!["short_sale_status", "short_sale_detail"]),
        (0x49, 17, vec!["retail_indicator"]),
        (0x45, 17, vec!["security_event"]),
        (0x53, 9, vec!["system_event"]),
    ];
    for (mt, n, names) in filled {
        let mut buf = Buf::new();
        add(&mut buf, mt, &payload(1, 2, "S", n));
        let batch = buf.finish(&make_schema(), pf_bits).batch;
        for (i, field) in batch.schema().fields().iter().enumerate() {
            let expected = i < 3 || names.contains(&field.name().as_str());
            assert_eq!(batch.column(i).is_valid(0), expected, "{}", field.name());
        }
    }
}

#[test]
fn a_buffer_can_be_used_again() {
    let mut buf = Buf::new();
    add(&mut buf, 0x53, &payload(0x4f, 1, "", 9));
    let first = buf.finish(&make_schema(), pf_bits).batch;
    assert_eq!(first.num_rows(), 1);
    assert_eq!(buf.len(), 0);
    add(&mut buf, 0x49, &payload(0x41, 2, "Q", 17));
    add(&mut buf, 0x53, &payload(0x43, 3, "", 9));
    let second = buf.finish(&make_schema(), pf_bits).batch;
    assert_eq!(second.num_rows(), 2);
    assert_eq!(text(&second, "retail_indicator"), vec![some("buy"), None]);
    assert_eq!(text(&second, "symbol"), vec![some("Q"), some("")]);
}

#[test]
fn names_of_the_schema_do_not_matter() {
    let fields: Vec<Field> = make_schema()
        .fields()
        .iter()
        .enumerate()
        .map(|(i, f)| Field::new(format!("c{}", i), f.data_type().clone(), f.is_nullable()))
        .collect();
    let schema = Arc::new(Schema::new(fields));
    let mut buf = Buf::new();
    add(&mut buf, 0x53, &payload(0x4f, 1, "", 9));
    let batch = buf.finish(&schema, pf_bits).batch;
    assert_eq!(batch.schema().field(5).name(), "c5");
    assert_eq!(batch.schema().field(5).data_type(), &DataType::Float64);
}

#[test]
fn text_columns_have_a_limit() {
    let buf = Buf::new();
    let long = String::from_utf8(vec![0u8; 0x8000_0000]).unwrap();
    assert!(!buf.row_fits(&Row::bare(&long, 1, "")));
    assert!(buf.row_fits(&Row::bare(&long[1..], 1, "")));
    let mut side = Row::bare("x", 1, "");
    side.side = Some(&long);
    assert!(!buf.row_fits(&side));
    side.side = Some(&long[1..]);
    assert!(buf.row_fits(&side));
    side.symbol = &long;
    assert!(!buf.row_fits(&side));
}

#[test]
fn the_room_of_a_text_column_shrinks() {
    let mut buf = Buf::new();
    let long = String::from_utf8(vec![0u8; 0x7fff_ffff]).unwrap();
    assert!(buf.row_fits(&Row::bare(&long, 1, "")));
    add(&mut buf, 0x53, &payload(0x4f, 1, "", 9));
    assert!(!buf.row_fits(&Row::bare(&long, 1, "")));
    assert!(!buf.row_fits(&Row::bare(&long[11..], 1, "")));
    assert!(buf.row_fits(&Row::bare(&long[12..], 1, "")));
    buf.finish(&make_schema(), pf_bits);
    assert!(buf.row_fits(&Row::bare(&long, 1, "")));
}
