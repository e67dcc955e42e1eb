use iex_deep_parser::buf::Buf;
use iex_deep_parser::packet::{process_pkt, try_process_pkt, MSG_OFFSET};
use iex_deep_parser::schema::make_schema;

use arrow::array::AsArray;
use arrow::datatypes::Int64Type;

fn header(protocol: u16, count: u16) -> Vec<u8> {
    let mut data = vec![0u8; MSG_OFFSET];
    data[44..46].copy_from_slice(&protocol.to_le_bytes());
    data[56..58].copy_from_slice(&count.to_le_bytes());
    data
}

fn message(mt: u8, payload: &[u8]) -> Vec<u8> {
    let mut m = (payload.len() as u16 + 1).to_le_bytes().to_vec();
    m.push(mt);
    m.extend_from_slice(payload);
    m
}

fn event(time: i64) -> Vec<u8> {
    let mut p = vec![0x4fu8];
    p.extend_from_slice(&time.to_le_bytes());
    message(0x53, &p)
}

fn times(buf: &mut Buf) -> Vec<i64> {
    let n = buf.len();
    let batch = buf.finish(&make_schema(), |r| (r as f64 / 10_000.0).to_bits()).batch;
    assert_eq!(batch.num_rows(), n);
    batch.column(1).as_primitive::<Int64Type>().values().to_vec()
}

fn rows_of(data: &[u8]) -> Vec<i64> {
    let mut buf = Buf::new();
    process_pkt(data, &mut buf);
    times(&mut buf)
}

#[test]
fn messages_become_rows_in_order() {
    let mut data = header(0x8004, 3);
    for t in [10, 20, 30] {
        data.extend(event(t));
    }
    assert_eq!(data.len(), 82 + 3 * 12);
    assert_eq!(rows_of(&data), vec![10, 20, 30]);
}

#[test]
fn rows_are_added_behind_those_there_are() {
    let mut first = header(0x8004, 1);
    first.extend(event(1));
    let mut second = header(0x8004, 2);
    second.extend(event(2));
    second.extend(event(3));
    let mut buf = Buf::new();
    assert!(try_process_pkt(&first, &mut buf));
    assert_eq!(buf.len(), 1);
    assert!(try_process_pkt(&second, &mut buf));
    assert_eq!(buf.len(), 3);
    assert_eq!(times(&mut buf), vec![1, 2, 3]);
    assert_eq!(buf.len(), 0);
}

#[test]
fn other_protocols_give_nothing() {
    for protocol in [0u16, 0x8003, 0x8005, 0x0480] {
        let mut data = header(protocol, 1);
        data.extend(event(1));
        assert!(rows_of(&data).is_empty());
    }
}

#[test]
fn no_more_messages_than_counted() {
    for count in 0..5u16 {
        let mut data = header(0x8004, count);
        for t in 0..4 {
            data.extend(event(t));
        }
        let expected: Vec<i64> = (0..4.min(count as i64)).collect();
        assert_eq!(rows_of(&data), expected);
    }
}

#[test]
fn short_packets_give_nothing() {
    let mut data = header(0x8004, 1);
    data.extend(event(1));
    for n in 0..85 {
        assert!(rows_of(&data[..n]).is_empty());
    }
    let mut least = header(0x8004, 1);
    least.extend([1u8, 0, 0x53]);
    assert!(rows_of(&least).is_empty());
}

#[test]
fn truncated_packets_give_the_first_rows() {
    let mut data = header(0x8004, 3);
    for t in [10, 20, 30] {
        data.extend(event(t));
    }
    let whole = rows_of(&data);
    for n in 0..=data.len() {
        let cut = rows_of(&data[..n]);
        assert!(whole.starts_with(&cut));
        assert_eq!(cut.len(), if n < 94 { 0 } else { (n - 82) / 12 });
    }
}

#[test]
fn an_empty_message_ends_the_packet() {
    let mut data = header(0x8004, 3);
    data.extend(event(1));
    data.extend([0u8, 0]);
    data.extend(event(2));
    assert_eq!(rows_of(&data), vec![1]);
}

#[test]
fn unknown_and_short_messages_are_skipped() {
    let mut data = header(0x8004, 5);
    data.extend(event(1));
    data.extend(message(0x99, &[1, 2, 3]));
    data.extend(message(0x41, &[0; 78]));
    data.extend(message(0x53, &[]));
    data.extend(event(2));
    data.extend([9u8; 7]);
    assert_eq!(rows_of(&data), vec![1, 2]);
}
