use arrow::array::ArrayRef;
use iex_deep_parser::capture::Converter;
use iex_deep_parser::output::writer_properties;
use iex_deep_parser::schema::make_schema;
use parquet::arrow::ArrowWriter;
use parquet::basic::{Compression, ZstdLevel};
use parquet::schema::types::ColumnPath;

#[test]
fn tables_are_stored_compressed() {
    let p = writer_properties();
    assert_eq!(p.max_row_group_size(), 500_000);
    for name in ["msg_type", "price", "system_event"] {
        let column = ColumnPath::from(name);
        let level = ZstdLevel::try_new(3).unwrap();
        assert_eq!(p.compression(&column), Compression::ZSTD(level));
        assert!(p.dictionary_enabled(&column));
    }
}

#[test]
fn a_table_can_be_written_to_a_file() {
    let schema = make_schema();
    let mut data = vec![0u8; 82];
    data[44..46].copy_from_slice(&0x8004u16.to_le_bytes());
    data[56] = 1;
    data.extend([10u8, 0, 0x53, 0x4f, 1, 0, 0, 0, 0, 0, 0, 0]);
    let mut body = vec![0u8; 20];
    body[12] = data.len() as u8;
    body.extend(&data);
    let mut c = Converter::new();
    c.on_block(6, &body);
    let batch = c.take_chunk(&schema, |r| (r as f64 / 10_000.0).to_bits()).batch;
    let columns: Vec<ArrayRef> = batch.columns().to_vec();
    assert!(columns.iter().all(|a| a.len() == 1));
    let mut file: Vec<u8> = Vec::new();
    let mut writer = ArrowWriter::try_new(&mut file, schema, Some(writer_properties())).unwrap();
    writer.write(&batch).unwrap();
    let meta = writer.close().unwrap();
    assert_eq!(meta.num_rows, 1);
    assert!(file.starts_with(b"PAR1"));
}
