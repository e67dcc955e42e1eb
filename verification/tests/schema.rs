use arrow::datatypes::DataType;
use iex_deep_parser::schema::make_schema;

#[test]
fn schema_has_every_field_of_every_message() {
    let expected: Vec<(&str, DataType, bool)> = vec![
        ("msg_type", DataType::Utf8, false),
        ("timestamp", DataType::Int64, false),
        ("symbol", DataType::Utf8, false),
        ("flags", DataType::UInt8, true),
        ("side", DataType::Utf8, true),
        ("price", DataType::Float64, true),
        ("size", DataType::UInt32, true),
        ("trade_id", DataType::Int64, true),
        ("is_trade_break", DataType::Boolean, true),
        ("price_type", DataType::Utf8, true),
        ("auction_type", DataType::Utf8, true),
        ("paired_shares", DataType::UInt32, true),
        ("reference_price", DataType::Float64, true),
        ("indicative_clearing_price", DataType::Float64, true),
        ("imbalance_shares", DataType::UInt32, true),
        ("imbalance_side", DataType::Utf8, true),
        ("extension_number", DataType::UInt8, true),
        ("scheduled_auction_time", DataType::UInt32, true),
        ("auction_book_clearing_price", DataType::Float64, true),
        ("collar_reference_price", DataType::Float64, true),
        ("lower_auction_collar", DataType::Float64, true),
        ("upper_auction_collar", DataType::Float64, true),
        ("round_lot_size", DataType::UInt32, true),
        ("adj_poc_price", DataType::Float64, true),
        ("luld_tier", DataType::UInt8, true),
        ("trading_status", DataType::Utf8, true),
        ("reason", DataType::Utf8, true),
        ("halt_status", DataType::Utf8, true),
        ("short_sale_status", DataType::UInt8, true),
        ("short_sale_detail", DataType::Utf8, true),
        ("retail_indicator", DataType::Utf8, true),
        ("security_event", DataType::Utf8, true),
        ("system_event", DataType::Utf8, true),
    ];
    let schema = make_schema();
    assert_eq!(schema.fields().len(), expected.len());
    for (field, (name, dtype, nullable)) in schema.fields().iter().zip(expected) {
        assert_eq!(field.name(), name);
        assert_eq!(field.data_type(), &dtype);
        assert_eq!(field.is_nullable(), nullable);
    }
    assert!(schema.metadata().is_empty());
}

#[test]
fn column_names_are_distinct() {
    let schema = make_schema();
    let mut names: Vec<String> = schema.fields().iter().map(|f| f.name().clone()).collect();
    names.sort();
    names.dedup();
    assert_eq!(names.len(), schema.fields().len());
}
