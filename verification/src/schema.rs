//! The schema of the table.
use arrow::datatypes::{Field, Schema};
use std::sync::Arc;
use vstd::prelude::*;

use crate::columns;
use crate::columns::{ColumnType, FieldSpec};
use crate::message;
use crate::row;
use crate::row::{Column, Item, RowView};

verus! {

impl Column {
    /// The name under which the column stands in the table.
    pub open spec fn name(self) -> Seq<char> {
        match self {
            Column::MsgType => "msg_type"@,
            Column::Timestamp => "timestamp"@,
            Column::Symbol => "symbol"@,
            Column::Flags => "flags"@,
            Column::Side => "side"@,
            Column::Price => "price"@,
            Column::Size => "size"@,
            Column::TradeId => "trade_id"@,
            Column::IsTradeBreak => "is_trade_break"@,
            Column::PriceType => "price_type"@,
            Column::AuctionType => "auction_type"@,
            Column::PairedShares => "paired_shares"@,
            Column::ReferencePrice => "reference_price"@,
            Column::IndicativeClearingPrice => "indicative_clearing_price"@,
            Column::ImbalanceShares => "imbalance_shares"@,
            Column::ImbalanceSide => "imbalance_side"@,
            Column::ExtensionNumber => "extension_number"@,
            Column::ScheduledAuctionTime => "scheduled_auction_time"@,
            Column::AuctionBookClearingPrice => "auction_book_clearing_price"@,
            Column::CollarReferencePrice => "collar_reference_price"@,
            Column::LowerAuctionCollar => "lower_auction_collar"@,
            Column::UpperAuctionCollar => "upper_auction_collar"@,
            Column::RoundLotSize => "round_lot_size"@,
            Column::AdjPocPrice => "adj_poc_price"@,
            Column::LuldTier => "luld_tier"@,
            Column::TradingStatus => "trading_status"@,
            Column::Reason => "reason"@,
            Column::HaltStatus => "halt_status"@,
            Column::ShortSaleStatus => "short_sale_status"@,
            Column::ShortSaleDetail => "short_sale_detail"@,
            Column::RetailIndicator => "retail_indicator"@,
            Column::SecurityEvent => "security_event"@,
            Column::SystemEvent => "system_event"@,
        }
    }

    /// The type of the column.
    pub open spec fn dtype(self) -> ColumnType {
        match self {
            Column::MsgType
            | Column::Symbol
            | Column::Side
            | Column::PriceType
            | Column::AuctionType
            | Column::ImbalanceSide
            | Column::TradingStatus
            | Column::Reason
            | Column::HaltStatus
            | Column::ShortSaleDetail
            | Column::RetailIndicator
            | Column::SecurityEvent
            | Column::SystemEvent => ColumnType::Utf8,
            Column::Timestamp
            | Column::TradeId => ColumnType::Int64,
            Column::Flags
            | Column::ExtensionNumber
            | Column::LuldTier
            | Column::ShortSaleStatus => ColumnType::UInt8,
            Column::Size
            | Column::PairedShares
            | Column::ImbalanceShares
            | Column::ScheduledAuctionTime
            | Column::RoundLotSize => ColumnType::UInt32,
            Column::IsTradeBreak => ColumnType::Boolean,
            _ => ColumnType::Float64,
        }
    }

    /// Whether the column may hold nulls. The fields common to all message types
    /// never do.
    pub open spec fn nullable(self) -> bool {
        !(self is MsgType) && !(self is Timestamp) && !(self is Symbol)
    }

    /// What the schema says of the column.
    pub open spec fn field(self) -> FieldSpec {
        FieldSpec { name: self.name(), dtype: Some(self.dtype()), nullable: self.nullable() }
    }
}

/// What the schema says of the columns, in order.
pub open spec fn deep_fields() -> Seq<FieldSpec> {
    row::all_columns().map_values(|c: Column| c.field())
}

/// The schema of the table: every field of every message type.
pub fn make_schema() -> (r: Arc<Schema>)
    ensures
        columns::schema_fields(&*r) == deep_fields(),
        forall|rows: Seq<RowView>| #[trigger]
            schema_admits(columns::schema_fields(&*r), rows),
{
    let mut fields: Vec<Field> = Vec::new();
    fields.push(columns::field("msg_type", ColumnType::Utf8, false));
    fields.push(columns::field("timestamp", ColumnType::Int64, false));
    fields.push(columns::field("symbol", ColumnType::Utf8, false));
    fields.push(columns::field("flags", ColumnType::UInt8, true));
    fields.push(columns::field("side", ColumnType::Utf8, true));
    fields.push(columns::field("price", ColumnType::Float64, true));
    fields.push(columns::field("size", ColumnType::UInt32, true));
    fields.push(columns::field("trade_id", ColumnType::Int64, true));
    fields.push(columns::field("is_trade_break", ColumnType::Boolean, true));
    fields.push(columns::field("price_type", ColumnType::Utf8, true));
    fields.push(columns::field("auction_type", ColumnType::Utf8, true));
    fields.push(columns::field("paired_shares", ColumnType::UInt32, true));
    fields.push(columns::field("reference_price", ColumnType::Float64, true));
    fields.push(columns::field("indicative_clearing_price", ColumnType::Float64, true));
    fields.push(columns::field("imbalance_shares", ColumnType::UInt32, true));
    fields.push(columns::field("imbalance_side", ColumnType::Utf8, true));
    fields.push(columns::field("extension_number", ColumnType::UInt8, true));
    fields.push(columns::field("scheduled_auction_time", ColumnType::UInt32, true));
    fields.push(columns::field("auction_book_clearing_price", ColumnType::Float64, true));
    fields.push(columns::field("collar_reference_price", ColumnType::Float64, true));
    fields.push(columns::field("lower_auction_collar", ColumnType::Float64, true));
    fields.push(columns::field("upper_auction_collar", ColumnType::Float64, true));
    fields.push(columns::field("round_lot_size", ColumnType::UInt32, true));
    fields.push(columns::field("adj_poc_price", ColumnType::Float64, true));
    fields.push(columns::field("luld_tier", ColumnType::UInt8, true));
    fields.push(columns::field("trading_status", ColumnType::Utf8, true));
    fields.push(columns::field("reason", ColumnType::Utf8, true));
    fields.push(columns::field("halt_status", ColumnType::Utf8, true));
    fields.push(columns::field("short_sale_status", ColumnType::UInt8, true));
    fields.push(columns::field("short_sale_detail", ColumnType::Utf8, true));
    fields.push(columns::field("retail_indicator", ColumnType::Utf8, true));
    fields.push(columns::field("security_event", ColumnType::Utf8, true));
    fields.push(columns::field("system_event", ColumnType::Utf8, true));
    assert(fields@.map_values(|f: Field| columns::field_spec(&f)) =~= deep_fields());
    Arc::new(columns::schema(fields))
}

/// Whether an item is missing.
pub open spec fn is_null(item: Item) -> bool {
    match item {
        Item::Text(v) => v is None,
        Item::Int64(v) => v is None,
        Item::UInt8(v) => v is None,
        Item::UInt32(v) => v is None,
        Item::Boolean(v) => v is None,
        Item::Price(v) => v is None,
    }
}

/// Whether rows can be written under a schema: it has the columns of the table
/// with their types, and a column that it allows no nulls has none.
pub open spec fn schema_admits(fields: Seq<FieldSpec>, rows: Seq<RowView>) -> bool {
    &&& fields.len() == row::all_columns().len()
    &&& forall|k: int|
        #![trigger fields[k]]
        0 <= k < fields.len() ==> {
            &&& fields[k].dtype == Some(row::all_columns()[k].dtype())
            &&& fields[k].nullable || forall|i: int|
                0 <= i < rows.len() ==> !is_null(#[trigger] rows[i].item(row::all_columns()[k]))
        }
}

/// Every row can be written under the schema of the table.
pub proof fn law_schema_admits_all_rows(rows: Seq<RowView>)
    ensures
        schema_admits(deep_fields(), rows),
{
}

/// Whether a row holds `item` in the column that stands in the table under `name`.
pub open spec fn shows(r: RowView, name: Seq<char>, item: Item) -> bool {
    exists|k: int|
        0 <= k < deep_fields().len() && (#[trigger] deep_fields()[k]).name == name && r.item(
            row::all_columns()[k],
        ) == item
}

/// What a row has in a field stands in the table under the name of that field.
pub proof fn law_fields_stand_under_their_names(r: RowView)
    ensures
        shows(r, "msg_type"@, Item::Text(Some(r.msg_type))),
        shows(r, "timestamp"@, Item::Int64(Some(r.timestamp))),
        shows(r, "symbol"@, Item::Text(Some(r.symbol))),
        shows(r, "flags"@, Item::UInt8(r.flags)),
        shows(r, "side"@, Item::Text(r.side)),
        shows(r, "price"@, Item::Price(r.price)),
        shows(r, "size"@, Item::UInt32(r.size)),
        shows(r, "trade_id"@, Item::Int64(r.trade_id)),
        shows(r, "is_trade_break"@, Item::Boolean(r.is_trade_break)),
        shows(r, "price_type"@, Item::Text(r.price_type)),
        shows(r, "auction_type"@, Item::Text(r.auction_type)),
        shows(r, "paired_shares"@, Item::UInt32(r.paired_shares)),
        shows(r, "reference_price"@, Item::Price(r.reference_price)),
        shows(r, "indicative_clearing_price"@, Item::Price(r.indicative_clearing_price)),
        shows(r, "imbalance_shares"@, Item::UInt32(r.imbalance_shares)),
        shows(r, "imbalance_side"@, Item::Text(r.imbalance_side)),
        shows(r, "extension_number"@, Item::UInt8(r.extension_number)),
        shows(r, "scheduled_auction_time"@, Item::UInt32(r.scheduled_auction_time)),
        shows(r, "auction_book_clearing_price"@, Item::Price(r.auction_book_clearing_price)),
        shows(r, "collar_reference_price"@, Item::Price(r.collar_reference_price)),
        shows(r, "lower_auction_collar"@, Item::Price(r.lower_auction_collar)),
        shows(r, "upper_auction_collar"@, Item::Price(r.upper_auction_collar)),
        shows(r, "round_lot_size"@, Item::UInt32(r.round_lot_size)),
        shows(r, "adj_poc_price"@, Item::Price(r.adj_poc_price)),
        shows(r, "luld_tier"@, Item::UInt8(r.luld_tier)),
        shows(r, "trading_status"@, Item::Text(r.trading_status)),
        shows(r, "reason"@, Item::Text(r.reason)),
        shows(r, "halt_status"@, Item::Text(r.halt_status)),
        shows(r, "short_sale_status"@, Item::UInt8(r.short_sale_status)),
        shows(r, "short_sale_detail"@, Item::Text(r.short_sale_detail)),
        shows(r, "retail_indicator"@, Item::Text(r.retail_indicator)),
        shows(r, "security_event"@, Item::Text(r.security_event)),
        shows(r, "system_event"@, Item::Text(r.system_event)),
        deep_fields().len() == 33,
{
    assert(deep_fields()[0].name == "msg_type"@);
    assert(deep_fields()[1].name == "timestamp"@);
    assert(deep_fields()[2].name == "symbol"@);
    assert(deep_fields()[3].name == "flags"@);
    assert(deep_fields()[4].name == "side"@);
    assert(deep_fields()[5].name == "price"@);
    assert(deep_fields()[6].name == "size"@);
    assert(deep_fields()[7].name == "trade_id"@);
    assert(deep_fields()[8].name == "is_trade_break"@);
    assert(deep_fields()[9].name == "price_type"@);
    assert(deep_fields()[10].name == "auction_type"@);
    assert(deep_fields()[11].name == "paired_shares"@);
    assert(deep_fields()[12].name == "reference_price"@);
    assert(deep_fields()[13].name == "indicative_clearing_price"@);
    assert(deep_fields()[14].name == "imbalance_shares"@);
    assert(deep_fields()[15].name == "imbalance_side"@);
    assert(deep_fields()[16].name == "extension_number"@);
    assert(deep_fields()[17].name == "scheduled_auction_time"@);
    assert(deep_fields()[18].name == "auction_book_clearing_price"@);
    assert(deep_fields()[19].name == "collar_reference_price"@);
    assert(deep_fields()[20].name == "lower_auction_collar"@);
    assert(deep_fields()[21].name == "upper_auction_collar"@);
    assert(deep_fields()[22].name == "round_lot_size"@);
    assert(deep_fields()[23].name == "adj_poc_price"@);
    assert(deep_fields()[24].name == "luld_tier"@);
    assert(deep_fields()[25].name == "trading_status"@);
    assert(deep_fields()[26].name == "reason"@);
    assert(deep_fields()[27].name == "halt_status"@);
    assert(deep_fields()[28].name == "short_sale_status"@);
    assert(deep_fields()[29].name == "short_sale_detail"@);
    assert(deep_fields()[30].name == "retail_indicator"@);
    assert(deep_fields()[31].name == "security_event"@);
    assert(deep_fields()[32].name == "system_event"@);
}

/// The columns stand in the table in the order of the message types that fill them,
/// those common to all first.
pub proof fn law_order_of_columns()
    ensures
        deep_fields().map_values(|f: FieldSpec| f.name) == seq![
            "msg_type"@,
            "timestamp"@,
            "symbol"@,
            "flags"@,
            "side"@,
            "price"@,
            "size"@,
            "trade_id"@,
            "is_trade_break"@,
            "price_type"@,
            "auction_type"@,
            "paired_shares"@,
            "reference_price"@,
            "indicative_clearing_price"@,
            "imbalance_shares"@,
            "imbalance_side"@,
            "extension_number"@,
            "scheduled_auction_time"@,
            "auction_book_clearing_price"@,
            "collar_reference_price"@,
            "lower_auction_collar"@,
            "upper_auction_collar"@,
            "round_lot_size"@,
            "adj_poc_price"@,
            "luld_tier"@,
            "trading_status"@,
            "reason"@,
            "halt_status"@,
            "short_sale_status"@,
            "short_sale_detail"@,
            "retail_indicator"@,
            "security_event"@,
            "system_event"@,
        ],
{
}

/// The type of a column is that of what rows hold in it; a price is a
/// floating-point number.
pub proof fn law_types_of_items(r: RowView, c: Column)
    ensures
        r.item(c) is Text <==> c.dtype() is Utf8,
        r.item(c) is Int64 <==> c.dtype() is Int64,
        r.item(c) is UInt8 <==> c.dtype() is UInt8,
        r.item(c) is UInt32 <==> c.dtype() is UInt32,
        r.item(c) is Boolean <==> c.dtype() is Boolean,
        r.item(c) is Price <==> c.dtype() is Float64,
{
}

/// A row with the common fields only has those and nothing in any other column.
pub proof fn law_bare_row(msg_type: Seq<char>, timestamp: i64, symbol: Seq<char>, c: Column)
    ensures
        ({
            let r = row::bare_row(msg_type, timestamp, symbol);
            &&& r.msg_type == msg_type
            &&& r.timestamp == timestamp
            &&& r.symbol == symbol
            &&& is_null(r.item(c)) <==> c.nullable()
        }),
{
}

/// A column may hold nulls exactly where messages of some type do not fill it.
pub proof fn law_nullable_columns(c: Column)
    ensures
        c.nullable() <==> exists|mt: u8| #[trigger] message::is_known(mt) && !message::fills(mt, c),
{
    assert(message::is_known(message::T_SYSTEM_EVENT));
    assert(message::is_known(message::T_SECURITY_EVENT));
}

/// What tells the names of the columns apart: their length, their first character
/// and their last but one.
closed spec fn name_mark(c: Column) -> (int, char, char) {
    match c {
        Column::MsgType => (8, 'm', 'p'),
        Column::Timestamp => (9, 't', 'm'),
        Column::Symbol => (6, 's', 'o'),
        Column::Flags => (5, 'f', 'g'),
        Column::Side => (4, 's', 'd'),
        Column::Price => (5, 'p', 'c'),
        Column::Size => (4, 's', 'z'),
        Column::TradeId => (8, 't', 'i'),
        Column::IsTradeBreak => (14, 'i', 'a'),
        Column::PriceType => (10, 'p', 'p'),
        Column::AuctionType => (12, 'a', 'p'),
        Column::PairedShares => (13, 'p', 'e'),
        Column::ReferencePrice => (15, 'r', 'c'),
        Column::IndicativeClearingPrice => (25, 'i', 'c'),
        Column::ImbalanceShares => (16, 'i', 'e'),
        Column::ImbalanceSide => (14, 'i', 'd'),
        Column::ExtensionNumber => (16, 'e', 'e'),
        Column::ScheduledAuctionTime => (22, 's', 'm'),
        Column::AuctionBookClearingPrice => (27, 'a', 'c'),
        Column::CollarReferencePrice => (22, 'c', 'c'),
        Column::LowerAuctionCollar => (20, 'l', 'a'),
        Column::UpperAuctionCollar => (20, 'u', 'a'),
        Column::RoundLotSize => (14, 'r', 'z'),
        Column::AdjPocPrice => (13, 'a', 'c'),
        Column::LuldTier => (9, 'l', 'e'),
        Column::TradingStatus => (14, 't', 'u'),
        Column::Reason => (6, 'r', 'o'),
        Column::HaltStatus => (11, 'h', 'u'),
        Column::ShortSaleStatus => (17, 's', 'u'),
        Column::ShortSaleDetail => (17, 's', 'i'),
        Column::RetailIndicator => (16, 'r', 'o'),
        Column::SecurityEvent => (14, 's', 'n'),
        Column::SystemEvent => (12, 's', 'n'),
    }
}

proof fn lemma_name_mark(c: Column)
    ensures
        c.name().len() >= 2,
        name_mark(c) == (c.name().len() as int, c.name()[0], c.name()[c.name().len() - 2]),
{
    match c {
        Column::MsgType => {
            reveal_strlit("msg_type");
        },
        Column::Timestamp => {
            reveal_strlit("timestamp");
        },
        Column::Symbol => {
            reveal_strlit("symbol");
        },
        Column::Flags => {
            reveal_strlit("flags");
        },
        Column::Side => {
            reveal_strlit("side");
        },
        Column::Price => {
            reveal_strlit("price");
        },
        Column::Size => {
            reveal_strlit("size");
        },
        Column::TradeId => {
            reveal_strlit("trade_id");
        },
        Column::IsTradeBreak => {
            reveal_strlit("is_trade_break");
        },
        Column::PriceType => {
            reveal_strlit("price_type");
        },
        Column::AuctionType => {
            reveal_strlit("auction_type");
        },
        Column::PairedShares => {
            reveal_strlit("paired_shares");
        },
        Column::ReferencePrice => {
            reveal_strlit("reference_price");
        },
        Column::IndicativeClearingPrice => {
            reveal_strlit("indicative_clearing_price");
        },
        Column::ImbalanceShares => {
            reveal_strlit("imbalance_shares");
        },
        Column::ImbalanceSide => {
            reveal_strlit("imbalance_side");
        },
        Column::ExtensionNumber => {
            reveal_strlit("extension_number");
        },
        Column::ScheduledAuctionTime => {
            reveal_strlit("scheduled_auction_time");
        },
        Column::AuctionBookClearingPrice => {
            reveal_strlit("auction_book_clearing_price");
        },
        Column::CollarReferencePrice => {
            reveal_strlit("collar_reference_price");
        },
        Column::LowerAuctionCollar => {
            reveal_strlit("lower_auction_collar");
        },
        Column::UpperAuctionCollar => {
            reveal_strlit("upper_auction_collar");
        },
        Column::RoundLotSize => {
            reveal_strlit("round_lot_size");
        },
        Column::AdjPocPrice => {
            reveal_strlit("adj_poc_price");
        },
        Column::LuldTier => {
            reveal_strlit("luld_tier");
        },
        Column::TradingStatus => {
            reveal_strlit("trading_status");
        },
        Column::Reason => {
            reveal_strlit("reason");
        },
        Column::HaltStatus => {
            reveal_strlit("halt_status");
        },
        Column::ShortSaleStatus => {
            reveal_strlit("short_sale_status");
        },
        Column::ShortSaleDetail => {
            reveal_strlit("short_sale_detail");
        },
        Column::RetailIndicator => {
            reveal_strlit("retail_indicator");
        },
        Column::SecurityEvent => {
            reveal_strlit("security_event");
        },
        Column::SystemEvent => {
            reveal_strlit("system_event");
        },
    }
}

/// No two columns have the same name.
pub proof fn law_names_are_distinct(a: Column, b: Column)
    requires
        a.name() == b.name(),
    ensures
        a == b,
{
    lemma_name_mark(a);
    lemma_name_mark(b);
}

/// No two places in the table are for the same column.
pub proof fn law_columns_are_distinct(i: int, j: int)
    requires
        0 <= i < row::all_columns().len(),
        0 <= j < row::all_columns().len(),
        row::all_columns()[i] == row::all_columns()[j],
    ensures
        i == j,
{
}

} // verus!
