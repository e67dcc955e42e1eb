//! The messages of DEEP 1.0 and the rows they become.
//!
//! A message is its type and its payload, that is what follows the type. One
//! that is shorter than its type calls for gives no row.
use vstd::prelude::*;

use crate::row;
use crate::row::{Auction, Column, Row, RowView, SecurityDir};
use crate::schema;
use crate::wire;

verus! {

pub const T_SYSTEM_EVENT: u8 = 0x53;

pub const T_SECURITY_DIR: u8 = 0x44;

pub const T_TRADING_STATUS: u8 = 0x48;

pub const T_RETAIL_LIQUIDITY: u8 = 0x49;

pub const T_OPERATIONAL_HALT: u8 = 0x4f;

pub const T_SHORT_SALE: u8 = 0x50;

pub const T_SECURITY_EVENT: u8 = 0x45;

pub const T_PLU_BUY: u8 = 0x38;

pub const T_PLU_SELL: u8 = 0x35;

pub const T_TRADE_REPORT: u8 = 0x54;

pub const T_TRADE_BREAK: u8 = 0x42;

pub const T_OFFICIAL_PRICE: u8 = 0x58;

pub const T_AUCTION_INFO: u8 = 0x41;

/// Of which auction an official price is.
pub open spec fn price_type_text(code: u8) -> Seq<char> {
    match code {
        0x51 => "opening"@,
        0x4d => "closing"@,
        _ => "unknown"@,
    }
}

fn price_type(code: u8) -> (r: &'static str)
    ensures
        r@ == price_type_text(code),
{
    match code {
        0x51 => "opening",
        0x4d => "closing",
        _ => "unknown",
    }
}

/// The kind of an auction.
pub open spec fn auction_type_text(code: u8) -> Seq<char> {
    match code {
        0x4f => "opening"@,
        0x43 => "closing"@,
        0x49 => "ipo"@,
        0x48 => "halt"@,
        0x56 => "volatility"@,
        _ => "unknown"@,
    }
}

fn auction_type(code: u8) -> (r: &'static str)
    ensures
        r@ == auction_type_text(code),
{
    match code {
        0x4f => "opening",
        0x43 => "closing",
        0x49 => "ipo",
        0x48 => "halt",
        0x56 => "volatility",
        _ => "unknown",
    }
}

/// The side on which an auction has more shares; empty where it has none.
pub open spec fn imbalance_side_text(code: u8) -> Seq<char> {
    match code {
        0x42 => "B"@,
        0x53 => "S"@,
        _ => ""@,
    }
}

fn imbalance_side(code: u8) -> (r: &'static str)
    ensures
        r@ == imbalance_side_text(code),
{
    match code {
        0x42 => "B",
        0x53 => "S",
        _ => "",
    }
}

/// Whether a security trades.
pub open spec fn trading_status_text(code: u8) -> Seq<char> {
    match code {
        0x48 => "halted"@,
        0x4f => "order_acceptance_period"@,
        0x50 => "paused"@,
        0x54 => "trading"@,
        _ => "unknown"@,
    }
}

fn trading_status(code: u8) -> (r: &'static str)
    ensures
        r@ == trading_status_text(code),
{
    match code {
        0x48 => "halted",
        0x4f => "order_acceptance_period",
        0x50 => "paused",
        0x54 => "trading",
        _ => "unknown",
    }
}

/// Whether the exchange has halted a security.
pub open spec fn halt_status_text(code: u8) -> Seq<char> {
    match code {
        0x4f => "halted"@,
        0x4e => "not_halted"@,
        _ => "unknown"@,
    }
}

fn halt_status(code: u8) -> (r: &'static str)
    ensures
        r@ == halt_status_text(code),
{
    match code {
        0x4f => "halted",
        0x4e => "not_halted",
        _ => "unknown",
    }
}

/// Why a short sale price test is in effect.
pub open spec fn short_sale_detail_text(code: u8) -> Seq<char> {
    match code {
        0x20 => "none"@,
        0x41 => "activated"@,
        0x43 => "continued"@,
        _ => "unknown"@,
    }
}

fn short_sale_detail(code: u8) -> (r: &'static str)
    ensures
        r@ == short_sale_detail_text(code),
{
    match code {
        0x20 => "none",
        0x41 => "activated",
        0x43 => "continued",
        _ => "unknown",
    }
}

/// On which sides there is retail liquidity.
pub open spec fn retail_indicator_text(code: u8) -> Seq<char> {
    match code {
        0x20 => "none"@,
        0x41 => "buy"@,
        0x42 => "sell"@,
        0x43 => "buy_and_sell"@,
        _ => "unknown"@,
    }
}

fn retail_indicator(code: u8) -> (r: &'static str)
    ensures
        r@ == retail_indicator_text(code),
{
    match code {
        0x20 => "none",
        0x41 => "buy",
        0x42 => "sell",
        0x43 => "buy_and_sell",
        _ => "unknown",
    }
}

/// What has happened to a security.
pub open spec fn security_event_text(code: u8) -> Seq<char> {
    match code {
        0x4f => "opening_process_complete"@,
        0x43 => "closing_process_complete"@,
        _ => "unknown"@,
    }
}

fn security_event(code: u8) -> (r: &'static str)
    ensures
        r@ == security_event_text(code),
{
    match code {
        0x4f => "opening_process_complete",
        0x43 => "closing_process_complete",
        _ => "unknown",
    }
}

/// What has happened to the market.
pub open spec fn system_event_text(code: u8) -> Seq<char> {
    match code {
        0x4f => "start_of_messages"@,
        0x53 => "start_of_system_hours"@,
        0x52 => "start_of_regular_hours"@,
        0x4d => "end_of_regular_hours"@,
        0x45 => "end_of_system_hours"@,
        0x43 => "end_of_messages"@,
        _ => "unknown"@,
    }
}

fn system_event(code: u8) -> (r: &'static str)
    ensures
        r@ == system_event_text(code),
{
    match code {
        0x4f => "start_of_messages",
        0x53 => "start_of_system_hours",
        0x52 => "start_of_regular_hours",
        0x4d => "end_of_regular_hours",
        0x45 => "end_of_system_hours",
        0x43 => "end_of_messages",
        _ => "unknown",
    }
}

/// The row with the fields common to all messages about a security: the time is
/// at offset 1 and the symbol at offset 9.
pub open spec fn security_row(msg_type: Seq<char>, p: Seq<u8>) -> RowView {
    row::bare_row(msg_type, wire::i64_at(p, 1), wire::text_at(p, 9, 8))
}

fn security<'a>(msg_type: &'a str, p: &'a [u8]) -> (r: Row<'a>)
    requires
        p@.len() >= 17,
    ensures
        r@ == security_row(msg_type@, p@),
        r.msg_type@ == msg_type@,
        r.timestamp == wire::i64_at(p@, 1),
        r.symbol@ == wire::text_at(p@, 9, 8),
{
    Row::bare(msg_type, wire::ri64(p, 1), wire::sym_str(p, 9))
}

/// The contents of a row that may be missing.
pub open spec fn row_of(r: Option<Row>) -> Option<RowView> {
    match r {
        Some(x) => Some(x@),
        None => None,
    }
}

/// The row of a price level update: a level of one side of the book has a new size.
pub open spec fn plu_row(mt: u8, p: Seq<u8>) -> Option<RowView> {
    if p.len() < 29 {
        None
    } else {
        Some(
            RowView {
                flags: Some(p[0]),
                side: Some(if mt == T_PLU_BUY { "B"@ } else { "S"@ }),
                price: Some(wire::i64_at(p, 21)),
                size: Some(wire::u32_at(p, 17)),
                ..security_row(
                    if mt == T_PLU_BUY {
                        "price_level_update_buy"@
                    } else {
                        "price_level_update_sell"@
                    },
                    p,
                )
            },
        )
    }
}

/// Decodes the payload of a price level update.
pub fn decode_plu<'a>(mt: u8, p: &'a [u8]) -> (r: Option<Row<'a>>)
    ensures
        row_of(r) == plu_row(mt, p@),
{
    if p.len() < 29 {
        return None;
    }
    let (msg_type, side) = if mt == T_PLU_BUY {
        ("price_level_update_buy", "B")
    } else {
        ("price_level_update_sell", "S")
    };
    Some(
        Row {
            flags: Some(wire::ru8(p, 0)),
            side: Some(side),
            price: Some(wire::ri64(p, 21)),
            size: Some(wire::ru32(p, 17)),
            ..security(msg_type, p)
        },
    )
}

/// The row of a trade, or of the break of an earlier one.
pub open spec fn trade_row(mt: u8, p: Seq<u8>) -> Option<RowView> {
    if p.len() < 37 {
        None
    } else {
        Some(
            RowView {
                flags: Some(p[0]),
                price: Some(wire::i64_at(p, 21)),
                size: Some(wire::u32_at(p, 17)),
                trade_id: Some(wire::i64_at(p, 29)),
                is_trade_break: Some(mt == T_TRADE_BREAK),
                ..security_row(
                    if mt == T_TRADE_REPORT {
                        "trade_report"@
                    } else {
                        "trade_break"@
                    },
                    p,
                )
            },
        )
    }
}

/// Decodes the payload of a trade or the break of one.
pub fn decode_trade<'a>(mt: u8, p: &'a [u8]) -> (r: Option<Row<'a>>)
    ensures
        row_of(r) == trade_row(mt, p@),
{
    if p.len() < 37 {
        return None;
    }
    Some(
        Row {
            flags: Some(wire::ru8(p, 0)),
            price: Some(wire::ri64(p, 21)),
            size: Some(wire::ru32(p, 17)),
            trade_id: Some(wire::ri64(p, 29)),
            is_trade_break: Some(mt == T_TRADE_BREAK),
            ..security(if mt == T_TRADE_REPORT { "trade_report" } else { "trade_break" }, p)
        },
    )
}

/// The row of the opening or closing price of a security.
pub open spec fn official_price_row(p: Seq<u8>) -> Option<RowView> {
    if p.len() < 25 {
        None
    } else {
        Some(
            RowView {
                price: Some(wire::i64_at(p, 17)),
                price_type: Some(price_type_text(p[0])),
                ..security_row("official_price"@, p)
            },
        )
    }
}

/// Decodes the payload of an official price.
pub fn decode_official_price<'a>(p: &'a [u8]) -> (r: Option<Row<'a>>)
    ensures
        row_of(r) == official_price_row(p@),
{
    if p.len() < 25 {
        return None;
    }
    Some(
        Row {
            price: Some(wire::ri64(p, 17)),
            price_type: Some(price_type(wire::ru8(p, 0))),
            ..security("official_price", p)
        },
    )
}

/// The row of where an auction stands.
pub open spec fn auction_row(p: Seq<u8>) -> Option<RowView> {
    if p.len() < 79 {
        None
    } else {
        Some(
            RowView {
                auction_type: Some(auction_type_text(p[0])),
                paired_shares: Some(wire::u32_at(p, 17)),
                reference_price: Some(wire::i64_at(p, 21)),
                indicative_clearing_price: Some(wire::i64_at(p, 29)),
                imbalance_shares: Some(wire::u32_at(p, 37)),
                imbalance_side: Some(imbalance_side_text(p[41])),
                extension_number: Some(p[42]),
                scheduled_auction_time: Some(wire::u32_at(p, 43)),
                auction_book_clearing_price: Some(wire::i64_at(p, 47)),
                collar_reference_price: Some(wire::i64_at(p, 55)),
                lower_auction_collar: Some(wire::i64_at(p, 63)),
                upper_auction_collar: Some(wire::i64_at(p, 71)),
                ..security_row("auction_information"@, p)
            },
        )
    }
}

/// Decodes the payload of auction information.
pub fn decode_auction<'a>(p: &'a [u8]) -> (r: Option<Row<'a>>)
    ensures
        row_of(r) == auction_row(p@),
{
    if p.len() < 79 {
        return None;
    }
    Some(
        Row {
            auction: Some(
                Auction {
                    auction_type: auction_type(wire::ru8(p, 0)),
                    paired_shares: wire::ru32(p, 17),
                    reference_price: wire::ri64(p, 21),
                    indicative_clearing_price: wire::ri64(p, 29),
                    imbalance_shares: wire::ru32(p, 37),
                    imbalance_side: imbalance_side(wire::ru8(p, 41)),
                    extension_number: wire::ru8(p, 42),
                    scheduled_auction_time: wire::ru32(p, 43),
                    auction_book_clearing_price: wire::ri64(p, 47),
                    collar_reference_price: wire::ri64(p, 55),
                    lower_auction_collar: wire::ri64(p, 63),
                    upper_auction_collar: wire::ri64(p, 71),
                },
            ),
            ..security("auction_information", p)
        },
    )
}

/// The row of a security that trades today.
pub open spec fn security_dir_row(p: Seq<u8>) -> Option<RowView> {
    if p.len() < 30 {
        None
    } else {
        Some(
            RowView {
                flags: Some(p[0]),
                round_lot_size: Some(wire::u32_at(p, 17)),
                adj_poc_price: Some(wire::i64_at(p, 21)),
                luld_tier: Some(p[29]),
                ..security_row("security_directory"@, p)
            },
        )
    }
}

/// Decodes the payload of an entry of the security directory.
pub fn decode_security_dir<'a>(p: &'a [u8]) -> (r: Option<Row<'a>>)
    ensures
        row_of(r) == security_dir_row(p@),
{
    if p.len() < 30 {
        return None;
    }
    Some(
        Row {
            flags: Some(wire::ru8(p, 0)),
            secdir: Some(
                SecurityDir {
                    round_lot_size: wire::ru32(p, 17),
                    adj_poc_price: wire::ri64(p, 21),
                    luld_tier: wire::ru8(p, 29),
                },
            ),
            ..security("security_directory", p)
        },
    )
}

/// The row of a change in whether a security trades, with its reason.
pub open spec fn trading_status_row(p: Seq<u8>) -> Option<RowView> {
    if p.len() < 21 {
        None
    } else {
        Some(
            RowView {
                trading_status: Some(trading_status_text(p[0])),
                reason: Some(wire::text_at(p, 17, 4)),
                ..security_row("trading_status"@, p)
            },
        )
    }
}

/// Decodes the payload of a trading status.
pub fn decode_trading_status<'a>(p: &'a [u8]) -> (r: Option<Row<'a>>)
    ensures
        row_of(r) == trading_status_row(p@),
{
    if p.len() < 21 {
        return None;
    }
    Some(
        Row {
            trading_status: Some(trading_status(wire::ru8(p, 0))),
            reason: Some(wire::ascii4(p, 17)),
            ..security("trading_status", p)
        },
    )
}

/// The row of a change in whether the exchange has halted a security.
pub open spec fn operational_halt_row(p: Seq<u8>) -> Option<RowView> {
    if p.len() < 17 {
        None
    } else {
        Some(
            RowView {
                halt_status: Some(halt_status_text(p[0])),
                ..security_row("operational_halt"@, p)
            },
        )
    }
}

/// Decodes the payload of an operational halt.
pub fn decode_operational_halt<'a>(p: &'a [u8]) -> (r: Option<Row<'a>>)
    ensures
        row_of(r) == operational_halt_row(p@),
{
    if p.len() < 17 {
        return None;
    }
    Some(
        Row {
            halt_status: Some(halt_status(wire::ru8(p, 0))),
            ..security("operational_halt", p)
        },
    )
}

/// The row of a change of the short sale price test of a security. The reason may
/// be missing.
pub open spec fn short_sale_row(p: Seq<u8>) -> Option<RowView> {
    if p.len() < 17 {
        None
    } else {
        Some(
            RowView {
                short_sale_status: Some(p[0]),
                short_sale_detail: Some(
                    if p.len() > 17 {
                        short_sale_detail_text(p[17])
                    } else {
                        "unknown"@
                    },
                ),
                ..security_row("short_sale_status"@, p)
            },
        )
    }
}

/// Decodes the payload of a short sale price test.
pub fn decode_short_sale<'a>(p: &'a [u8]) -> (r: Option<Row<'a>>)
    ensures
        row_of(r) == short_sale_row(p@),
{
    if p.len() < 17 {
        return None;
    }
    let detail = if p.len() > 17 {
        short_sale_detail(wire::ru8(p, 17))
    } else {
        "unknown"
    };
    Some(
        Row {
            short_sale_status: Some(wire::ru8(p, 0)),
            short_sale_detail: Some(detail),
            ..security("short_sale_status", p)
        },
    )
}

/// The row of a change of the retail liquidity of a security.
pub open spec fn retail_liquidity_row(p: Seq<u8>) -> Option<RowView> {
    if p.len() < 17 {
        None
    } else {
        Some(
            RowView {
                retail_indicator: Some(retail_indicator_text(p[0])),
                ..security_row("retail_liquidity"@, p)
            },
        )
    }
}

/// Decodes the payload of retail liquidity.
pub fn decode_retail_liquidity<'a>(p: &'a [u8]) -> (r: Option<Row<'a>>)
    ensures
        row_of(r) == retail_liquidity_row(p@),
{
    if p.len() < 17 {
        return None;
    }
    Some(
        Row {
            retail_indicator: Some(retail_indicator(wire::ru8(p, 0))),
            ..security("retail_liquidity", p)
        },
    )
}

/// The row of an event of a security.
pub open spec fn security_event_row(p: Seq<u8>) -> Option<RowView> {
    if p.len() < 17 {
        None
    } else {
        Some(
            RowView {
                security_event: Some(security_event_text(p[0])),
                ..security_row("security_event"@, p)
            },
        )
    }
}

/// Decodes the payload of a security event.
pub fn decode_security_event<'a>(p: &'a [u8]) -> (r: Option<Row<'a>>)
    ensures
        row_of(r) == security_event_row(p@),
{
    if p.len() < 17 {
        return None;
    }
    Some(
        Row {
            security_event: Some(security_event(wire::ru8(p, 0))),
            ..security("security_event", p)
        },
    )
}

/// The row of an event of the whole market: it has no symbol.
pub open spec fn system_event_row(p: Seq<u8>) -> Option<RowView> {
    if p.len() < 9 {
        None
    } else {
        Some(
            RowView {
                system_event: Some(system_event_text(p[0])),
                ..row::bare_row("system_event"@, wire::i64_at(p, 1), ""@)
            },
        )
    }
}

/// Decodes the payload of a system event.
pub fn decode_system_event<'a>(p: &'a [u8]) -> (r: Option<Row<'a>>)
    ensures
        row_of(r) == system_event_row(p@),
{
    if p.len() < 9 {
        return None;
    }
    Some(
        Row {
            system_event: Some(system_event(wire::ru8(p, 0))),
            ..Row::bare("system_event", wire::ri64(p, 1), "")
        },
    )
}

/// The row that a message becomes, if any. Messages of other types become none.
pub open spec fn message_row(mt: u8, p: Seq<u8>) -> Option<RowView> {
    if mt == T_PLU_BUY || mt == T_PLU_SELL {
        plu_row(mt, p)
    } else if mt == T_TRADE_REPORT || mt == T_TRADE_BREAK {
        trade_row(mt, p)
    } else if mt == T_OFFICIAL_PRICE {
        official_price_row(p)
    } else if mt == T_AUCTION_INFO {
        auction_row(p)
    } else if mt == T_SECURITY_DIR {
        security_dir_row(p)
    } else if mt == T_TRADING_STATUS {
        trading_status_row(p)
    } else if mt == T_OPERATIONAL_HALT {
        operational_halt_row(p)
    } else if mt == T_SHORT_SALE {
        short_sale_row(p)
    } else if mt == T_RETAIL_LIQUIDITY {
        retail_liquidity_row(p)
    } else if mt == T_SECURITY_EVENT {
        security_event_row(p)
    } else if mt == T_SYSTEM_EVENT {
        system_event_row(p)
    } else {
        None
    }
}

/// The row that a message becomes, if any.
pub fn decode_message<'a>(mt: u8, p: &'a [u8]) -> (r: Option<Row<'a>>)
    ensures
        row_of(r) == message_row(mt, p@),
{
    if mt == T_PLU_BUY || mt == T_PLU_SELL {
        decode_plu(mt, p)
    } else if mt == T_TRADE_REPORT || mt == T_TRADE_BREAK {
        decode_trade(mt, p)
    } else if mt == T_OFFICIAL_PRICE {
        decode_official_price(p)
    } else if mt == T_AUCTION_INFO {
        decode_auction(p)
    } else if mt == T_SECURITY_DIR {
        decode_security_dir(p)
    } else if mt == T_TRADING_STATUS {
        decode_trading_status(p)
    } else if mt == T_OPERATIONAL_HALT {
        decode_operational_halt(p)
    } else if mt == T_SHORT_SALE {
        decode_short_sale(p)
    } else if mt == T_RETAIL_LIQUIDITY {
        decode_retail_liquidity(p)
    } else if mt == T_SECURITY_EVENT {
        decode_security_event(p)
    } else if mt == T_SYSTEM_EVENT {
        decode_system_event(p)
    } else {
        None
    }
}

/// Whether `mt` is the type of a price level update.
pub open spec fn is_plu(mt: u8) -> bool {
    mt == T_PLU_BUY || mt == T_PLU_SELL
}

/// Whether `mt` is the type of a trade or of the break of one.
pub open spec fn is_trade(mt: u8) -> bool {
    mt == T_TRADE_REPORT || mt == T_TRADE_BREAK
}

/// Whether messages of type `mt` are known.
pub open spec fn is_known(mt: u8) -> bool {
    ||| is_plu(mt)
    ||| is_trade(mt)
    ||| mt == T_OFFICIAL_PRICE
    ||| mt == T_AUCTION_INFO
    ||| mt == T_SECURITY_DIR
    ||| mt == T_TRADING_STATUS
    ||| mt == T_OPERATIONAL_HALT
    ||| mt == T_SHORT_SALE
    ||| mt == T_RETAIL_LIQUIDITY
    ||| mt == T_SECURITY_EVENT
    ||| mt == T_SYSTEM_EVENT
}

/// The length of the shortest payload that a message of a known type has.
pub open spec fn min_payload(mt: u8) -> nat {
    if is_plu(mt) {
        29
    } else if is_trade(mt) {
        37
    } else if mt == T_OFFICIAL_PRICE {
        25
    } else if mt == T_AUCTION_INFO {
        79
    } else if mt == T_SECURITY_DIR {
        30
    } else if mt == T_TRADING_STATUS {
        21
    } else if mt == T_SYSTEM_EVENT {
        9
    } else {
        17
    }
}

/// Whether messages of type `mt` fill column `c`.
pub open spec fn fills(mt: u8, c: Column) -> bool {
    match c {
        Column::MsgType | Column::Timestamp | Column::Symbol => true,
        Column::Flags => is_plu(mt) || is_trade(mt) || mt == T_SECURITY_DIR,
        Column::Side => is_plu(mt),
        Column::Price => is_plu(mt) || is_trade(mt) || mt == T_OFFICIAL_PRICE,
        Column::Size => is_plu(mt) || is_trade(mt),
        Column::TradeId | Column::IsTradeBreak => is_trade(mt),
        Column::PriceType => mt == T_OFFICIAL_PRICE,
        Column::RoundLotSize | Column::AdjPocPrice | Column::LuldTier => mt == T_SECURITY_DIR,
        Column::TradingStatus | Column::Reason => mt == T_TRADING_STATUS,
        Column::HaltStatus => mt == T_OPERATIONAL_HALT,
        Column::ShortSaleStatus | Column::ShortSaleDetail => mt == T_SHORT_SALE,
        Column::RetailIndicator => mt == T_RETAIL_LIQUIDITY,
        Column::SecurityEvent => mt == T_SECURITY_EVENT,
        Column::SystemEvent => mt == T_SYSTEM_EVENT,
        _ => mt == T_AUCTION_INFO,
    }
}

/// A message becomes a row exactly where its type is known and its payload is
/// not too short.
pub proof fn law_known_messages_become_rows(mt: u8, p: Seq<u8>)
    ensures
        message_row(mt, p) is Some <==> is_known(mt) && p.len() >= min_payload(mt),
        plu_row(mt, p) is Some <==> p.len() >= 29,
        trade_row(mt, p) is Some <==> p.len() >= 37,
{
}

/// A row has a value in exactly the columns that messages of its type fill.
pub proof fn law_row_fills_columns_of_its_type(mt: u8, p: Seq<u8>, c: Column)
    ensures
        message_row(mt, p) matches Some(r) ==> (schema::is_null(r.item(c)) <==> !fills(mt, c)),
{
}

/// The bytes of a payload behind those that its type calls for do not matter; a
/// short sale price test calls for its reason where there is one.
pub proof fn law_longer_payload_same_row(mt: u8, p: Seq<u8>, more: Seq<u8>)
    requires
        p.len() >= min_payload(mt),
        mt == T_SHORT_SALE ==> p.len() > 17,
    ensures
        message_row(mt, p + more) == message_row(mt, p),
{
    let q = p + more;
    assert forall|o: int, n: int| 0 <= o <= n <= p.len() implies #[trigger] q.subrange(o, n)
        == p.subrange(o, n) by {
        assert(q.subrange(o, n) =~= p.subrange(o, n));
    }
}

/// A row of a message about a security has the text at offset 9 as its symbol;
/// that of an event of the whole market has none.
pub proof fn law_symbol(mt: u8, p: Seq<u8>)
    ensures
        message_row(mt, p) matches Some(r) ==> r.symbol == (if mt == T_SYSTEM_EVENT {
            ""@
        } else {
            wire::field_text(p.subrange(9, 17))
        }),
        message_row(mt, p) matches Some(r) ==> r.timestamp == wire::i64_at(p, 1),
{
}

/// No text of a row has more characters than the longest.
pub proof fn law_texts_are_short(mt: u8, p: Seq<u8>, c: Column)
    ensures
        message_row(mt, p) matches Some(r) ==> (r.text(c) matches Some(t) ==> t.len()
            <= row::LONGEST_TEXT),
{
    wire::law_field_text(p.subrange(9, 17));
    wire::law_field_text(p.subrange(17, 21));
    reveal_strlit("price_level_update_buy");
    reveal_strlit("price_level_update_sell");
    reveal_strlit("trade_report");
    reveal_strlit("trade_break");
    reveal_strlit("official_price");
    reveal_strlit("auction_information");
    reveal_strlit("security_directory");
    reveal_strlit("trading_status");
    reveal_strlit("operational_halt");
    reveal_strlit("short_sale_status");
    reveal_strlit("retail_liquidity");
    reveal_strlit("security_event");
    reveal_strlit("system_event");
    reveal_strlit("");
    reveal_strlit("B");
    reveal_strlit("S");
    reveal_strlit("activated");
    reveal_strlit("buy");
    reveal_strlit("buy_and_sell");
    reveal_strlit("closing");
    reveal_strlit("closing_process_complete");
    reveal_strlit("continued");
    reveal_strlit("end_of_messages");
    reveal_strlit("end_of_regular_hours");
    reveal_strlit("end_of_system_hours");
    reveal_strlit("halt");
    reveal_strlit("halted");
    reveal_strlit("ipo");
    reveal_strlit("none");
    reveal_strlit("not_halted");
    reveal_strlit("opening");
    reveal_strlit("opening_process_complete");
    reveal_strlit("order_acceptance_period");
    reveal_strlit("paused");
    reveal_strlit("sell");
    reveal_strlit("start_of_messages");
    reveal_strlit("start_of_regular_hours");
    reveal_strlit("start_of_system_hours");
    reveal_strlit("trading");
    reveal_strlit("unknown");
    reveal_strlit("volatility");
}

/// The first bytes of every message about a security: a byte of flags or a code,
/// the time and the eight bytes of the symbol.
pub open spec fn security_bytes(first: u8, time: i64, symbol: Seq<u8>) -> Seq<u8> {
    seq![first] + wire::i64_bytes(time) + symbol
}

/// What the first bytes of a message about a security say is read back.
proof fn lemma_security_read_back(first: u8, time: i64, symbol: Seq<u8>, more: Seq<u8>)
    requires
        symbol.len() == 8,
    ensures
        ({
            let p = security_bytes(first, time, symbol) + more;
            &&& security_bytes(first, time, symbol).len() == 17
            &&& p[0] == first
            &&& wire::i64_at(p, 1) == time
            &&& wire::text_at(p, 9, 8) == wire::field_text(symbol)
        }),
{
    let p = security_bytes(first, time, symbol) + more;
    wire::law_i64_read_back(seq![first], time, symbol + more);
    assert(p =~= seq![first] + wire::i64_bytes(time) + (symbol + more));
    assert(p.subrange(9, 17) =~= symbol);
}

/// A 32-bit number in a payload is read back.
proof fn lemma_u32_field(p: Seq<u8>, o: int, v: u32)
    requires
        0 <= o,
        o + 4 <= p.len(),
        p.subrange(o, o + 4) == wire::le_bytes(v as nat, 4),
    ensures
        wire::u32_at(p, o) == v,
{
    wire::law_u32_read_back(p.take(o), v, p.skip(o + 4));
    assert(p =~= p.take(o) + p.subrange(o, o + 4) + p.skip(o + 4));
}

/// A signed number in a payload is read back.
proof fn lemma_i64_field(p: Seq<u8>, o: int, v: i64)
    requires
        0 <= o,
        o + 8 <= p.len(),
        p.subrange(o, o + 8) == wire::i64_bytes(v),
    ensures
        wire::i64_at(p, o) == v,
{
    wire::law_i64_read_back(p.take(o), v, p.skip(o + 8));
    assert(p =~= p.take(o) + p.subrange(o, o + 8) + p.skip(o + 8));
}

/// The lengths of the encodings of numbers.
proof fn lemma_number_lengths(v: u32, w: i64)
    ensures
        wire::le_bytes(v as nat, 4).len() == 4,
        wire::i64_bytes(w).len() == 8,
{
    reveal_with_fuel(wire::pow256, 5);
    wire::law_le_value_of_le_bytes(v as nat, 4);
    wire::law_i64_read_back(Seq::empty(), w, Seq::empty());
}

/// The payload of a price level update.
pub open spec fn plu_payload(flags: u8, time: i64, symbol: Seq<u8>, size: u32, price: i64) -> Seq<
    u8,
> {
    security_bytes(flags, time, symbol) + wire::le_bytes(size as nat, 4) + wire::i64_bytes(price)
}

/// A price level update of either side is read back: its flags, time, symbol, size
/// and price, whatever they are and whatever stands behind them.
pub proof fn law_plu_read_back(
    mt: u8,
    flags: u8,
    time: i64,
    symbol: Seq<u8>,
    size: u32,
    price: i64,
    more: Seq<u8>,
)
    requires
        symbol.len() == 8,
    ensures
        ({
            let p = plu_payload(flags, time, symbol, size, price) + more;
            let buy = mt as char == '8';
            let r = RowView {
                flags: Some(flags),
                side: Some(if buy { "B"@ } else { "S"@ }),
                price: Some(price),
                size: Some(size),
                ..row::bare_row(
                    if buy {
                        "price_level_update_buy"@
                    } else {
                        "price_level_update_sell"@
                    },
                    time,
                    wire::field_text(symbol),
                )
            };
            &&& plu_row(mt, p) == Some(r)
            &&& mt as char == '8' || mt as char == '5' ==> message_row(mt, p) == Some(r)
        }),
{
    let p = plu_payload(flags, time, symbol, size, price) + more;
    let rest = wire::le_bytes(size as nat, 4) + wire::i64_bytes(price) + more;
    lemma_number_lengths(size, price);
    lemma_security_read_back(flags, time, symbol, rest);
    assert(p =~= security_bytes(flags, time, symbol) + rest);
    assert(p.subrange(17, 21) =~= wire::le_bytes(size as nat, 4));
    assert(p.subrange(21, 29) =~= wire::i64_bytes(price));
    lemma_u32_field(p, 17, size);
    lemma_i64_field(p, 21, price);
}

/// The payload of a trade or of the break of one.
pub open spec fn trade_payload(
    flags: u8,
    time: i64,
    symbol: Seq<u8>,
    size: u32,
    price: i64,
    trade_id: i64,
) -> Seq<u8> {
    security_bytes(flags, time, symbol) + wire::le_bytes(size as nat, 4) + wire::i64_bytes(price)
        + wire::i64_bytes(trade_id)
}

/// A trade, or the break of one, is read back: its flags, time, symbol, size, price
/// and number.
pub proof fn law_trade_read_back(
    mt: u8,
    flags: u8,
    time: i64,
    symbol: Seq<u8>,
    size: u32,
    price: i64,
    trade_id: i64,
    more: Seq<u8>,
)
    requires
        symbol.len() == 8,
    ensures
        ({
            let p = trade_payload(flags, time, symbol, size, price, trade_id) + more;
            let r = RowView {
                flags: Some(flags),
                price: Some(price),
                size: Some(size),
                trade_id: Some(trade_id),
                is_trade_break: Some(mt as char == 'B'),
                ..row::bare_row(
                    if mt as char == 'T' {
                        "trade_report"@
                    } else {
                        "trade_break"@
                    },
                    time,
                    wire::field_text(symbol),
                )
            };
            &&& trade_row(mt, p) == Some(r)
            &&& mt as char == 'T' || mt as char == 'B' ==> message_row(mt, p) == Some(r)
        }),
{
    let p = trade_payload(flags, time, symbol, size, price, trade_id) + more;
    let rest = wire::le_bytes(size as nat, 4) + wire::i64_bytes(price) + wire::i64_bytes(trade_id)
        + more;
    lemma_number_lengths(size, price);
    lemma_number_lengths(size, trade_id);
    lemma_security_read_back(flags, time, symbol, rest);
    assert(p =~= security_bytes(flags, time, symbol) + rest);
    assert(p.subrange(17, 21) =~= wire::le_bytes(size as nat, 4));
    assert(p.subrange(21, 29) =~= wire::i64_bytes(price));
    assert(p.subrange(29, 37) =~= wire::i64_bytes(trade_id));
    lemma_u32_field(p, 17, size);
    lemma_i64_field(p, 21, price);
    lemma_i64_field(p, 29, trade_id);
}

/// The payload of an official price.
pub open spec fn official_price_payload(code: u8, time: i64, symbol: Seq<u8>, price: i64) -> Seq<
    u8,
> {
    security_bytes(code, time, symbol) + wire::i64_bytes(price)
}

/// An official price is read back.
pub proof fn law_official_price_read_back(
    code: u8,
    time: i64,
    symbol: Seq<u8>,
    price: i64,
    more: Seq<u8>,
)
    requires
        symbol.len() == 8,
    ensures
        ({
            let p = official_price_payload(code, time, symbol, price) + more;
            let r = RowView {
                price: Some(price),
                price_type: Some(price_type_text(code)),
                ..row::bare_row("official_price"@, time, wire::field_text(symbol))
            };
            &&& official_price_row(p) == Some(r)
            &&& message_row('X' as u8, p) == Some(r)
        }),
{
    let p = official_price_payload(code, time, symbol, price) + more;
    let rest = wire::i64_bytes(price) + more;
    lemma_number_lengths(0, price);
    lemma_security_read_back(code, time, symbol, rest);
    assert(p =~= security_bytes(code, time, symbol) + rest);
    assert(p.subrange(17, 25) =~= wire::i64_bytes(price));
    lemma_i64_field(p, 17, price);
}

/// What auction information says of an auction, in the order in which it stands in
/// the payload.
pub struct AuctionFields {
    pub paired_shares: u32,
    pub reference_price: i64,
    pub indicative_clearing_price: i64,
    pub imbalance_shares: u32,
    pub imbalance_side: u8,
    pub extension_number: u8,
    pub scheduled_auction_time: u32,
    pub auction_book_clearing_price: i64,
    pub collar_reference_price: i64,
    pub lower_auction_collar: i64,
    pub upper_auction_collar: i64,
}

/// The payload of auction information.
pub open spec fn auction_payload(code: u8, time: i64, symbol: Seq<u8>, f: AuctionFields) -> Seq<
    u8,
> {
    security_bytes(code, time, symbol) + wire::le_bytes(f.paired_shares as nat, 4)
        + wire::i64_bytes(f.reference_price) + wire::i64_bytes(f.indicative_clearing_price)
        + wire::le_bytes(f.imbalance_shares as nat, 4) + seq![f.imbalance_side, f.extension_number]
        + wire::le_bytes(f.scheduled_auction_time as nat, 4) + wire::i64_bytes(
        f.auction_book_clearing_price,
    ) + wire::i64_bytes(f.collar_reference_price) + wire::i64_bytes(f.lower_auction_collar)
        + wire::i64_bytes(f.upper_auction_collar)
}

/// Auction information is read back: every share count, price and time of it.
pub proof fn law_auction_read_back(
    code: u8,
    time: i64,
    symbol: Seq<u8>,
    f: AuctionFields,
    more: Seq<u8>,
)
    requires
        symbol.len() == 8,
    ensures
        ({
            let p = auction_payload(code, time, symbol, f) + more;
            let r = RowView {
                auction_type: Some(auction_type_text(code)),
                paired_shares: Some(f.paired_shares),
                reference_price: Some(f.reference_price),
                indicative_clearing_price: Some(f.indicative_clearing_price),
                imbalance_shares: Some(f.imbalance_shares),
                imbalance_side: Some(imbalance_side_text(f.imbalance_side)),
                extension_number: Some(f.extension_number),
                scheduled_auction_time: Some(f.scheduled_auction_time),
                auction_book_clearing_price: Some(f.auction_book_clearing_price),
                collar_reference_price: Some(f.collar_reference_price),
                lower_auction_collar: Some(f.lower_auction_collar),
                upper_auction_collar: Some(f.upper_auction_collar),
                ..row::bare_row("auction_information"@, time, wire::field_text(symbol))
            };
            &&& auction_row(p) == Some(r)
            &&& message_row('A' as u8, p) == Some(r)
        }),
{
    let p = auction_payload(code, time, symbol, f) + more;
    lemma_number_lengths(f.paired_shares, f.reference_price);
    lemma_number_lengths(f.imbalance_shares, f.indicative_clearing_price);
    lemma_number_lengths(f.scheduled_auction_time, f.auction_book_clearing_price);
    lemma_number_lengths(0, f.collar_reference_price);
    lemma_number_lengths(0, f.lower_auction_collar);
    lemma_number_lengths(0, f.upper_auction_collar);
    lemma_security_read_back(code, time, symbol, p.skip(17));
    assert(p =~= security_bytes(code, time, symbol) + p.skip(17));
    assert(p.subrange(17, 21) =~= wire::le_bytes(f.paired_shares as nat, 4));
    assert(p.subrange(21, 29) =~= wire::i64_bytes(f.reference_price));
    assert(p.subrange(29, 37) =~= wire::i64_bytes(f.indicative_clearing_price));
    assert(p.subrange(37, 41) =~= wire::le_bytes(f.imbalance_shares as nat, 4));
    assert(p.subrange(43, 47) =~= wire::le_bytes(f.scheduled_auction_time as nat, 4));
    assert(p.subrange(47, 55) =~= wire::i64_bytes(f.auction_book_clearing_price));
    assert(p.subrange(55, 63) =~= wire::i64_bytes(f.collar_reference_price));
    assert(p.subrange(63, 71) =~= wire::i64_bytes(f.lower_auction_collar));
    assert(p.subrange(71, 79) =~= wire::i64_bytes(f.upper_auction_collar));
    lemma_u32_field(p, 17, f.paired_shares);
    lemma_i64_field(p, 21, f.reference_price);
    lemma_i64_field(p, 29, f.indicative_clearing_price);
    lemma_u32_field(p, 37, f.imbalance_shares);
    lemma_u32_field(p, 43, f.scheduled_auction_time);
    lemma_i64_field(p, 47, f.auction_book_clearing_price);
    lemma_i64_field(p, 55, f.collar_reference_price);
    lemma_i64_field(p, 63, f.lower_auction_collar);
    lemma_i64_field(p, 71, f.upper_auction_collar);
}

/// The payload of an entry of the security directory.
pub open spec fn security_dir_payload(
    flags: u8,
    time: i64,
    symbol: Seq<u8>,
    round_lot_size: u32,
    adj_poc_price: i64,
    luld_tier: u8,
) -> Seq<u8> {
    security_bytes(flags, time, symbol) + wire::le_bytes(round_lot_size as nat, 4)
        + wire::i64_bytes(adj_poc_price) + seq![luld_tier]
}

/// An entry of the security directory is read back.
pub proof fn law_security_dir_read_back(
    flags: u8,
    time: i64,
    symbol: Seq<u8>,
    round_lot_size: u32,
    adj_poc_price: i64,
    luld_tier: u8,
    more: Seq<u8>,
)
    requires
        symbol.len() == 8,
    ensures
        ({
            let p = security_dir_payload(
                flags,
                time,
                symbol,
                round_lot_size,
                adj_poc_price,
                luld_tier,
            ) + more;
            let r = RowView {
                flags: Some(flags),
                round_lot_size: Some(round_lot_size),
                adj_poc_price: Some(adj_poc_price),
                luld_tier: Some(luld_tier),
                ..row::bare_row("security_directory"@, time, wire::field_text(symbol))
            };
            &&& security_dir_row(p) == Some(r)
            &&& message_row('D' as u8, p) == Some(r)
        }),
{
    let p = security_dir_payload(flags, time, symbol, round_lot_size, adj_poc_price, luld_tier)
        + more;
    lemma_number_lengths(round_lot_size, adj_poc_price);
    lemma_security_read_back(flags, time, symbol, p.skip(17));
    assert(p =~= security_bytes(flags, time, symbol) + p.skip(17));
    assert(p.subrange(17, 21) =~= wire::le_bytes(round_lot_size as nat, 4));
    assert(p.subrange(21, 29) =~= wire::i64_bytes(adj_poc_price));
    lemma_u32_field(p, 17, round_lot_size);
    lemma_i64_field(p, 21, adj_poc_price);
}

/// A trading status is read back, with the four bytes of its reason.
pub proof fn law_trading_status_read_back(
    code: u8,
    time: i64,
    symbol: Seq<u8>,
    reason: Seq<u8>,
    more: Seq<u8>,
)
    requires
        symbol.len() == 8,
        reason.len() == 4,
    ensures
        ({
            let p = security_bytes(code, time, symbol) + reason + more;
            let r = RowView {
                trading_status: Some(trading_status_text(code)),
                reason: Some(wire::field_text(reason)),
                ..row::bare_row("trading_status"@, time, wire::field_text(symbol))
            };
            &&& trading_status_row(p) == Some(r)
            &&& message_row('H' as u8, p) == Some(r)
        }),
{
    let p = security_bytes(code, time, symbol) + reason + more;
    lemma_security_read_back(code, time, symbol, reason + more);
    assert(p =~= security_bytes(code, time, symbol) + (reason + more));
    assert(p.subrange(17, 21) =~= reason);
}

/// The messages about a security that hold a code and nothing else are read back:
/// operational halts, retail liquidity and security events.
pub proof fn law_status_read_back(code: u8, time: i64, symbol: Seq<u8>, more: Seq<u8>)
    requires
        symbol.len() == 8,
    ensures
        ({
            let p = security_bytes(code, time, symbol) + more;
            let text = wire::field_text(symbol);
            let halt = RowView {
                halt_status: Some(halt_status_text(code)),
                ..row::bare_row("operational_halt"@, time, text)
            };
            let retail = RowView {
                retail_indicator: Some(retail_indicator_text(code)),
                ..row::bare_row("retail_liquidity"@, time, text)
            };
            let event = RowView {
                security_event: Some(security_event_text(code)),
                ..row::bare_row("security_event"@, time, text)
            };
            &&& operational_halt_row(p) == Some(halt)
            &&& message_row('O' as u8, p) == Some(halt)
            &&& retail_liquidity_row(p) == Some(retail)
            &&& message_row('I' as u8, p) == Some(retail)
            &&& security_event_row(p) == Some(event)
            &&& message_row('E' as u8, p) == Some(event)
        }),
{
    lemma_security_read_back(code, time, symbol, more);
}

/// A short sale price test is read back, with its reason where it has one.
pub proof fn law_short_sale_read_back(status: u8, time: i64, symbol: Seq<u8>, more: Seq<u8>)
    requires
        symbol.len() == 8,
    ensures
        ({
            let p = security_bytes(status, time, symbol) + more;
            let r = RowView {
                short_sale_status: Some(status),
                short_sale_detail: Some(
                    if more.len() == 0 {
                        "unknown"@
                    } else {
                        short_sale_detail_text(more[0])
                    },
                ),
                ..row::bare_row("short_sale_status"@, time, wire::field_text(symbol))
            };
            &&& short_sale_row(p) == Some(r)
            &&& message_row('P' as u8, p) == Some(r)
        }),
{
    lemma_security_read_back(status, time, symbol, more);
}

/// An event of the whole market is read back: its code and its time.
pub proof fn law_system_event_read_back(code: u8, time: i64, more: Seq<u8>)
    ensures
        ({
            let p = seq![code] + wire::i64_bytes(time) + more;
            let r = RowView {
                system_event: Some(system_event_text(code)),
                ..row::bare_row("system_event"@, time, Seq::empty())
            };
            &&& system_event_row(p) == Some(r)
            &&& message_row('S' as u8, p) == Some(r)
        }),
{
    wire::law_i64_read_back(seq![code], time, more);
    reveal_strlit("");
    assert(""@ =~= Seq::<char>::empty());
}

/// Only messages of thirteen types become rows.
pub proof fn law_other_types_become_no_row(mt: u8, p: Seq<u8>)
    requires
        message_row(mt, p) is Some,
    ensures
        seq!['S', 'D', 'H', 'I', 'O', 'P', 'E', '8', '5', 'T', 'B', 'X', 'A'].contains(mt as char),
{
    let types = seq!['S', 'D', 'H', 'I', 'O', 'P', 'E', '8', '5', 'T', 'B', 'X', 'A'];
    assert(types[0] == 'S' && types[1] == 'D' && types[2] == 'H' && types[3] == 'I');
    assert(types[4] == 'O' && types[5] == 'P' && types[6] == 'E' && types[7] == '8');
    assert(types[8] == '5' && types[9] == 'T' && types[10] == 'B' && types[11] == 'X');
    assert(types[12] == 'A');
}

/// The text for what an official price is of gives the letter of its code back; other letters
/// have no text of their own.
pub proof fn law_price_type_letters(code: u8)
    ensures
        price_type_text(code) == "opening"@ <==> code as char == 'Q',
        price_type_text(code) == "closing"@ <==> code as char == 'M',
        price_type_text(code) == "unknown"@ <==> !seq!['Q', 'M'].contains(
            code as char,
        ),
{
    reveal_strlit("opening");
    reveal_strlit("closing");
    reveal_strlit("unknown");
    let letters = seq!['Q', 'M'];
    assert(letters[0] == 'Q' && letters[1] == 'M');
    assert("opening"@[0] != "closing"@[0]);
    assert("opening"@[0] != "unknown"@[0]);
    assert("closing"@[0] != "unknown"@[0]);
}

/// The text for the kind of an auction gives the letter of its code back; other letters
/// have no text of their own.
pub proof fn law_auction_type_letters(code: u8)
    ensures
        auction_type_text(code) == "opening"@ <==> code as char == 'O',
        auction_type_text(code) == "closing"@ <==> code as char == 'C',
        auction_type_text(code) == "ipo"@ <==> code as char == 'I',
        auction_type_text(code) == "halt"@ <==> code as char == 'H',
        auction_type_text(code) == "volatility"@ <==> code as char == 'V',
        auction_type_text(code) == "unknown"@ <==> !seq!['O', 'C', 'I', 'H', 'V'].contains(
            code as char,
        ),
{
    reveal_strlit("opening");
    reveal_strlit("closing");
    reveal_strlit("ipo");
    reveal_strlit("halt");
    reveal_strlit("volatility");
    reveal_strlit("unknown");
    let letters = seq!['O', 'C', 'I', 'H', 'V'];
    assert(letters[0] == 'O' && letters[1] == 'C' && letters[2] == 'I');
    assert(letters[3] == 'H' && letters[4] == 'V');
    assert("opening"@[0] != "closing"@[0]);
    assert("opening"@.len() != "ipo"@.len());
    assert("opening"@.len() != "halt"@.len());
    assert("opening"@.len() != "volatility"@.len());
    assert("opening"@[0] != "unknown"@[0]);
    assert("closing"@.len() != "ipo"@.len());
    assert("closing"@.len() != "halt"@.len());
    assert("closing"@.len() != "volatility"@.len());
    assert("closing"@[0] != "unknown"@[0]);
    assert("ipo"@.len() != "halt"@.len());
    assert("ipo"@.len() != "volatility"@.len());
    assert("ipo"@.len() != "unknown"@.len());
    assert("halt"@.len() != "volatility"@.len());
    assert("halt"@.len() != "unknown"@.len());
    assert("volatility"@.len() != "unknown"@.len());
}

/// The text for the side of an imbalance gives the letter of its code back; other letters
/// have no text of their own.
pub proof fn law_imbalance_side_letters(code: u8)
    ensures
        imbalance_side_text(code) == "B"@ <==> code as char == 'B',
        imbalance_side_text(code) == "S"@ <==> code as char == 'S',
        imbalance_side_text(code) == ""@ <==> !seq!['B', 'S'].contains(
            code as char,
        ),
{
    reveal_strlit("B");
    reveal_strlit("S");
    reveal_strlit("");
    let letters = seq!['B', 'S'];
    assert(letters[0] == 'B' && letters[1] == 'S');
    assert("B"@[0] != "S"@[0]);
    assert("B"@.len() != ""@.len());
    assert("S"@.len() != ""@.len());
}

/// The text for whether a security trades gives the letter of its code back; other letters
/// have no text of their own.
pub proof fn law_trading_status_letters(code: u8)
    ensures
        trading_status_text(code) == "halted"@ <==> code as char == 'H',
        trading_status_text(code) == "order_acceptance_period"@ <==> code as char == 'O',
        trading_status_text(code) == "paused"@ <==> code as char == 'P',
        trading_status_text(code) == "trading"@ <==> code as char == 'T',
        trading_status_text(code) == "unknown"@ <==> !seq!['H', 'O', 'P', 'T'].contains(
            code as char,
        ),
{
    reveal_strlit("halted");
    reveal_strlit("order_acceptance_period");
    reveal_strlit("paused");
    reveal_strlit("trading");
    reveal_strlit("unknown");
    let letters = seq!['H', 'O', 'P', 'T'];
    assert(letters[0] == 'H' && letters[1] == 'O' && letters[2] == 'P');
    assert(letters[3] == 'T');
    assert("halted"@.len() != "order_acceptance_period"@.len());
    assert("halted"@[0] != "paused"@[0]);
    assert("halted"@.len() != "trading"@.len());
    assert("halted"@.len() != "unknown"@.len());
    assert("order_acceptance_period"@.len() != "paused"@.len());
    assert("order_acceptance_period"@.len() != "trading"@.len());
    assert("order_acceptance_period"@.len() != "unknown"@.len());
    assert("paused"@.len() != "trading"@.len());
    assert("paused"@.len() != "unknown"@.len());
    assert("trading"@[0] != "unknown"@[0]);
}

/// The text for whether the exchange has halted a security gives the letter of its
/// code back; other letters have no text of their own.
pub proof fn law_halt_status_letters(code: u8)
    ensures
        halt_status_text(code) == "halted"@ <==> code as char == 'O',
        halt_status_text(code) == "not_halted"@ <==> code as char == 'N',
        halt_status_text(code) == "unknown"@ <==> !seq!['O', 'N'].contains(
            code as char,
        ),
{
    reveal_strlit("halted");
    reveal_strlit("not_halted");
    reveal_strlit("unknown");
    let letters = seq!['O', 'N'];
    assert(letters[0] == 'O' && letters[1] == 'N');
    assert("halted"@.len() != "not_halted"@.len());
    assert("halted"@.len() != "unknown"@.len());
    assert("not_halted"@.len() != "unknown"@.len());
}

/// The text for why a price test is in effect gives the letter of its code back; other letters
/// have no text of their own.
pub proof fn law_short_sale_detail_letters(code: u8)
    ensures
        short_sale_detail_text(code) == "none"@ <==> code as char == ' ',
        short_sale_detail_text(code) == "activated"@ <==> code as char == 'A',
        short_sale_detail_text(code) == "continued"@ <==> code as char == 'C',
        short_sale_detail_text(code) == "unknown"@ <==> !seq![' ', 'A', 'C'].contains(
            code as char,
        ),
{
    reveal_strlit("none");
    reveal_strlit("activated");
    reveal_strlit("continued");
    reveal_strlit("unknown");
    let letters = seq![' ', 'A', 'C'];
    assert(letters[0] == ' ' && letters[1] == 'A' && letters[2] == 'C');
    assert("none"@.len() != "activated"@.len());
    assert("none"@.len() != "continued"@.len());
    assert("none"@.len() != "unknown"@.len());
    assert("activated"@[0] != "continued"@[0]);
    assert("activated"@.len() != "unknown"@.len());
    assert("continued"@.len() != "unknown"@.len());
}

/// The text for where there is retail liquidity gives the letter of its code back; other letters
/// have no text of their own.
pub proof fn law_retail_indicator_letters(code: u8)
    ensures
        retail_indicator_text(code) == "none"@ <==> code as char == ' ',
        retail_indicator_text(code) == "buy"@ <==> code as char == 'A',
        retail_indicator_text(code) == "sell"@ <==> code as char == 'B',
        retail_indicator_text(code) == "buy_and_sell"@ <==> code as char == 'C',
        retail_indicator_text(code) == "unknown"@ <==> !seq![' ', 'A', 'B', 'C'].contains(
            code as char,
        ),
{
    reveal_strlit("none");
    reveal_strlit("buy");
    reveal_strlit("sell");
    reveal_strlit("buy_and_sell");
    reveal_strlit("unknown");
    let letters = seq![' ', 'A', 'B', 'C'];
    assert(letters[0] == ' ' && letters[1] == 'A' && letters[2] == 'B');
    assert(letters[3] == 'C');
    assert("none"@.len() != "buy"@.len());
    assert("none"@[0] != "sell"@[0]);
    assert("none"@.len() != "buy_and_sell"@.len());
    assert("none"@.len() != "unknown"@.len());
    assert("buy"@.len() != "sell"@.len());
    assert("buy"@.len() != "buy_and_sell"@.len());
    assert("buy"@.len() != "unknown"@.len());
    assert("sell"@.len() != "buy_and_sell"@.len());
    assert("sell"@.len() != "unknown"@.len());
    assert("buy_and_sell"@.len() != "unknown"@.len());
}

/// The text for what has happened to a security gives the letter of its code back; other letters
/// have no text of their own.
pub proof fn law_security_event_letters(code: u8)
    ensures
        security_event_text(code) == "opening_process_complete"@ <==> code as char == 'O',
        security_event_text(code) == "closing_process_complete"@ <==> code as char == 'C',
        security_event_text(code) == "unknown"@ <==> !seq!['O', 'C'].contains(
            code as char,
        ),
{
    reveal_strlit("opening_process_complete");
    reveal_strlit("closing_process_complete");
    reveal_strlit("unknown");
    let letters = seq!['O', 'C'];
    assert(letters[0] == 'O' && letters[1] == 'C');
    assert("opening_process_complete"@[0] != "closing_process_complete"@[0]);
    assert("opening_process_complete"@.len() != "unknown"@.len());
    assert("closing_process_complete"@.len() != "unknown"@.len());
}

/// The text for what has happened to the market gives the letter of its code back; other letters
/// have no text of their own.
pub proof fn law_system_event_letters(code: u8)
    ensures
        system_event_text(code) == "start_of_messages"@ <==> code as char == 'O',
        system_event_text(code) == "start_of_system_hours"@ <==> code as char == 'S',
        system_event_text(code) == "start_of_regular_hours"@ <==> code as char == 'R',
        system_event_text(code) == "end_of_regular_hours"@ <==> code as char == 'M',
        system_event_text(code) == "end_of_system_hours"@ <==> code as char == 'E',
        system_event_text(code) == "end_of_messages"@ <==> code as char == 'C',
        system_event_text(code) == "unknown"@ <==> !seq!['O', 'S', 'R', 'M', 'E', 'C'].contains(
            code as char,
        ),
{
    reveal_strlit("start_of_messages");
    reveal_strlit("start_of_system_hours");
    reveal_strlit("start_of_regular_hours");
    reveal_strlit("end_of_regular_hours");
    reveal_strlit("end_of_system_hours");
    reveal_strlit("end_of_messages");
    reveal_strlit("unknown");
    let letters = seq!['O', 'S', 'R', 'M', 'E', 'C'];
    assert(letters[0] == 'O' && letters[1] == 'S' && letters[2] == 'R');
    assert(letters[3] == 'M' && letters[4] == 'E' && letters[5] == 'C');
    assert("start_of_messages"@.len() != "start_of_system_hours"@.len());
    assert("start_of_messages"@.len() != "start_of_regular_hours"@.len());
    assert("start_of_messages"@.len() != "end_of_regular_hours"@.len());
    assert("start_of_messages"@.len() != "end_of_system_hours"@.len());
    assert("start_of_messages"@.len() != "end_of_messages"@.len());
    assert("start_of_messages"@.len() != "unknown"@.len());
    assert("start_of_system_hours"@.len() != "start_of_regular_hours"@.len());
    assert("start_of_system_hours"@.len() != "end_of_regular_hours"@.len());
    assert("start_of_system_hours"@.len() != "end_of_system_hours"@.len());
    assert("start_of_system_hours"@.len() != "end_of_messages"@.len());
    assert("start_of_system_hours"@.len() != "unknown"@.len());
    assert("start_of_regular_hours"@.len() != "end_of_regular_hours"@.len());
    assert("start_of_regular_hours"@.len() != "end_of_system_hours"@.len());
    assert("start_of_regular_hours"@.len() != "end_of_messages"@.len());
    assert("start_of_regular_hours"@.len() != "unknown"@.len());
    assert("end_of_regular_hours"@.len() != "end_of_system_hours"@.len());
    assert("end_of_regular_hours"@.len() != "end_of_messages"@.len());
    assert("end_of_regular_hours"@.len() != "unknown"@.len());
    assert("end_of_system_hours"@.len() != "end_of_messages"@.len());
    assert("end_of_system_hours"@.len() != "unknown"@.len());
    assert("end_of_messages"@.len() != "unknown"@.len());
}

} // verus!
