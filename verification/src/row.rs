//! Rows of the table: one row per market data message, one field per column.
use vstd::prelude::*;

use crate::columns;
use crate::wire;

verus! {

/// The number of columns.
pub const COLUMNS: usize = 33;

/// One row of the table. A field that the message type does not have is `None`.
/// Prices are in ten-thousandths.
#[verifier::ext_equal]
pub struct RowView {
    pub msg_type: Seq<char>,
    pub timestamp: i64,
    pub symbol: Seq<char>,
    pub flags: Option<u8>,
    pub side: Option<Seq<char>>,
    pub price: Option<i64>,
    pub size: Option<u32>,
    pub trade_id: Option<i64>,
    pub is_trade_break: Option<bool>,
    pub price_type: Option<Seq<char>>,
    pub auction_type: Option<Seq<char>>,
    pub paired_shares: Option<u32>,
    pub reference_price: Option<i64>,
    pub indicative_clearing_price: Option<i64>,
    pub imbalance_shares: Option<u32>,
    pub imbalance_side: Option<Seq<char>>,
    pub extension_number: Option<u8>,
    pub scheduled_auction_time: Option<u32>,
    pub auction_book_clearing_price: Option<i64>,
    pub collar_reference_price: Option<i64>,
    pub lower_auction_collar: Option<i64>,
    pub upper_auction_collar: Option<i64>,
    pub round_lot_size: Option<u32>,
    pub adj_poc_price: Option<i64>,
    pub luld_tier: Option<u8>,
    pub trading_status: Option<Seq<char>>,
    pub reason: Option<Seq<char>>,
    pub halt_status: Option<Seq<char>>,
    pub short_sale_status: Option<u8>,
    pub short_sale_detail: Option<Seq<char>>,
    pub retail_indicator: Option<Seq<char>>,
    pub security_event: Option<Seq<char>>,
    pub system_event: Option<Seq<char>>,
}

/// The fields that only auction information has.
pub struct Auction<'a> {
    pub auction_type: &'a str,
    pub paired_shares: u32,
    pub reference_price: i64,
    pub indicative_clearing_price: i64,
    pub imbalance_shares: u32,
    pub imbalance_side: &'a str,
    pub extension_number: u8,
    pub scheduled_auction_time: u32,
    pub auction_book_clearing_price: i64,
    pub collar_reference_price: i64,
    pub lower_auction_collar: i64,
    pub upper_auction_collar: i64,
}

/// The fields that only the security directory has.
pub struct SecurityDir {
    pub round_lot_size: u32,
    pub adj_poc_price: i64,
    pub luld_tier: u8,
}

/// A row whose texts are borrowed from the message.
pub struct Row<'a> {
    pub msg_type: &'a str,
    pub timestamp: i64,
    pub symbol: &'a str,
    pub flags: Option<u8>,
    pub side: Option<&'a str>,
    pub price: Option<i64>,
    pub size: Option<u32>,
    pub trade_id: Option<i64>,
    pub is_trade_break: Option<bool>,
    pub price_type: Option<&'a str>,
    pub auction: Option<Auction<'a>>,
    pub secdir: Option<SecurityDir>,
    pub trading_status: Option<&'a str>,
    pub reason: Option<&'a str>,
    pub halt_status: Option<&'a str>,
    pub short_sale_status: Option<u8>,
    pub short_sale_detail: Option<&'a str>,
    pub retail_indicator: Option<&'a str>,
    pub security_event: Option<&'a str>,
    pub system_event: Option<&'a str>,
}

/// The characters of a text that may be missing.
pub open spec fn chars(v: Option<&str>) -> Option<Seq<char>> {
    match v {
        Some(s) => Some(s@),
        None => None,
    }
}

/// The row that has the three fields common to all message types and no other.
pub open spec fn bare_row(msg_type: Seq<char>, timestamp: i64, symbol: Seq<char>) -> RowView {
    RowView {
        msg_type,
        timestamp,
        symbol,
        flags: None,
        side: None,
        price: None,
        size: None,
        trade_id: None,
        is_trade_break: None,
        price_type: None,
        auction_type: None,
        paired_shares: None,
        reference_price: None,
        indicative_clearing_price: None,
        imbalance_shares: None,
        imbalance_side: None,
        extension_number: None,
        scheduled_auction_time: None,
        auction_book_clearing_price: None,
        collar_reference_price: None,
        lower_auction_collar: None,
        upper_auction_collar: None,
        round_lot_size: None,
        adj_poc_price: None,
        luld_tier: None,
        trading_status: None,
        reason: None,
        halt_status: None,
        short_sale_status: None,
        short_sale_detail: None,
        retail_indicator: None,
        security_event: None,
        system_event: None,
    }
}

impl<'a> View for Row<'a> {
    type V = RowView;

    open spec fn view(&self) -> RowView {
        let common = RowView {
            flags: self.flags,
            side: chars(self.side),
            price: self.price,
            size: self.size,
            trade_id: self.trade_id,
            is_trade_break: self.is_trade_break,
            price_type: chars(self.price_type),
            trading_status: chars(self.trading_status),
            reason: chars(self.reason),
            halt_status: chars(self.halt_status),
            short_sale_status: self.short_sale_status,
            short_sale_detail: chars(self.short_sale_detail),
            retail_indicator: chars(self.retail_indicator),
            security_event: chars(self.security_event),
            system_event: chars(self.system_event),
            ..bare_row(self.msg_type@, self.timestamp, self.symbol@)
        };
        let with_auction = match self.auction {
            Some(a) => RowView {
                auction_type: Some(a.auction_type@),
                paired_shares: Some(a.paired_shares),
                reference_price: Some(a.reference_price),
                indicative_clearing_price: Some(a.indicative_clearing_price),
                imbalance_shares: Some(a.imbalance_shares),
                imbalance_side: Some(a.imbalance_side@),
                extension_number: Some(a.extension_number),
                scheduled_auction_time: Some(a.scheduled_auction_time),
                auction_book_clearing_price: Some(a.auction_book_clearing_price),
                collar_reference_price: Some(a.collar_reference_price),
                lower_auction_collar: Some(a.lower_auction_collar),
                upper_auction_collar: Some(a.upper_auction_collar),
                ..common
            },
            None => common,
        };
        match self.secdir {
            Some(d) => RowView {
                round_lot_size: Some(d.round_lot_size),
                adj_poc_price: Some(d.adj_poc_price),
                luld_tier: Some(d.luld_tier),
                ..with_auction
            },
            None => with_auction,
        }
    }
}

impl<'a> Row<'a> {
    /// The row that has the three fields common to all message types and no
    /// other.
    pub fn bare(msg_type: &'a str, timestamp: i64, symbol: &'a str) -> (r: Row<'a>)
        ensures
            r@ == bare_row(msg_type@, timestamp, symbol@),
            r.msg_type == msg_type,
            r.timestamp == timestamp,
            r.symbol == symbol,
    {
        Row {
            msg_type,
            timestamp,
            symbol,
            flags: None,
            side: None,
            price: None,
            size: None,
            trade_id: None,
            is_trade_break: None,
            price_type: None,
            auction: None,
            secdir: None,
            trading_status: None,
            reason: None,
            halt_status: None,
            short_sale_status: None,
            short_sale_detail: None,
            retail_indicator: None,
            security_event: None,
            system_event: None,
        }
    }
}

/// The columns of the table.
#[derive(Clone, Copy, Debug, PartialEq, Eq, Structural)]
pub enum Column {
    MsgType,
    Timestamp,
    Symbol,
    Flags,
    Side,
    Price,
    Size,
    TradeId,
    IsTradeBreak,
    PriceType,
    AuctionType,
    PairedShares,
    ReferencePrice,
    IndicativeClearingPrice,
    ImbalanceShares,
    ImbalanceSide,
    ExtensionNumber,
    ScheduledAuctionTime,
    AuctionBookClearingPrice,
    CollarReferencePrice,
    LowerAuctionCollar,
    UpperAuctionCollar,
    RoundLotSize,
    AdjPocPrice,
    LuldTier,
    TradingStatus,
    Reason,
    HaltStatus,
    ShortSaleStatus,
    ShortSaleDetail,
    RetailIndicator,
    SecurityEvent,
    SystemEvent,
}

/// The columns in the order in which they stand in the table.
pub open spec fn all_columns() -> Seq<Column> {
    seq![
        Column::MsgType,
        Column::Timestamp,
        Column::Symbol,
        Column::Flags,
        Column::Side,
        Column::Price,
        Column::Size,
        Column::TradeId,
        Column::IsTradeBreak,
        Column::PriceType,
        Column::AuctionType,
        Column::PairedShares,
        Column::ReferencePrice,
        Column::IndicativeClearingPrice,
        Column::ImbalanceShares,
        Column::ImbalanceSide,
        Column::ExtensionNumber,
        Column::ScheduledAuctionTime,
        Column::AuctionBookClearingPrice,
        Column::CollarReferencePrice,
        Column::LowerAuctionCollar,
        Column::UpperAuctionCollar,
        Column::RoundLotSize,
        Column::AdjPocPrice,
        Column::LuldTier,
        Column::TradingStatus,
        Column::Reason,
        Column::HaltStatus,
        Column::ShortSaleStatus,
        Column::ShortSaleDetail,
        Column::RetailIndicator,
        Column::SecurityEvent,
        Column::SystemEvent,
    ]
}

/// What a row holds in one column.
pub enum Item {
    Text(Option<Seq<char>>),
    Int64(Option<i64>),
    UInt8(Option<u8>),
    UInt32(Option<u32>),
    Boolean(Option<bool>),
    Price(Option<i64>),
}

impl RowView {
    /// What the row holds in column `c`.
    pub open spec fn item(self, c: Column) -> Item {
        match c {
            Column::MsgType => Item::Text(Some(self.msg_type)),
            Column::Timestamp => Item::Int64(Some(self.timestamp)),
            Column::Symbol => Item::Text(Some(self.symbol)),
            Column::Flags => Item::UInt8(self.flags),
            Column::Side => Item::Text(self.side),
            Column::Price => Item::Price(self.price),
            Column::Size => Item::UInt32(self.size),
            Column::TradeId => Item::Int64(self.trade_id),
            Column::IsTradeBreak => Item::Boolean(self.is_trade_break),
            Column::PriceType => Item::Text(self.price_type),
            Column::AuctionType => Item::Text(self.auction_type),
            Column::PairedShares => Item::UInt32(self.paired_shares),
            Column::ReferencePrice => Item::Price(self.reference_price),
            Column::IndicativeClearingPrice => Item::Price(self.indicative_clearing_price),
            Column::ImbalanceShares => Item::UInt32(self.imbalance_shares),
            Column::ImbalanceSide => Item::Text(self.imbalance_side),
            Column::ExtensionNumber => Item::UInt8(self.extension_number),
            Column::ScheduledAuctionTime => Item::UInt32(self.scheduled_auction_time),
            Column::AuctionBookClearingPrice => Item::Price(self.auction_book_clearing_price),
            Column::CollarReferencePrice => Item::Price(self.collar_reference_price),
            Column::LowerAuctionCollar => Item::Price(self.lower_auction_collar),
            Column::UpperAuctionCollar => Item::Price(self.upper_auction_collar),
            Column::RoundLotSize => Item::UInt32(self.round_lot_size),
            Column::AdjPocPrice => Item::Price(self.adj_poc_price),
            Column::LuldTier => Item::UInt8(self.luld_tier),
            Column::TradingStatus => Item::Text(self.trading_status),
            Column::Reason => Item::Text(self.reason),
            Column::HaltStatus => Item::Text(self.halt_status),
            Column::ShortSaleStatus => Item::UInt8(self.short_sale_status),
            Column::ShortSaleDetail => Item::Text(self.short_sale_detail),
            Column::RetailIndicator => Item::Text(self.retail_indicator),
            Column::SecurityEvent => Item::Text(self.security_event),
            Column::SystemEvent => Item::Text(self.system_event),
        }
    }
}

/// The texts of column `c`, one per row.
pub open spec fn texts(rows: Seq<RowView>, c: Column) -> Seq<Option<Seq<char>>> {
    rows.map_values(|r: RowView| r.text(c))
}

/// The signed integers of column `c`, one per row.
pub open spec fn int64s(rows: Seq<RowView>, c: Column) -> Seq<Option<i64>> {
    rows.map_values(|r: RowView| r.int64(c))
}

/// The bytes of column `c`, one per row.
pub open spec fn uint8s(rows: Seq<RowView>, c: Column) -> Seq<Option<u8>> {
    rows.map_values(|r: RowView| r.uint8(c))
}

/// The unsigned integers of column `c`, one per row.
pub open spec fn uint32s(rows: Seq<RowView>, c: Column) -> Seq<Option<u32>> {
    rows.map_values(|r: RowView| r.uint32(c))
}

/// The truth values of column `c`, one per row.
pub open spec fn booleans(rows: Seq<RowView>, c: Column) -> Seq<Option<bool>> {
    rows.map_values(|r: RowView| r.boolean(c))
}

/// The prices of column `c`, one per row.
pub open spec fn prices(rows: Seq<RowView>, c: Column) -> Seq<Option<i64>> {
    rows.map_values(|r: RowView| r.price_item(c))
}

impl RowView {
    /// The text in column `c`.
    pub open spec fn text(self, c: Column) -> Option<Seq<char>> {
        match self.item(c) {
            Item::Text(v) => v,
            _ => None,
        }
    }

    /// The signed integer in column `c`.
    pub open spec fn int64(self, c: Column) -> Option<i64> {
        match self.item(c) {
            Item::Int64(v) => v,
            _ => None,
        }
    }

    /// The byte in column `c`.
    pub open spec fn uint8(self, c: Column) -> Option<u8> {
        match self.item(c) {
            Item::UInt8(v) => v,
            _ => None,
        }
    }

    /// The unsigned integer in column `c`.
    pub open spec fn uint32(self, c: Column) -> Option<u32> {
        match self.item(c) {
            Item::UInt32(v) => v,
            _ => None,
        }
    }

    /// The truth value in column `c`.
    pub open spec fn boolean(self, c: Column) -> Option<bool> {
        match self.item(c) {
            Item::Boolean(v) => v,
            _ => None,
        }
    }

    /// The price in column `c`.
    pub open spec fn price_item(self, c: Column) -> Option<i64> {
        match self.item(c) {
            Item::Price(v) => v,
            _ => None,
        }
    }
}

/// Whether the texts of every column fit into a text column.
pub open spec fn fits(rows: Seq<RowView>) -> bool {
    forall|c: Column| #[trigger]
        columns::text_bytes(texts(rows, c)) <= columns::TEXT_LIMIT
}

/// The bytes of a text column grow by those of the text that is added.
pub broadcast proof fn lemma_text_bytes_push(items: Seq<Option<Seq<char>>>, v: Option<Seq<char>>)
    ensures
        #[trigger] columns::text_bytes(items.push(v)) == columns::text_bytes(items)
            + columns::item_bytes(v),
{
    assert(items.push(v).drop_last() =~= items);
}

/// A row adds one text to each text column.
pub broadcast proof fn lemma_texts_push(rows: Seq<RowView>, r: RowView, c: Column)
    ensures
        #[trigger] texts(rows.push(r), c) == texts(rows, c).push(r.text(c)),
{
    assert(texts(rows.push(r), c) =~= texts(rows, c).push(r.text(c)));
}

pub broadcast proof fn lemma_int64s_push(rows: Seq<RowView>, r: RowView, c: Column)
    ensures
        #[trigger] int64s(rows.push(r), c) == int64s(rows, c).push(r.int64(c)),
{
    assert(int64s(rows.push(r), c) =~= int64s(rows, c).push(r.int64(c)));
}

pub broadcast proof fn lemma_uint8s_push(rows: Seq<RowView>, r: RowView, c: Column)
    ensures
        #[trigger] uint8s(rows.push(r), c) == uint8s(rows, c).push(r.uint8(c)),
{
    assert(uint8s(rows.push(r), c) =~= uint8s(rows, c).push(r.uint8(c)));
}

pub broadcast proof fn lemma_uint32s_push(rows: Seq<RowView>, r: RowView, c: Column)
    ensures
        #[trigger] uint32s(rows.push(r), c) == uint32s(rows, c).push(r.uint32(c)),
{
    assert(uint32s(rows.push(r), c) =~= uint32s(rows, c).push(r.uint32(c)));
}

pub broadcast proof fn lemma_booleans_push(rows: Seq<RowView>, r: RowView, c: Column)
    ensures
        #[trigger] booleans(rows.push(r), c) == booleans(rows, c).push(r.boolean(c)),
{
    assert(booleans(rows.push(r), c) =~= booleans(rows, c).push(r.boolean(c)));
}

pub broadcast proof fn lemma_prices_push(rows: Seq<RowView>, r: RowView, c: Column)
    ensures
        #[trigger] prices(rows.push(r), c) == prices(rows, c).push(r.price_item(c)),
{
    assert(prices(rows.push(r), c) =~= prices(rows, c).push(r.price_item(c)));
}

pub broadcast group group_column_push {
    lemma_text_bytes_push,
    lemma_texts_push,
    lemma_int64s_push,
    lemma_uint8s_push,
    lemma_uint32s_push,
    lemma_booleans_push,
    lemma_prices_push,
}

/// One more row fits where every text column has room for its text.
pub proof fn lemma_fits_push(rows: Seq<RowView>, r: RowView)
    ensures
        fits(rows.push(r)) <==> forall|c: Column|
            columns::text_bytes(#[trigger] texts(rows, c)) + columns::item_bytes(r.text(c))
                <= columns::TEXT_LIMIT,
{
    broadcast use group_column_push;

    if fits(rows.push(r)) {
        assert forall|c: Column|
            columns::text_bytes(#[trigger] texts(rows, c)) + columns::item_bytes(r.text(c))
                <= columns::TEXT_LIMIT by {
            assert(columns::text_bytes(texts(rows.push(r), c)) <= columns::TEXT_LIMIT);
        }
    }
}

/// Where rows fit, so do the first of them.
pub proof fn lemma_fits_prefix(rows: Seq<RowView>, n: int)
    requires
        fits(rows),
        0 <= n <= rows.len(),
    ensures
        fits(rows.take(n)),
    decreases rows.len() - n,
{
    if n == rows.len() {
        assert(rows.take(n) =~= rows);
    } else {
        lemma_fits_prefix(rows, n + 1);
        assert(rows.take(n + 1) =~= rows.take(n).push(rows[n]));
        assert forall|c: Column| #[trigger]
            columns::text_bytes(texts(rows.take(n), c)) <= columns::TEXT_LIMIT by {
            assert(columns::text_bytes(texts(rows.take(n + 1), c)) <= columns::TEXT_LIMIT);
            lemma_texts_push(rows.take(n), rows[n], c);
            lemma_text_bytes_push(texts(rows.take(n), c), rows[n].text(c));
        }
    }
}

/// Whether every row says of what type its message was.
pub open spec fn named(rows: Seq<RowView>) -> bool {
    forall|i: int| 0 <= i < rows.len() ==> (#[trigger] rows[i]).msg_type.len() > 0
}

/// A text that is not empty takes at least one byte.
pub proof fn lemma_text_takes_bytes(s: Seq<char>)
    requires
        s.len() > 0,
    ensures
        vstd::utf8::encode_utf8(s).len() > 0,
{
}

/// As each row takes at least one byte of the first column, the limit on texts
/// is one on rows too.
pub proof fn lemma_fits_bounds_rows(rows: Seq<RowView>)
    requires
        named(rows),
    ensures
        rows.len() <= columns::text_bytes(texts(rows, Column::MsgType)),
    decreases rows.len(),
{
    if rows.len() > 0 {
        let front = rows.drop_last();
        let last = rows.last();
        assert(rows =~= front.push(last));
        lemma_fits_bounds_rows(front);
        lemma_texts_push(front, last, Column::MsgType);
        lemma_text_bytes_push(texts(front, Column::MsgType), last.text(Column::MsgType));
        lemma_text_takes_bytes(last.msg_type);
    }
}

/// The most characters that a text of a row has.
pub const LONGEST_TEXT: usize = 24;

/// Whether no text of the rows is longer than the longest.
pub open spec fn short(rows: Seq<RowView>) -> bool {
    forall|i: int, c: Column|
        0 <= i < rows.len() ==> ((#[trigger] rows[i].text(c)) matches Some(t) ==> t.len()
            <= LONGEST_TEXT)
}

/// Rows whose texts are short take few bytes.
proof fn lemma_short_bytes(rows: Seq<RowView>, c: Column)
    requires
        short(rows),
    ensures
        columns::text_bytes(texts(rows, c)) <= 4 * LONGEST_TEXT * rows.len(),
    decreases rows.len(),
{
    if rows.len() > 0 {
        let front = rows.drop_last();
        let last = rows.last();
        assert(rows =~= front.push(last));
        assert(short(front)) by {
            assert forall|i: int, c: Column| 0 <= i < front.len() implies ((
            #[trigger] front[i].text(c)) matches Some(t) ==> t.len() <= LONGEST_TEXT) by {
                assert(front[i] == rows[i]);
                assert(rows[i].text(c) == front[i].text(c));
            }
        }
        lemma_short_bytes(front, c);
        lemma_texts_push(front, last, c);
        lemma_text_bytes_push(texts(front, c), last.text(c));
        assert(rows[rows.len() - 1].text(c) == last.text(c));
        if let Some(t) = last.text(c) {
            wire::lemma_encoded_length(t);
        }
    } else {
        assert(texts(rows, c) =~= Seq::empty());
    }
}

/// As many rows as a table has ever fit, many times over, where their texts are
/// short.
pub proof fn lemma_short_rows_fit(rows: Seq<RowView>)
    requires
        short(rows),
        4 * LONGEST_TEXT * rows.len() <= columns::TEXT_LIMIT,
    ensures
        fits(rows),
{
    assert forall|c: Column| #[trigger]
        columns::text_bytes(texts(rows, c)) <= columns::TEXT_LIMIT by {
        lemma_short_bytes(rows, c);
    }
}

/// The texts of a column, one behind the other; a null adds nothing.
pub open spec fn joined(items: Seq<Option<Seq<char>>>) -> Seq<char>
    decreases items.len(),
{
    if items.len() == 0 {
        Seq::empty()
    } else {
        joined(items.drop_last()) + match items.last() {
            Some(t) => t,
            None => Seq::empty(),
        }
    }
}

/// Rows fit exactly where the texts of each column, put one behind the other, take
/// no more bytes than a signed 32-bit number can count.
pub proof fn law_rows_that_fit(rows: Seq<RowView>)
    ensures
        fits(rows) <==> forall|c: Column|
            vstd::utf8::encode_utf8(joined(#[trigger] texts(rows, c))).len() <= i32::MAX,
{
    assert forall|c: Column| columns::text_bytes(#[trigger] texts(rows, c))
        == vstd::utf8::encode_utf8(joined(texts(rows, c))).len() by {
        lemma_joined_bytes(texts(rows, c));
    }
    if fits(rows) {
        assert forall|c: Column|
            vstd::utf8::encode_utf8(joined(#[trigger] texts(rows, c))).len() <= i32::MAX by {
            assert(columns::text_bytes(texts(rows, c)) <= columns::TEXT_LIMIT);
        }
    }
}

proof fn lemma_joined_bytes(items: Seq<Option<Seq<char>>>)
    ensures
        columns::text_bytes(items) == vstd::utf8::encode_utf8(joined(items)).len(),
    decreases items.len(),
{
    if items.len() > 0 {
        let front = items.drop_last();
        lemma_joined_bytes(front);
        match items.last() {
            Some(t) => wire::lemma_encoded_joined(joined(front), t),
            None => wire::lemma_encoded_joined(joined(front), Seq::empty()),
        }
    }
}

} // verus!
