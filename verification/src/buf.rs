//! The buffer in which rows are gathered, column by column, until they are
//! written as one table.
use arrow::array::BooleanBuilder;
use arrow::datatypes::Schema;
use std::sync::Arc;
use vstd::prelude::*;

use crate::columns;
use crate::columns::{
    ArrayColumn, Batch, Cell, ColumnType, Int64Column, TextColumn, UInt32Column, UInt8Column,
};
use crate::row;
use crate::row::{Auction, Column, Item, Row, RowView, SecurityDir};
use crate::schema;

verus! {

/// The number of rows from which on a table is written.
pub const CHUNK_SIZE: usize = 500_000;

/// The columns that only auction information fills.
pub struct AuctionColumns {
    auction_type: TextColumn,
    paired_shares: UInt32Column,
    reference_price: Int64Column,
    indicative_clearing_price: Int64Column,
    imbalance_shares: UInt32Column,
    imbalance_side: TextColumn,
    extension_number: UInt8Column,
    scheduled_auction_time: UInt32Column,
    auction_book_clearing_price: Int64Column,
    collar_reference_price: Int64Column,
    lower_auction_collar: Int64Column,
    upper_auction_collar: Int64Column,
}

/// The columns that only the security directory fills.
pub struct SecurityDirColumns {
    round_lot_size: UInt32Column,
    adj_poc_price: Int64Column,
    luld_tier: UInt8Column,
}

/// The rows gathered so far, one builder per column.
pub struct Buf {
    msg_type: TextColumn,
    timestamp: Int64Column,
    symbol: TextColumn,
    flags: UInt8Column,
    side: TextColumn,
    price: Int64Column,
    size: UInt32Column,
    trade_id: Int64Column,
    is_trade_break: BooleanBuilder,
    price_type: TextColumn,
    auction: AuctionColumns,
    secdir: SecurityDirColumns,
    trading_status: TextColumn,
    reason: TextColumn,
    halt_status: TextColumn,
    short_sale_status: UInt8Column,
    short_sale_detail: TextColumn,
    retail_indicator: TextColumn,
    security_event: TextColumn,
    system_event: TextColumn,
    len: usize,
    rows: Ghost<Seq<RowView>>,
}

/// Whether a builder holds what `rows` have in column `c`.
closed spec fn text_holds(b: &TextColumn, rows: Seq<RowView>, c: Column) -> bool {
    columns::text_items(b) == row::texts(rows, c)
}

/// Whether a builder holds what `rows` have in column `c`.
closed spec fn int64_holds(b: &Int64Column, rows: Seq<RowView>, c: Column) -> bool {
    columns::int64_items(b) == row::int64s(rows, c)
}

/// Whether a builder holds what `rows` have in column `c`.
closed spec fn uint8_holds(b: &UInt8Column, rows: Seq<RowView>, c: Column) -> bool {
    columns::uint8_items(b) == row::uint8s(rows, c)
}

/// Whether a builder holds what `rows` have in column `c`.
closed spec fn uint32_holds(b: &UInt32Column, rows: Seq<RowView>, c: Column) -> bool {
    columns::uint32_items(b) == row::uint32s(rows, c)
}

/// Whether a builder holds what `rows` have in column `c`.
closed spec fn boolean_holds(b: &BooleanBuilder, rows: Seq<RowView>, c: Column) -> bool {
    columns::boolean_items(b) == row::booleans(rows, c)
}

/// Whether a builder holds what `rows` have in column `c`.
closed spec fn price_holds(b: &Int64Column, rows: Seq<RowView>, c: Column) -> bool {
    columns::int64_items(b) == row::prices(rows, c)
}

/// Adds a text, or a null where there is none.
fn append_text(c: &mut TextColumn, v: Option<&str>)
    requires
        columns::text_items(old(c)).len() < columns::ITEM_LIMIT,
        columns::text_bytes(columns::text_items(old(c))) + columns::item_bytes(row::chars(v))
            <= columns::TEXT_LIMIT,
    ensures
        columns::text_items(final(c)) == columns::text_items(old(c)).push(row::chars(v)),
{
    match v {
        Some(s) => c.append_value(s),
        None => c.append_null(),
    }
}

/// Adds a value, or a null where there is none.
fn append_int64(c: &mut Int64Column, v: Option<i64>)
    requires
        columns::int64_items(old(c)).len() < columns::ITEM_LIMIT,
    ensures
        columns::int64_items(final(c)) == columns::int64_items(old(c)).push(v),
{
    match v {
        Some(x) => c.append_value(x),
        None => c.append_null(),
    }
}

/// Adds a value, or a null where there is none.
fn append_uint8(c: &mut UInt8Column, v: Option<u8>)
    requires
        columns::uint8_items(old(c)).len() < columns::ITEM_LIMIT,
    ensures
        columns::uint8_items(final(c)) == columns::uint8_items(old(c)).push(v),
{
    match v {
        Some(x) => c.append_value(x),
        None => c.append_null(),
    }
}

/// Adds a value, or a null where there is none.
fn append_uint32(c: &mut UInt32Column, v: Option<u32>)
    requires
        columns::uint32_items(old(c)).len() < columns::ITEM_LIMIT,
    ensures
        columns::uint32_items(final(c)) == columns::uint32_items(old(c)).push(v),
{
    match v {
        Some(x) => c.append_value(x),
        None => c.append_null(),
    }
}

/// Adds a value, or a null where there is none.
fn append_boolean(c: &mut BooleanBuilder, v: Option<bool>)
    requires
        columns::boolean_items(old(c)).len() < columns::ITEM_LIMIT,
    ensures
        columns::boolean_items(final(c)) == columns::boolean_items(old(c)).push(v),
{
    match v {
        Some(x) => columns::boolean_append_value(c, x),
        None => columns::boolean_append_null(c),
    }
}

/// Whether a text column has room for one more text.
fn room(c: &TextColumn, v: Option<&str>) -> (r: bool)
    ensures
        r <==> columns::text_bytes(columns::text_items(c)) + columns::item_bytes(row::chars(v))
            <= columns::TEXT_LIMIT,
{
    let used: usize = c.bytes();
    let needed: usize = match v {
        Some(s) => s.as_bytes().len(),
        None => 0,
    };
    used <= columns::TEXT_LIMIT && needed <= columns::TEXT_LIMIT - used
}

impl AuctionColumns {
    /// Whether the columns hold what `rows` have in them.
    closed spec fn holds(self, rows: Seq<RowView>) -> bool {
        &&& text_holds(&self.auction_type, rows, Column::AuctionType)
        &&& uint32_holds(&self.paired_shares, rows, Column::PairedShares)
        &&& price_holds(&self.reference_price, rows, Column::ReferencePrice)
        &&& price_holds(&self.indicative_clearing_price, rows, Column::IndicativeClearingPrice)
        &&& uint32_holds(&self.imbalance_shares, rows, Column::ImbalanceShares)
        &&& text_holds(&self.imbalance_side, rows, Column::ImbalanceSide)
        &&& uint8_holds(&self.extension_number, rows, Column::ExtensionNumber)
        &&& uint32_holds(&self.scheduled_auction_time, rows, Column::ScheduledAuctionTime)
        &&& price_holds(&self.auction_book_clearing_price, rows, Column::AuctionBookClearingPrice)
        &&& price_holds(&self.collar_reference_price, rows, Column::CollarReferencePrice)
        &&& price_holds(&self.lower_auction_collar, rows, Column::LowerAuctionCollar)
        &&& price_holds(&self.upper_auction_collar, rows, Column::UpperAuctionCollar)
    }

    fn new(c: usize) -> (r: Self)
        requires
            c == CHUNK_SIZE,
        ensures
            r.holds(Seq::empty()),
    {
        let r = AuctionColumns {
            auction_type: TextColumn::with_capacity(c, c * 10),
            paired_shares: UInt32Column::with_capacity(c),
            reference_price: Int64Column::with_capacity(c),
            indicative_clearing_price: Int64Column::with_capacity(c),
            imbalance_shares: UInt32Column::with_capacity(c),
            imbalance_side: TextColumn::with_capacity(c, c),
            extension_number: UInt8Column::with_capacity(c),
            scheduled_auction_time: UInt32Column::with_capacity(c),
            auction_book_clearing_price: Int64Column::with_capacity(c),
            collar_reference_price: Int64Column::with_capacity(c),
            lower_auction_collar: Int64Column::with_capacity(c),
            upper_auction_collar: Int64Column::with_capacity(c),
        };
        proof {
            lemma_no_rows();
        }
        r
    }

    /// Adds the fields of one row.
    fn push(&mut self, a: &Auction, Ghost(rows): Ghost<Seq<RowView>>, Ghost(r): Ghost<RowView>)
        requires
            old(self).holds(rows),
            rows.len() < columns::ITEM_LIMIT,
            row::fits(rows.push(r)),
            has_auction(r, a),
        ensures
            final(self).holds(rows.push(r)),
    {
        broadcast use row::group_column_push;

        proof {
            row::lemma_fits_push(rows, r);
        }
        append_text(&mut self.auction_type, Some(a.auction_type));
        append_uint32(&mut self.paired_shares, Some(a.paired_shares));
        append_int64(&mut self.reference_price, Some(a.reference_price));
        append_int64(&mut self.indicative_clearing_price, Some(a.indicative_clearing_price));
        append_uint32(&mut self.imbalance_shares, Some(a.imbalance_shares));
        append_text(&mut self.imbalance_side, Some(a.imbalance_side));
        append_uint8(&mut self.extension_number, Some(a.extension_number));
        append_uint32(&mut self.scheduled_auction_time, Some(a.scheduled_auction_time));
        append_int64(&mut self.auction_book_clearing_price, Some(a.auction_book_clearing_price));
        append_int64(&mut self.collar_reference_price, Some(a.collar_reference_price));
        append_int64(&mut self.lower_auction_collar, Some(a.lower_auction_collar));
        append_int64(&mut self.upper_auction_collar, Some(a.upper_auction_collar));
    }

    /// Adds nulls for a row without auction information.
    fn push_null_auction(&mut self, Ghost(rows): Ghost<Seq<RowView>>, Ghost(r): Ghost<RowView>)
        requires
            old(self).holds(rows),
            rows.len() < columns::ITEM_LIMIT,
            row::fits(rows.push(r)),
            no_auction(r),
        ensures
            final(self).holds(rows.push(r)),
    {
        broadcast use row::group_column_push;

        proof {
            row::lemma_fits_push(rows, r);
        }
        self.auction_type.append_null();
        self.paired_shares.append_null();
        self.reference_price.append_null();
        self.indicative_clearing_price.append_null();
        self.imbalance_shares.append_null();
        self.imbalance_side.append_null();
        self.extension_number.append_null();
        self.scheduled_auction_time.append_null();
        self.auction_book_clearing_price.append_null();
        self.collar_reference_price.append_null();
        self.lower_auction_collar.append_null();
        self.upper_auction_collar.append_null();
    }
}

/// Whether `r` has the auction fields `a`.
closed spec fn has_auction(r: RowView, a: &Auction) -> bool {
    &&& r.auction_type == Some(a.auction_type@)
    &&& r.paired_shares == Some(a.paired_shares)
    &&& r.reference_price == Some(a.reference_price)
    &&& r.indicative_clearing_price == Some(a.indicative_clearing_price)
    &&& r.imbalance_shares == Some(a.imbalance_shares)
    &&& r.imbalance_side == Some(a.imbalance_side@)
    &&& r.extension_number == Some(a.extension_number)
    &&& r.scheduled_auction_time == Some(a.scheduled_auction_time)
    &&& r.auction_book_clearing_price == Some(a.auction_book_clearing_price)
    &&& r.collar_reference_price == Some(a.collar_reference_price)
    &&& r.lower_auction_collar == Some(a.lower_auction_collar)
    &&& r.upper_auction_collar == Some(a.upper_auction_collar)
}

/// Whether `r` has no auction field.
closed spec fn no_auction(r: RowView) -> bool {
    &&& r.auction_type is None
    &&& r.paired_shares is None
    &&& r.reference_price is None
    &&& r.indicative_clearing_price is None
    &&& r.imbalance_shares is None
    &&& r.imbalance_side is None
    &&& r.extension_number is None
    &&& r.scheduled_auction_time is None
    &&& r.auction_book_clearing_price is None
    &&& r.collar_reference_price is None
    &&& r.lower_auction_collar is None
    &&& r.upper_auction_collar is None
}

impl SecurityDirColumns {
    /// Whether the columns hold what `rows` have in them.
    closed spec fn holds(self, rows: Seq<RowView>) -> bool {
        &&& uint32_holds(&self.round_lot_size, rows, Column::RoundLotSize)
        &&& price_holds(&self.adj_poc_price, rows, Column::AdjPocPrice)
        &&& uint8_holds(&self.luld_tier, rows, Column::LuldTier)
    }

    fn new(c: usize) -> (r: Self)
        requires
            c == CHUNK_SIZE,
        ensures
            r.holds(Seq::empty()),
    {
        let r = SecurityDirColumns {
            round_lot_size: UInt32Column::with_capacity(c),
            adj_poc_price: Int64Column::with_capacity(c),
            luld_tier: UInt8Column::with_capacity(c),
        };
        proof {
            lemma_no_rows();
        }
        r
    }

    /// Adds the fields of one row.
    fn push(&mut self, d: &SecurityDir, Ghost(rows): Ghost<Seq<RowView>>, Ghost(r): Ghost<RowView>)
        requires
            old(self).holds(rows),
            rows.len() < columns::ITEM_LIMIT,
            r.round_lot_size == Some(d.round_lot_size),
            r.adj_poc_price == Some(d.adj_poc_price),
            r.luld_tier == Some(d.luld_tier),
        ensures
            final(self).holds(rows.push(r)),
    {
        broadcast use row::group_column_push;

        self.round_lot_size.append_value(d.round_lot_size);
        self.adj_poc_price.append_value(d.adj_poc_price);
        self.luld_tier.append_value(d.luld_tier);
    }

    /// Adds nulls for a row that is not of the security directory.
    fn push_null_secdir(&mut self, Ghost(rows): Ghost<Seq<RowView>>, Ghost(r): Ghost<RowView>)
        requires
            old(self).holds(rows),
            rows.len() < columns::ITEM_LIMIT,
            r.round_lot_size is None,
            r.adj_poc_price is None,
            r.luld_tier is None,
        ensures
            final(self).holds(rows.push(r)),
    {
        broadcast use row::group_column_push;

        self.round_lot_size.append_null();
        self.adj_poc_price.append_null();
        self.luld_tier.append_null();
    }
}

/// Without rows no column holds anything.
proof fn lemma_no_rows()
    ensures
        forall|c: Column|
            #![all_triggers]
            {
                &&& row::texts(Seq::empty(), c) == Seq::<Option<Seq<char>>>::empty()
                &&& row::int64s(Seq::empty(), c) == Seq::<Option<i64>>::empty()
                &&& row::uint8s(Seq::empty(), c) == Seq::<Option<u8>>::empty()
                &&& row::uint32s(Seq::empty(), c) == Seq::<Option<u32>>::empty()
                &&& row::booleans(Seq::empty(), c) == Seq::<Option<bool>>::empty()
                &&& row::prices(Seq::empty(), c) == Seq::<Option<i64>>::empty()
            },
        row::fits(Seq::empty()),
{
    assert forall|c: Column|
        #![all_triggers]
        {
            &&& row::texts(Seq::empty(), c) == Seq::<Option<Seq<char>>>::empty()
            &&& row::int64s(Seq::empty(), c) == Seq::<Option<i64>>::empty()
            &&& row::uint8s(Seq::empty(), c) == Seq::<Option<u8>>::empty()
            &&& row::uint32s(Seq::empty(), c) == Seq::<Option<u32>>::empty()
            &&& row::booleans(Seq::empty(), c) == Seq::<Option<bool>>::empty()
            &&& row::prices(Seq::empty(), c) == Seq::<Option<i64>>::empty()
        } by {
        assert(row::texts(Seq::empty(), c) =~= Seq::<Option<Seq<char>>>::empty());
        assert(row::int64s(Seq::empty(), c) =~= Seq::<Option<i64>>::empty());
        assert(row::uint8s(Seq::empty(), c) =~= Seq::<Option<u8>>::empty());
        assert(row::uint32s(Seq::empty(), c) =~= Seq::<Option<u32>>::empty());
        assert(row::booleans(Seq::empty(), c) =~= Seq::<Option<bool>>::empty());
        assert(row::prices(Seq::empty(), c) =~= Seq::<Option<i64>>::empty());
    }
}

/// Whether `cell` is what a table holds for `item`. Prices are converted: the
/// cell holds the bits that `price_bits` gives for the price.
pub open spec fn written<F: Fn(i64) -> u64>(price_bits: F, item: Item, cell: Cell) -> bool {
    match item {
        Item::Text(v) => cell == columns::text_cell(v),
        Item::Int64(v) => cell == columns::int64_cell(v),
        Item::UInt8(v) => cell == columns::uint8_cell(v),
        Item::UInt32(v) => cell == columns::uint32_cell(v),
        Item::Boolean(v) => cell == columns::boolean_cell(v),
        Item::Price(None) => cell == Cell::Null,
        Item::Price(Some(v)) => cell matches Cell::Float64(bits) && call_ensures(
            price_bits,
            (v,),
            bits,
        ),
    }
}

/// Whether `cells` are what a table holds for `rows` in column `c`.
pub open spec fn column_written<F: Fn(i64) -> u64>(
    price_bits: F,
    rows: Seq<RowView>,
    c: Column,
    cells: Seq<Cell>,
) -> bool {
    &&& cells.len() == rows.len()
    &&& forall|i: int|
        0 <= i < rows.len() ==> written(price_bits, #[trigger] rows[i].item(c), cells[i])
}

/// A table gives back what it was written from: a null for what is missing, and
/// otherwise a cell of the same type with the same value, or, of a price, with bits
/// that `price_bits` gives for it.
pub proof fn law_cells_give_items_back<F: Fn(i64) -> u64>(
    price_bits: F,
    rows: Seq<RowView>,
    c: Column,
    cells: Seq<Cell>,
    i: int,
)
    requires
        column_written(price_bits, rows, c, cells),
        0 <= i < rows.len(),
    ensures
        cells.len() == rows.len(),
        ({
            let item = rows[i].item(c);
            match cells[i] {
                Cell::Null => match item {
                    Item::Text(v) => v is None,
                    Item::Int64(v) => v is None,
                    Item::UInt8(v) => v is None,
                    Item::UInt32(v) => v is None,
                    Item::Boolean(v) => v is None,
                    Item::Price(v) => v is None,
                },
                Cell::Utf8(x) => item == Item::Text(Some(x)),
                Cell::Int64(x) => item == Item::Int64(Some(x)),
                Cell::UInt8(x) => item == Item::UInt8(Some(x)),
                Cell::UInt32(x) => item == Item::UInt32(Some(x)),
                Cell::Boolean(x) => item == Item::Boolean(Some(x)),
                Cell::Float64(bits) => {
                    &&& item is Price
                    &&& item->Price_0 is Some
                    &&& call_ensures(price_bits, (item->Price_0->0,), bits)
                },
            }
        }),
        (cells[i] is Null) == schema::is_null(rows[i].item(c)),
{
    assert(written(price_bits, rows[i].item(c), cells[i]));
}

/// A table under construction: its first columns, finished.
struct Table<'a, F: Fn(i64) -> u64> {
    done: Vec<ArrayColumn>,
    price_bits: &'a F,
    rows: Ghost<Seq<RowView>>,
}

impl<'a, F: Fn(i64) -> u64> Table<'a, F> {
    /// Whether the finished columns hold what the rows have in them.
    closed spec fn wf(self) -> bool {
        &&& self.done@.len() <= row::all_columns().len()
        &&& forall|k: int|
            #![trigger self.done@[k]]
            0 <= k < self.done@.len() ==> {
                &&& columns::column_type(&self.done@[k]) == row::all_columns()[k].dtype()
                &&& column_written(
                    *self.price_bits,
                    self.rows@,
                    row::all_columns()[k],
                    columns::column_cells(&self.done@[k]),
                )
            }
    }

    /// Whether `c` is the column that comes next.
    closed spec fn is_next(self, c: Column) -> bool {
        let n = self.done@.len() as int;
        n < row::all_columns().len() && row::all_columns()[n] == c
    }

    /// Whether `next` is the table with one more column.
    closed spec fn grown(self, next: Self) -> bool {
        &&& next.wf()
        &&& next.done@.len() == self.done@.len() + 1
        &&& next.price_bits == self.price_bits
        &&& next.rows == self.rows
    }

    fn text(&mut self, column: Column, c: &mut TextColumn)
        requires
            old(self).wf(),
            old(self).is_next(column),
            column.dtype() == ColumnType::Utf8,
            text_holds(old(c), old(self).rows@, column),
        ensures
            old(self).grown(*final(self)),
            columns::text_items(final(c)) == Seq::<Option<Seq<char>>>::empty(),
    {
        let array = c.finish();
        proof {
            let rows = self.rows@;
            assert forall|i: int| 0 <= i < rows.len() implies written(
                *self.price_bits,
                #[trigger] rows[i].item(column),
                columns::column_cells(&array)[i],
            ) by {
                assert(row::texts(rows, column)[i] == rows[i].text(column));
            }
        }
        self.done.push(array);
    }

    fn int64(&mut self, column: Column, c: &mut Int64Column)
        requires
            old(self).wf(),
            old(self).is_next(column),
            column.dtype() == ColumnType::Int64,
            int64_holds(old(c), old(self).rows@, column),
        ensures
            old(self).grown(*final(self)),
            columns::int64_items(final(c)) == Seq::<Option<i64>>::empty(),
    {
        let array = c.finish();
        proof {
            let rows = self.rows@;
            assert forall|i: int| 0 <= i < rows.len() implies written(
                *self.price_bits,
                #[trigger] rows[i].item(column),
                columns::column_cells(&array)[i],
            ) by {
                assert(row::int64s(rows, column)[i] == rows[i].int64(column));
            }
        }
        self.done.push(array);
    }

    fn uint8(&mut self, column: Column, c: &mut UInt8Column)
        requires
            old(self).wf(),
            old(self).is_next(column),
            column.dtype() == ColumnType::UInt8,
            uint8_holds(old(c), old(self).rows@, column),
        ensures
            old(self).grown(*final(self)),
            columns::uint8_items(final(c)) == Seq::<Option<u8>>::empty(),
    {
        let array = c.finish();
        proof {
            let rows = self.rows@;
            assert forall|i: int| 0 <= i < rows.len() implies written(
                *self.price_bits,
                #[trigger] rows[i].item(column),
                columns::column_cells(&array)[i],
            ) by {
                assert(row::uint8s(rows, column)[i] == rows[i].uint8(column));
            }
        }
        self.done.push(array);
    }

    fn uint32(&mut self, column: Column, c: &mut UInt32Column)
        requires
            old(self).wf(),
            old(self).is_next(column),
            column.dtype() == ColumnType::UInt32,
            uint32_holds(old(c), old(self).rows@, column),
        ensures
            old(self).grown(*final(self)),
            columns::uint32_items(final(c)) == Seq::<Option<u32>>::empty(),
    {
        let array = c.finish();
        proof {
            let rows = self.rows@;
            assert forall|i: int| 0 <= i < rows.len() implies written(
                *self.price_bits,
                #[trigger] rows[i].item(column),
                columns::column_cells(&array)[i],
            ) by {
                assert(row::uint32s(rows, column)[i] == rows[i].uint32(column));
            }
        }
        self.done.push(array);
    }

    fn boolean(&mut self, column: Column, c: &mut BooleanBuilder)
        requires
            old(self).wf(),
            old(self).is_next(column),
            column.dtype() == ColumnType::Boolean,
            boolean_holds(old(c), old(self).rows@, column),
        ensures
            old(self).grown(*final(self)),
            columns::boolean_items(final(c)) == Seq::<Option<bool>>::empty(),
    {
        let array = columns::boolean_finish(c);
        proof {
            let rows = self.rows@;
            assert forall|i: int| 0 <= i < rows.len() implies written(
                *self.price_bits,
                #[trigger] rows[i].item(column),
                columns::column_cells(&array)[i],
            ) by {
                assert(row::booleans(rows, column)[i] == rows[i].boolean(column));
            }
        }
        self.done.push(array);
    }

    fn price(&mut self, column: Column, c: &mut Int64Column)
        requires
            old(self).wf(),
            old(self).is_next(column),
            column.dtype() == ColumnType::Float64,
            price_holds(old(c), old(self).rows@, column),
            old(self).rows@.len() <= columns::ITEM_LIMIT,
            forall|v: i64| call_requires(*old(self).price_bits, (v,)),
        ensures
            old(self).grown(*final(self)),
            columns::int64_items(final(c)) == Seq::<Option<i64>>::empty(),
    {
        let raw = c.take_items();
        let bits = price_column_bits(&raw, self.price_bits);
        let ghost given = bits@;
        let array = columns::float64_column(bits);
        proof {
            let rows = self.rows@;
            assert forall|i: int| 0 <= i < rows.len() implies written(
                *self.price_bits,
                #[trigger] rows[i].item(column),
                columns::column_cells(&array)[i],
            ) by {
                assert(row::prices(rows, column)[i] == rows[i].price_item(column));
                assert(columns::column_cells(&array)[i] == columns::float64_cell(given[i]));
            }
        }
        self.done.push(array);
    }
}

/// Whether `bits` are what `price_bits` gives for a price; without a price there
/// are none.
closed spec fn converted<F: Fn(i64) -> u64>(
    price_bits: F,
    raw: Option<i64>,
    bits: Option<u64>,
) -> bool {
    match raw {
        Some(v) => bits matches Some(b) && call_ensures(price_bits, (v,), b),
        None => bits is None,
    }
}

/// Converts the prices of a column.
fn price_column_bits<F: Fn(i64) -> u64>(raw: &Vec<Option<i64>>, price_bits: &F) -> (bits: Vec<
    Option<u64>,
>)
    requires
        forall|v: i64| call_requires(*price_bits, (v,)),
    ensures
        bits@.len() == raw@.len(),
        forall|j: int|
            #![trigger bits@[j]]
            0 <= j < raw@.len() ==> converted(*price_bits, raw@[j], bits@[j]),
{
    let mut bits: Vec<Option<u64>> = Vec::with_capacity(raw.len());
    let mut i: usize = 0;
    while i < raw.len()
        invariant
            i <= raw@.len(),
            bits@.len() == i,
            forall|v: i64| call_requires(*price_bits, (v,)),
            forall|j: int|
                #![trigger bits@[j]]
                0 <= j < i ==> converted(*price_bits, raw@[j], bits@[j]),
        decreases raw@.len() - i,
    {
        match raw[i] {
            Some(v) => bits.push(Some(price_bits(v))),
            None => bits.push(None),
        }
        i = i + 1;
    }
    bits
}

impl View for Buf {
    type V = Seq<RowView>;

    /// The rows gathered so far.
    closed spec fn view(&self) -> Seq<RowView> {
        self.rows@
    }
}

impl Buf {
    /// Whether the columns hold the rows: each builder has one item per row, and
    /// no text column is over its limit.
    pub closed spec fn wf(&self) -> bool {
        let rows = self.rows@;
        &&& self.len == rows.len()
        &&& row::fits(rows)
        &&& row::named(rows)
        &&& self.columns_hold(rows)
        &&& self.auction.holds(rows)
        &&& self.secdir.holds(rows)
    }

    closed spec fn columns_hold(&self, rows: Seq<RowView>) -> bool {
        &&& text_holds(&self.msg_type, rows, Column::MsgType)
        &&& int64_holds(&self.timestamp, rows, Column::Timestamp)
        &&& text_holds(&self.symbol, rows, Column::Symbol)
        &&& uint8_holds(&self.flags, rows, Column::Flags)
        &&& text_holds(&self.side, rows, Column::Side)
        &&& price_holds(&self.price, rows, Column::Price)
        &&& uint32_holds(&self.size, rows, Column::Size)
        &&& int64_holds(&self.trade_id, rows, Column::TradeId)
        &&& boolean_holds(&self.is_trade_break, rows, Column::IsTradeBreak)
        &&& text_holds(&self.price_type, rows, Column::PriceType)
        &&& text_holds(&self.trading_status, rows, Column::TradingStatus)
        &&& text_holds(&self.reason, rows, Column::Reason)
        &&& text_holds(&self.halt_status, rows, Column::HaltStatus)
        &&& uint8_holds(&self.short_sale_status, rows, Column::ShortSaleStatus)
        &&& text_holds(&self.short_sale_detail, rows, Column::ShortSaleDetail)
        &&& text_holds(&self.retail_indicator, rows, Column::RetailIndicator)
        &&& text_holds(&self.security_event, rows, Column::SecurityEvent)
        &&& text_holds(&self.system_event, rows, Column::SystemEvent)
    }

    /// An empty buffer with room for the rows of one table.
    pub fn new() -> (r: Self)
        ensures
            r.wf(),
            r@ == Seq::<RowView>::empty(),
    {
        let c: usize = CHUNK_SIZE;
        proof {
            lemma_no_rows();
        }
        Buf {
            msg_type: TextColumn::with_capacity(c, c * 20),
            timestamp: Int64Column::with_capacity(c),
            symbol: TextColumn::with_capacity(c, c * 6),
            flags: UInt8Column::with_capacity(c),
            side: TextColumn::with_capacity(c, c),
            price: Int64Column::with_capacity(c),
            size: UInt32Column::with_capacity(c),
            trade_id: Int64Column::with_capacity(c),
            is_trade_break: columns::boolean_with_capacity(c),
            price_type: TextColumn::with_capacity(c, c * 8),
            auction: AuctionColumns::new(c),
            secdir: SecurityDirColumns::new(c),
            trading_status: TextColumn::with_capacity(c, c * 8),
            reason: TextColumn::with_capacity(c, c * 4),
            halt_status: TextColumn::with_capacity(c, c * 10),
            short_sale_status: UInt8Column::with_capacity(c),
            short_sale_detail: TextColumn::with_capacity(c, c * 10),
            retail_indicator: TextColumn::with_capacity(c, c * 10),
            security_event: TextColumn::with_capacity(c, c * 20),
            system_event: TextColumn::with_capacity(c, c * 20),
            len: 0,
            rows: Ghost(Seq::empty()),
        }
    }

    /// The number of rows.
    pub fn len(&self) -> (r: usize)
        requires
            self.wf(),
        ensures
            r == self@.len(),
    {
        self.len
    }

    /// What holds of the rows of every buffer.
    pub proof fn lemma_rows(&self)
        requires
            self.wf(),
        ensures
            row::fits(self@),
            row::named(self@),
            self@.len() <= columns::ITEM_LIMIT,
    {
        row::lemma_fits_bounds_rows(self@);
        assert(columns::text_bytes(row::texts(self@, Column::MsgType)) <= columns::TEXT_LIMIT);
    }

    /// Whether one more row fits.
    pub fn row_fits(&self, r: &Row) -> (ok: bool)
        requires
            self.wf(),
        ensures
            ok == row::fits(self@.push(r@)),
    {
        let (auction_type, imbalance_side) = match &r.auction {
            Some(a) => (Some(a.auction_type), Some(a.imbalance_side)),
            None => (None, None),
        };
        let ok = room(&self.msg_type, Some(r.msg_type))
            && room(&self.symbol, Some(r.symbol))
            && room(&self.side, r.side)
            && room(&self.price_type, r.price_type)
            && room(&self.auction.auction_type, auction_type)
            && room(&self.auction.imbalance_side, imbalance_side)
            && room(&self.trading_status, r.trading_status)
            && room(&self.reason, r.reason)
            && room(&self.halt_status, r.halt_status)
            && room(&self.short_sale_detail, r.short_sale_detail)
            && room(&self.retail_indicator, r.retail_indicator)
            && room(&self.security_event, r.security_event)
            && room(&self.system_event, r.system_event);
        proof {
            row::lemma_fits_push(self@, r@);
        }
        ok
    }

    /// Adds one row, which must fit.
    pub fn push_row(&mut self, r: &Row)
        requires
            old(self).wf(),
            r@.msg_type.len() > 0,
            row::fits(old(self)@.push(r@)),
        ensures
            final(self).wf(),
            final(self)@ == old(self)@.push(r@),
    {
        broadcast use row::group_column_push;

        let ghost rows = self.rows@;
        let ghost view = r@;
        let ghost all = rows.push(view);
        proof {
            self.lemma_rows();
            row::lemma_fits_bounds_rows(all);
            assert(columns::text_bytes(row::texts(all, Column::MsgType)) <= columns::TEXT_LIMIT);
            row::lemma_fits_push(rows, view);
        }
        append_text(&mut self.msg_type, Some(r.msg_type));
        append_int64(&mut self.timestamp, Some(r.timestamp));
        append_text(&mut self.symbol, Some(r.symbol));
        append_uint8(&mut self.flags, r.flags);
        append_text(&mut self.side, r.side);
        append_int64(&mut self.price, r.price);
        append_uint32(&mut self.size, r.size);
        append_int64(&mut self.trade_id, r.trade_id);
        append_boolean(&mut self.is_trade_break, r.is_trade_break);
        append_text(&mut self.price_type, r.price_type);
        match &r.auction {
            Some(a) => self.auction.push(a, Ghost(rows), Ghost(view)),
            None => self.auction.push_null_auction(Ghost(rows), Ghost(view)),
        }
        match &r.secdir {
            Some(d) => self.secdir.push(d, Ghost(rows), Ghost(view)),
            None => self.secdir.push_null_secdir(Ghost(rows), Ghost(view)),
        }
        append_text(&mut self.trading_status, r.trading_status);
        append_text(&mut self.reason, r.reason);
        append_text(&mut self.halt_status, r.halt_status);
        append_uint8(&mut self.short_sale_status, r.short_sale_status);
        append_text(&mut self.short_sale_detail, r.short_sale_detail);
        append_text(&mut self.retail_indicator, r.retail_indicator);
        append_text(&mut self.security_event, r.security_event);
        append_text(&mut self.system_event, r.system_event);
        self.len = self.len + 1;
        self.rows = Ghost(all);
    }

    /// Writes the rows as a table under the schema `sc` and empties the buffer.
    /// `price_bits` gives the bits of the floating-point number that stands for
    /// a price in ten-thousandths.
    pub fn finish<F: Fn(i64) -> u64>(&mut self, sc: &Arc<Schema>, price_bits: F) -> (b: Batch)
        requires
            old(self).wf(),
            schema::schema_admits(columns::schema_fields(&**sc), old(self)@),
            forall|v: i64| call_requires(price_bits, (v,)),
        ensures
            final(self).wf(),
            final(self)@ == Seq::<RowView>::empty(),
            columns::batch_fields(&b) == columns::schema_fields(&**sc),
            columns::batch_columns(&b).len() == row::all_columns().len(),
            forall|k: int|
                0 <= k < row::all_columns().len() ==> column_written(
                    price_bits,
                    old(self)@,
                    row::all_columns()[k],
                    #[trigger] columns::batch_columns(&b)[k],
                ),
    {
        let rows: Ghost<Seq<RowView>> = Ghost(self.rows@);
        proof {
            self.lemma_rows();
            lemma_no_rows();
        }
        let done: Vec<ArrayColumn> = Vec::with_capacity(row::COLUMNS);
        let mut t = Table { done, price_bits: &price_bits, rows };
        t.text(Column::MsgType, &mut self.msg_type);
        t.int64(Column::Timestamp, &mut self.timestamp);
        t.text(Column::Symbol, &mut self.symbol);
        t.uint8(Column::Flags, &mut self.flags);
        t.text(Column::Side, &mut self.side);
        t.price(Column::Price, &mut self.price);
        t.uint32(Column::Size, &mut self.size);
        t.int64(Column::TradeId, &mut self.trade_id);
        t.boolean(Column::IsTradeBreak, &mut self.is_trade_break);
        t.text(Column::PriceType, &mut self.price_type);
        t.text(Column::AuctionType, &mut self.auction.auction_type);
        t.uint32(Column::PairedShares, &mut self.auction.paired_shares);
        t.price(Column::ReferencePrice, &mut self.auction.reference_price);
        t.price(Column::IndicativeClearingPrice, &mut self.auction.indicative_clearing_price);
        t.uint32(Column::ImbalanceShares, &mut self.auction.imbalance_shares);
        t.text(Column::ImbalanceSide, &mut self.auction.imbalance_side);
        t.uint8(Column::ExtensionNumber, &mut self.auction.extension_number);
        t.uint32(Column::ScheduledAuctionTime, &mut self.auction.scheduled_auction_time);
        t.price(Column::AuctionBookClearingPrice, &mut self.auction.auction_book_clearing_price);
        t.price(Column::CollarReferencePrice, &mut self.auction.collar_reference_price);
        t.price(Column::LowerAuctionCollar, &mut self.auction.lower_auction_collar);
        t.price(Column::UpperAuctionCollar, &mut self.auction.upper_auction_collar);
        t.uint32(Column::RoundLotSize, &mut self.secdir.round_lot_size);
        t.price(Column::AdjPocPrice, &mut self.secdir.adj_poc_price);
        t.uint8(Column::LuldTier, &mut self.secdir.luld_tier);
        t.text(Column::TradingStatus, &mut self.trading_status);
        t.text(Column::Reason, &mut self.reason);
        t.text(Column::HaltStatus, &mut self.halt_status);
        t.uint8(Column::ShortSaleStatus, &mut self.short_sale_status);
        t.text(Column::ShortSaleDetail, &mut self.short_sale_detail);
        t.text(Column::RetailIndicator, &mut self.retail_indicator);
        t.text(Column::SecurityEvent, &mut self.security_event);
        t.text(Column::SystemEvent, &mut self.system_event);
        self.len = 0;
        self.rows = Ghost(Seq::empty());
        proof {
            lemma_columns_fit(t, columns::schema_fields(&**sc));
        }
        columns::record_batch(sc, t.done).unwrap()
    }
}

/// The columns of a whole table fit a schema that admits its rows.
proof fn lemma_columns_fit<F: Fn(i64) -> u64>(t: Table<F>, fields: Seq<columns::FieldSpec>)
    requires
        t.wf(),
        t.done@.len() == row::all_columns().len(),
        schema::schema_admits(fields, t.rows@),
    ensures
        columns::columns_fit(fields, t.done@),
{
    let done = t.done@;
    assert forall|k: int|
        #![trigger done[k]]
        0 <= k < done.len() implies {
        &&& columns::column_cells(&done[k]).len() == columns::column_cells(&done[0]).len()
        &&& fields[k].dtype == Some(columns::column_type(&done[k]))
        &&& fields[k].nullable || !columns::column_cells(&done[k]).contains(Cell::Null)
    } by {
        let c = row::all_columns()[k];
        let cells = columns::column_cells(&done[k]);
        assert(done[0] == t.done@[0]);
        assert(fields[k].dtype == Some(c.dtype()));
        if !fields[k].nullable && cells.contains(Cell::Null) {
            let i = choose|i: int| 0 <= i < cells.len() && cells[i] == Cell::Null;
            assert(!schema::is_null(t.rows@[i].item(c)));
            assert(written(*t.price_bits, t.rows@[i].item(c), cells[i]));
        }
    }
}

} // verus!
