//! The columns of a table under construction, kept in arrow's builders.
//!
//! Everything here that is not proved is a single call into `arrow`. Each
//! contract speaks of the items that a builder or an array holds, in order,
//! with `None` or `Cell::Null` for a null.
use arrow::array::{
    ArrayRef, BooleanBuilder, Float64Array, Int64Builder, StringBuilder, UInt32Builder,
    UInt64Array, UInt8Builder,
};
use arrow::datatypes::{DataType, Field, Schema};
use arrow::error::ArrowError;
use arrow::record_batch::RecordBatch;
use std::sync::Arc;
use vstd::prelude::*;

verus! {

/// The largest number of bytes that one text column holds: arrow keeps the end
/// of each text as an `i32`.
pub const TEXT_LIMIT: usize = 0x7fff_ffff;

/// No builder is given more items than this: its buffers stay far below what an
/// allocation can be.
pub const ITEM_LIMIT: usize = 0x7fff_ffff;

/// The type of the items of a column.
#[derive(Clone, Copy, Debug, PartialEq, Eq, Structural)]
pub enum ColumnType {
    Utf8,
    Int64,
    UInt8,
    UInt32,
    Boolean,
    Float64,
}

/// One item of a finished column. A floating-point number is given by the bits
/// of its IEEE 754 double representation.
pub enum Cell {
    Null,
    Utf8(Seq<char>),
    Int64(i64),
    UInt8(u8),
    UInt32(u32),
    Boolean(bool),
    Float64(u64),
}

/// What a schema says of one column. The type is `None` where it is none of
/// those in [`ColumnType`].
pub struct FieldSpec {
    pub name: Seq<char>,
    pub dtype: Option<ColumnType>,
    pub nullable: bool,
}

pub open spec fn text_cell(v: Option<Seq<char>>) -> Cell {
    match v {
        Some(x) => Cell::Utf8(x),
        None => Cell::Null,
    }
}

pub open spec fn int64_cell(v: Option<i64>) -> Cell {
    match v {
        Some(x) => Cell::Int64(x),
        None => Cell::Null,
    }
}

pub open spec fn uint8_cell(v: Option<u8>) -> Cell {
    match v {
        Some(x) => Cell::UInt8(x),
        None => Cell::Null,
    }
}

pub open spec fn uint32_cell(v: Option<u32>) -> Cell {
    match v {
        Some(x) => Cell::UInt32(x),
        None => Cell::Null,
    }
}

pub open spec fn boolean_cell(v: Option<bool>) -> Cell {
    match v {
        Some(x) => Cell::Boolean(x),
        None => Cell::Null,
    }
}

pub open spec fn float64_cell(v: Option<u64>) -> Cell {
    match v {
        Some(x) => Cell::Float64(x),
        None => Cell::Null,
    }
}

/// The number of bytes of `v` in UTF-8; a null takes none.
pub open spec fn item_bytes(v: Option<Seq<char>>) -> nat {
    match v {
        Some(x) => vstd::utf8::encode_utf8(x).len(),
        None => 0,
    }
}

/// The number of bytes that the texts of a column take together.
pub open spec fn text_bytes(items: Seq<Option<Seq<char>>>) -> nat
    decreases items.len(),
{
    if items.len() == 0 {
        0
    } else {
        text_bytes(items.drop_last()) + item_bytes(items.last())
    }
}

/// A text column under construction: arrow's `StringBuilder`. Nothing is ever
/// written to it but whole texts.
#[verifier::external_body]
pub struct TextColumn {
    builder: StringBuilder,
}

/// A column of `i64` under construction: arrow's `Int64Builder`.
#[verifier::external_body]
pub struct Int64Column {
    builder: Int64Builder,
}

/// A column of `u8` under construction: arrow's `UInt8Builder`.
#[verifier::external_body]
pub struct UInt8Column {
    builder: UInt8Builder,
}

/// A column of `u32` under construction: arrow's `UInt32Builder`.
#[verifier::external_body]
pub struct UInt32Column {
    builder: UInt32Builder,
}

/// arrow's `BooleanBuilder`.
#[verifier::external_type_specification]
#[verifier::external_body]
pub struct ExBooleanBuilder(BooleanBuilder);

/// A finished column: arrow's `ArrayRef`.
#[verifier::external_body]
pub struct ArrayColumn {
    array: ArrayRef,
}

/// arrow's `Field`.
#[verifier::external_type_specification]
#[verifier::external_body]
pub struct ExField(Field);

/// arrow's `Schema`.
#[verifier::external_type_specification]
#[verifier::external_body]
pub struct ExSchema(Schema);

/// arrow's `ArrowError`.
#[verifier::external_type_specification]
#[verifier::external_body]
pub struct ExArrowError(ArrowError);

/// A finished table: arrow's `RecordBatch`, for a writer to take.
#[verifier::external_body]
pub struct Batch {
    pub batch: RecordBatch,
}

/// The items of a text column.
pub uninterp spec fn text_items(c: &TextColumn) -> Seq<Option<Seq<char>>>;

/// The items of a column of `i64`.
pub uninterp spec fn int64_items(c: &Int64Column) -> Seq<Option<i64>>;

/// The items of a column of `u8`.
pub uninterp spec fn uint8_items(c: &UInt8Column) -> Seq<Option<u8>>;

/// The items of a column of `u32`.
pub uninterp spec fn uint32_items(c: &UInt32Column) -> Seq<Option<u32>>;

/// The items of a column of `bool`.
pub uninterp spec fn boolean_items(c: &BooleanBuilder) -> Seq<Option<bool>>;

/// The items of a finished column.
pub uninterp spec fn column_cells(c: &ArrayColumn) -> Seq<Cell>;

/// The type of a finished column.
pub uninterp spec fn column_type(c: &ArrayColumn) -> ColumnType;

/// What a field says of its column.
pub uninterp spec fn field_spec(f: &Field) -> FieldSpec;

/// What a schema says of its columns.
pub uninterp spec fn schema_fields(s: &Schema) -> Seq<FieldSpec>;

/// The columns of a table.
pub uninterp spec fn batch_columns(b: &Batch) -> Seq<Seq<Cell>>;

/// What the schema of a table says of its columns.
pub uninterp spec fn batch_fields(b: &Batch) -> Seq<FieldSpec>;

impl TextColumn {
    /// Calls `StringBuilder::with_capacity`. Trusted: the builder is empty.
    #[verifier::external_body]
    pub(crate) fn with_capacity(items: usize, bytes: usize) -> (r: Self)
        requires
            items < ITEM_LIMIT,
            bytes <= TEXT_LIMIT,
        ensures
            text_items(&r) == Seq::<Option<Seq<char>>>::empty(),
    {
        TextColumn { builder: StringBuilder::with_capacity(items, bytes) }
    }

    /// Calls `StringBuilder::append_value`. Trusted: it adds the text as the
    /// last item. It panics where the texts together would take more than
    /// `i32::MAX` bytes.
    #[verifier::external_body]
    pub(crate) fn append_value(&mut self, v: &str)
        requires
            text_items(old(self)).len() < ITEM_LIMIT,
            text_bytes(text_items(old(self))) + item_bytes(Some(v@)) <= TEXT_LIMIT,
        ensures
            text_items(final(self)) == text_items(old(self)).push(Some(v@)),
    {
        self.builder.append_value(v)
    }

    /// Calls `StringBuilder::append_null`. Trusted: it adds a null as the last
    /// item.
    #[verifier::external_body]
    pub(crate) fn append_null(&mut self)
        requires
            text_items(old(self)).len() < ITEM_LIMIT,
            text_bytes(text_items(old(self))) <= TEXT_LIMIT,
        ensures
            text_items(final(self)) == text_items(old(self)).push(None),
    {
        self.builder.append_null()
    }

    /// Calls `StringBuilder::values_slice`. Trusted: the slice is as long as the
    /// texts are together.
    #[verifier::external_body]
    pub(crate) fn bytes(&self) -> (r: usize)
        ensures
            r == text_bytes(text_items(self)),
    {
        self.builder.values_slice().len()
    }

    /// Calls `StringBuilder::finish`. Trusted: the array holds the items in
    /// order and the builder is empty afterwards.
    #[verifier::external_body]
    pub(crate) fn finish(&mut self) -> (r: ArrayColumn)
        ensures
            column_cells(&r) == text_items(old(self)).map_values(
                |v: Option<Seq<char>>| text_cell(v),
            ),
            column_type(&r) == ColumnType::Utf8,
            text_items(final(self)) == Seq::<Option<Seq<char>>>::empty(),
    {
        ArrayColumn { array: Arc::new(self.builder.finish()) }
    }
}

impl Int64Column {
    /// Calls `Int64Builder::with_capacity`. Trusted: the builder is empty.
    #[verifier::external_body]
    pub(crate) fn with_capacity(items: usize) -> (r: Self)
        requires
            items < ITEM_LIMIT,
        ensures
            int64_items(&r) == Seq::<Option<i64>>::empty(),
    {
        Int64Column { builder: Int64Builder::with_capacity(items) }
    }

    /// Calls `Int64Builder::append_value`. Trusted: it adds the value as the
    /// last item.
    #[verifier::external_body]
    pub(crate) fn append_value(&mut self, v: i64)
        requires
            int64_items(old(self)).len() < ITEM_LIMIT,
        ensures
            int64_items(final(self)) == int64_items(old(self)).push(Some(v)),
    {
        self.builder.append_value(v)
    }

    /// Calls `Int64Builder::append_null`. Trusted: it adds a null as the last
    /// item.
    #[verifier::external_body]
    pub(crate) fn append_null(&mut self)
        requires
            int64_items(old(self)).len() < ITEM_LIMIT,
        ensures
            int64_items(final(self)) == int64_items(old(self)).push(None),
    {
        self.builder.append_null()
    }

    /// Calls `Int64Builder::finish`. Trusted: the array holds the items in order
    /// and the builder is empty afterwards.
    #[verifier::external_body]
    pub(crate) fn finish(&mut self) -> (r: ArrayColumn)
        ensures
            column_cells(&r) == int64_items(old(self)).map_values(|v: Option<i64>| int64_cell(v)),
            column_type(&r) == ColumnType::Int64,
            int64_items(final(self)) == Seq::<Option<i64>>::empty(),
    {
        ArrayColumn { array: Arc::new(self.builder.finish()) }
    }

    /// Calls `Int64Builder::finish` and hands out the items of the array.
    /// Trusted: they are the items of the builder in order, and the builder is
    /// empty afterwards.
    #[verifier::external_body]
    pub(crate) fn take_items(&mut self) -> (r: Vec<Option<i64>>)
        ensures
            r@ == int64_items(old(self)),
            int64_items(final(self)) == Seq::<Option<i64>>::empty(),
    {
        self.builder.finish().iter().collect()
    }
}

impl UInt8Column {
    /// Calls `UInt8Builder::with_capacity`. Trusted: the builder is empty.
    #[verifier::external_body]
    pub(crate) fn with_capacity(items: usize) -> (r: Self)
        requires
            items < ITEM_LIMIT,
        ensures
            uint8_items(&r) == Seq::<Option<u8>>::empty(),
    {
        UInt8Column { builder: UInt8Builder::with_capacity(items) }
    }

    /// Calls `UInt8Builder::append_value`. Trusted: it adds the value as the
    /// last item.
    #[verifier::external_body]
    pub(crate) fn append_value(&mut self, v: u8)
        requires
            uint8_items(old(self)).len() < ITEM_LIMIT,
        ensures
            uint8_items(final(self)) == uint8_items(old(self)).push(Some(v)),
    {
        self.builder.append_value(v)
    }

    /// Calls `UInt8Builder::append_null`. Trusted: it adds a null as the last
    /// item.
    #[verifier::external_body]
    pub(crate) fn append_null(&mut self)
        requires
            uint8_items(old(self)).len() < ITEM_LIMIT,
        ensures
            uint8_items(final(self)) == uint8_items(old(self)).push(None),
    {
        self.builder.append_null()
    }

    /// Calls `UInt8Builder::finish`. Trusted: the array holds the items in order
    /// and the builder is empty afterwards.
    #[verifier::external_body]
    pub(crate) fn finish(&mut self) -> (r: ArrayColumn)
        ensures
            column_cells(&r) == uint8_items(old(self)).map_values(|v: Option<u8>| uint8_cell(v)),
            column_type(&r) == ColumnType::UInt8,
            uint8_items(final(self)) == Seq::<Option<u8>>::empty(),
    {
        ArrayColumn { array: Arc::new(self.builder.finish()) }
    }
}

impl UInt32Column {
    /// Calls `UInt32Builder::with_capacity`. Trusted: the builder is empty.
    #[verifier::external_body]
    pub(crate) fn with_capacity(items: usize) -> (r: Self)
        requires
            items < ITEM_LIMIT,
        ensures
            uint32_items(&r) == Seq::<Option<u32>>::empty(),
    {
        UInt32Column { builder: UInt32Builder::with_capacity(items) }
    }

    /// Calls `UInt32Builder::append_value`. Trusted: it adds the value as the
    /// last item.
    #[verifier::external_body]
    pub(crate) fn append_value(&mut self, v: u32)
        requires
            uint32_items(old(self)).len() < ITEM_LIMIT,
        ensures
            uint32_items(final(self)) == uint32_items(old(self)).push(Some(v)),
    {
        self.builder.append_value(v)
    }

    /// Calls `UInt32Builder::append_null`. Trusted: it adds a null as the last
    /// item.
    #[verifier::external_body]
    pub(crate) fn append_null(&mut self)
        requires
            uint32_items(old(self)).len() < ITEM_LIMIT,
        ensures
            uint32_items(final(self)) == uint32_items(old(self)).push(None),
    {
        self.builder.append_null()
    }

    /// Calls `UInt32Builder::finish`. Trusted: the array holds the items in
    /// order and the builder is empty afterwards.
    #[verifier::external_body]
    pub(crate) fn finish(&mut self) -> (r: ArrayColumn)
        ensures
            column_cells(&r) == uint32_items(old(self)).map_values(|v: Option<u32>| uint32_cell(v)),
            column_type(&r) == ColumnType::UInt32,
            uint32_items(final(self)) == Seq::<Option<u32>>::empty(),
    {
        ArrayColumn { array: Arc::new(self.builder.finish()) }
    }
}

/// Calls `BooleanBuilder::with_capacity`. Trusted: the builder is empty.
#[verifier::external_body]
pub(crate) fn boolean_with_capacity(items: usize) -> (r: BooleanBuilder)
    requires
        items < ITEM_LIMIT,
    ensures
        boolean_items(&r) == Seq::<Option<bool>>::empty(),
{
    BooleanBuilder::with_capacity(items)
}

/// Calls `BooleanBuilder::append_value`. Trusted: it adds the value as the last
/// item.
#[verifier::external_body]
pub(crate) fn boolean_append_value(c: &mut BooleanBuilder, v: bool)
    requires
        boolean_items(old(c)).len() < ITEM_LIMIT,
    ensures
        boolean_items(final(c)) == boolean_items(old(c)).push(Some(v)),
{
    c.append_value(v)
}

/// Calls `BooleanBuilder::append_null`. Trusted: it adds a null as the last
/// item.
#[verifier::external_body]
pub(crate) fn boolean_append_null(c: &mut BooleanBuilder)
    requires
        boolean_items(old(c)).len() < ITEM_LIMIT,
    ensures
        boolean_items(final(c)) == boolean_items(old(c)).push(None),
{
    c.append_null()
}

/// Calls `BooleanBuilder::finish`. Trusted: the array holds the items in order
/// and the builder is empty afterwards.
#[verifier::external_body]
pub(crate) fn boolean_finish(c: &mut BooleanBuilder) -> (r: ArrayColumn)
    ensures
        column_cells(&r) == boolean_items(old(c)).map_values(|v: Option<bool>| boolean_cell(v)),
        column_type(&r) == ColumnType::Boolean,
        boolean_items(final(c)) == Seq::<Option<bool>>::empty(),
{
    ArrayColumn { array: Arc::new(c.finish()) }
}

/// Calls `UInt64Array::from` and, on the buffers of that array,
/// `Float64Array::new`. Trusted: the array holds the numbers with these bits,
/// in order, and nulls where there are none.
#[verifier::external_body]
pub(crate) fn float64_column(bits: Vec<Option<u64>>) -> (r: ArrayColumn)
    requires
        bits@.len() <= ITEM_LIMIT,
    ensures
        column_cells(&r) == bits@.map_values(|v: Option<u64>| float64_cell(v)),
        column_type(&r) == ColumnType::Float64,
{
    let (_, values, nulls) = UInt64Array::from(bits).into_parts();
    ArrayColumn { array: Arc::new(Float64Array::new(values.into_inner().into(), nulls)) }
}

/// Calls `Field::new`. Trusted: the field has this name, type and nullability.
#[verifier::external_body]
pub(crate) fn field(name: &str, dtype: ColumnType, nullable: bool) -> (r: Field)
    ensures
        field_spec(&r) == (FieldSpec { name: name@, dtype: Some(dtype), nullable }),
{
    let data_type = match dtype {
        ColumnType::Utf8 => DataType::Utf8,
        ColumnType::Int64 => DataType::Int64,
        ColumnType::UInt8 => DataType::UInt8,
        ColumnType::UInt32 => DataType::UInt32,
        ColumnType::Boolean => DataType::Boolean,
        ColumnType::Float64 => DataType::Float64,
    };
    Field::new(name, data_type, nullable)
}

/// Calls `Schema::new`. Trusted: the schema has these fields, in order.
#[verifier::external_body]
pub(crate) fn schema(fields: Vec<Field>) -> (r: Schema)
    ensures
        schema_fields(&r) == fields@.map_values(|f: Field| field_spec(&f)),
{
    Schema::new(fields)
}

/// Whether columns fit a schema: as many as it has fields, at least one, all of
/// one length, each of the type of its field, and none with a null where its
/// field allows none.
pub open spec fn columns_fit(fields: Seq<FieldSpec>, columns: Seq<ArrayColumn>) -> bool {
    &&& columns.len() == fields.len()
    &&& columns.len() > 0
    &&& forall|i: int|
        #![trigger columns[i]]
        0 <= i < columns.len() ==> {
            &&& column_cells(&columns[i]).len() == column_cells(&columns[0]).len()
            &&& fields[i].dtype == Some(column_type(&columns[i]))
            &&& fields[i].nullable || !column_cells(&columns[i]).contains(Cell::Null)
        }
}

/// Calls `RecordBatch::try_new`. Trusted: it gives a table of these columns
/// under this schema where they fit it, and an error where they do not.
#[verifier::external_body]
pub(crate) fn record_batch(schema: &Arc<Schema>, columns: Vec<ArrayColumn>) -> (r: Result<
    Batch,
    ArrowError,
>)
    ensures
        r is Ok <==> columns_fit(schema_fields(&**schema), columns@),
        r matches Ok(b) ==> batch_fields(&b) == schema_fields(&**schema),
        r matches Ok(b) ==> batch_columns(&b) == columns@.map_values(
            |c: ArrayColumn| column_cells(&c),
        ),
{
    let arrays = columns.into_iter().map(|c| c.array).collect();
    RecordBatch::try_new(Arc::clone(schema), arrays).map(|batch| Batch { batch })
}

} // verus!
