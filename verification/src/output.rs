//! How the tables are stored in a parquet file.
use parquet::basic::{Compression, ZstdLevel};
use parquet::errors::ParquetError;
use parquet::file::properties::WriterProperties;
use vstd::prelude::*;

use crate::buf::CHUNK_SIZE;

verus! {

/// How hard the columns are compressed.
pub const PARQUET_ZSTD_LEVEL: i32 = 3;

/// parquet's `ZstdLevel`.
#[verifier::external_type_specification]
#[verifier::external_body]
pub struct ExZstdLevel(ZstdLevel);

/// parquet's `ParquetError`.
#[verifier::external_type_specification]
#[verifier::external_body]
pub struct ExParquetError(ParquetError);

/// parquet's `WriterProperties`.
#[verifier::external_type_specification]
#[verifier::external_body]
pub struct ExWriterProperties(WriterProperties);

/// How every column of a file is stored.
pub struct Storage {
    /// The level of Zstandard compression.
    pub zstd_level: int,
    /// The most rows in a row group.
    pub row_group_size: nat,
    /// Whether equal values are stored once and referred to.
    pub dictionary: bool,
}

/// The number of a level.
pub uninterp spec fn level_number(l: &ZstdLevel) -> int;

/// What properties say of how columns are stored.
pub uninterp spec fn storage(p: &WriterProperties) -> Storage;

/// Calls `ZstdLevel::try_new`. Trusted: there is a level for each number from 1
/// to 22 and for no other.
#[verifier::external_body]
fn zstd_level(level: i32) -> (r: Result<ZstdLevel, ParquetError>)
    ensures
        r is Ok <==> 1 <= level <= 22,
        r matches Ok(l) ==> level_number(&l) == level,
{
    ZstdLevel::try_new(level)
}

/// Calls `WriterProperties::builder`, sets the compression, the row group size
/// and the dictionary flag, and calls `build`. Trusted: the properties say what
/// was set. A row group size of zero panics.
#[verifier::external_body]
fn properties(level: ZstdLevel, row_group_size: usize, dictionary: bool) -> (r: WriterProperties)
    requires
        row_group_size > 0,
    ensures
        storage(&r) == (Storage {
            zstd_level: level_number(&level),
            row_group_size: row_group_size as nat,
            dictionary,
        }),
{
    WriterProperties::builder()
        .set_compression(Compression::ZSTD(level))
        .set_max_row_group_size(row_group_size)
        .set_dictionary_enabled(dictionary)
        .build()
}

/// The properties under which the tables are stored: compressed, with
/// dictionaries, and in row groups of the size from which on a table is written.
pub fn writer_properties() -> (r: WriterProperties)
    ensures
        storage(&r) == (Storage {
            zstd_level: PARQUET_ZSTD_LEVEL as int,
            row_group_size: CHUNK_SIZE as nat,
            dictionary: true,
        }),
{
    properties(zstd_level(PARQUET_ZSTD_LEVEL).unwrap(), CHUNK_SIZE, true)
}

} // verus!
