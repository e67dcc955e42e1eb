//! Verified core of a converter from IEX DEEP 1.0 captures to columnar tables.
pub mod buf;
pub mod capture;
pub mod columns;
pub mod message;
pub mod number;
pub mod output;
pub mod packet;
pub mod row;
pub mod schema;
pub mod wire;
