//! Lookup of Japanese postal-address records by postal code, by postal-code
//! prefix, and by substring search over address and kana-reading fields.
//!
//! A directory is built once from a raw dataset (dropping malformed entries)
//! and then answers read-only queries against the immutable index.

pub mod address;
pub mod directory;
pub mod error;
pub mod raw;
pub mod text;

pub use address::Address;
pub use directory::{
    AddressDirectory, lookup_address, lookup_addresses, search_by_address, valid_postal_code,
};
pub use error::JPostError;
pub use raw::{RawEntry, RawField, RawRecord, parse_record, record_to_raw};
