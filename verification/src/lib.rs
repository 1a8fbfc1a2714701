//! Reading and writing of dBase / FoxPro (.dbf) tables.
//!
//! The table format (header, field descriptors, records, memo blocks) is
//! parsed from and serialized to byte sequences; every codec states in its
//! contract the exact bytes it reads or produces.
//!
//! - [`Reader`] reads the records of a table held in memory;
//! - [`TableWriterBuilder`] and [`TableWriter`] write a new table;
//! - [`File`] reads and modifies a table in place, record by record and
//!   field by field;
//! - [`DynEncoding`] chooses how strings are decoded and encoded, also from
//!   the name a `.cpg` file holds ([`DynEncoding::from_name`]).

mod le;
mod sealed;
pub mod byte_laws;
pub mod encoding;
pub mod error;
pub mod field;
pub mod file;
pub mod header;
pub mod memo;
pub mod message;
pub mod reading;
pub mod record;
pub mod roundtrip;
pub mod table_law;
pub mod types;
pub mod value;
pub mod whatwg;
pub mod writing;

pub use crate::encoding::{
    AsCodePageMark, Ascii, DynEncoding, Encoding, GbkEncoding, Unicode, UnicodeLossy,
};
pub use crate::error::{
    DateParseError, DecodeError, EncodeError, Error, ErrorKind, FieldConversionError, FieldError,
    FieldIndex, IntErrorKind, RecordIndex, TimeError,
};
pub use crate::field::{DeletionFlag, FieldFlags, FieldInfo, FieldName, FieldsInfo};
pub use crate::file::{FieldRef, File, FileRecordIterator, RecordRef};
pub use crate::header::{CodePageMark, Header, TableFlags, Version};
pub use crate::memo::{MemoFileType, MemoReader};
pub use crate::reading::{
    FieldIterator, FromFieldValue, NamedValue, ReadableRecord, Reader, ReadingOptions,
    RecordIterator, TableInfo,
};
pub use crate::record::Record;
pub use crate::types::{Date, DateTime, FieldType, Time};
pub use crate::value::{FieldValue, TrimOption, WritableAsDbaseField};
pub use crate::whatwg::EncodingRs;
pub use crate::writing::{FieldWriter, TableWriter, TableWriterBuilder, WritableRecord};

use vstd::prelude::*;

verus! {
}
