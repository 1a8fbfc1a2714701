//! Errors of the library.

use crate::header::CodePageMark;
use crate::types::FieldType;
use vstd::prelude::*;

verus! {

/// Index to a field in a record
#[derive(Copy, Clone, PartialEq, Eq, Debug, Structural)]
pub struct FieldIndex(pub usize);

/// Index to a record in a dBase file
#[derive(Copy, Clone, PartialEq, Eq, Debug, Structural)]
pub struct RecordIndex(pub usize);

/// Why a text could not be read as an integer.
#[derive(Copy, Clone, Debug, PartialEq, Eq, Structural)]
pub enum IntErrorKind {
    /// The text holds no digit.
    Empty,
    /// The text holds a character that is not a digit.
    InvalidDigit,
    /// The value does not fit in the integer type.
    PosOverflow,
}

/// Why a date field could not be read.
#[derive(Copy, Clone, Debug, PartialEq, Eq, Structural)]
pub enum DateParseError {
    /// The text is not made of a 4 digit year, a 2 digit month and a 2 digit day.
    InvalidFormat(IntErrorKind),
    /// The text is shorter than the 8 characters of a date.
    TooShort,
    /// The day number of a date-time has no supported calendar date.
    DayNumberOutOfRange(i32),
}

/// Why a time could not be read.
#[derive(Copy, Clone, Debug, PartialEq, Eq, Structural)]
pub enum TimeError {
    /// The milliseconds count of a date-time is negative.
    NegativeTimeWord(i32),
}

/// A string from the database could not be decoded
#[derive(Debug, Clone)]
#[non_exhaustive]
pub enum DecodeError {
    Message(String),
    /// The bytes are not valid UTF-8.
    FromUtf8(Vec<u8>),
    NotAscii,
}

/// A string could not be encoded for the database
#[derive(Debug, Clone)]
#[non_exhaustive]
pub enum EncodeError {
    Message(String),
}

/// Errors that can happen when trying to convert a FieldValue into
/// a more concrete type
#[derive(Debug, Clone, Copy, PartialEq, Eq, Structural)]
pub enum FieldConversionError {
    /// Happens when the conversion could not be mode because the FieldType
    /// does not mat the expected one
    FieldTypeNotAsExpected {
        /// The expected FieldType of the FieldValue the conversion was tried on
        expected: FieldType,
        /// The actual FieldType of the FieldValue the conversion was tried on
        actual: FieldType,
    },
    IncompatibleType,
    /// The value written is the file was only pad bytes / uninitialized
    /// and the user tried to convert it into a non Option-Type
    NoneValue,
}

/// The kind of error that happened.
#[derive(Debug, Clone)]
#[non_exhaustive]
pub enum ErrorKind {
    /// The data ended before the structure being read was complete
    UnexpectedEof,
    /// The text of a numeric or float field is not a number
    ParseFloatError,
    /// Wrapper to forward errors when trying to parse an integer value from the file
    ParseIntError(IntErrorKind),
    /// A date field could not be parsed
    InvalidDate(DateParseError),
    /// The time is invalid
    InvalidTime(TimeError),
    /// The field has an invalid FieldType
    InvalidFieldType(char),
    /// Happens when at least one field is a Memo type
    /// and the additional memo file could not be found / was not given
    MissingMemoFile,
    /// The conversion from a FieldValue to another type could not be made
    BadConversion(FieldConversionError),
    /// End of the record, there are no more fields
    EndOfRecord,
    /// Not all the fields declared to the writer were given
    NotEnoughFields,
    /// More fields than expected were given to the writer
    TooManyFields,
    /// The type of the value for the field is not compatible with the
    /// dbase field's type
    IncompatibleType,
    /// The Code Page is not supported
    UnsupportedCodePage(CodePageMark),
    /// A string from the database could not be decoded
    StringDecodeError(DecodeError),
    /// A string from the database could not be encoded
    StringEncodeError(EncodeError),
    /// The file is globally invalid, it may not even be a proper dbase file
    InvalidFile(&'static str),
    Message(String),
}

/// The field an error happened at.
#[derive(Debug, Clone)]
pub struct FieldContext {
    pub index: FieldIndex,
    pub name: String,
    pub kind: FieldType,
}

/// The part of a record an error happened at.
#[derive(Debug, Clone)]
pub enum RecordField {
    DeletionFlag,
    Field(FieldContext),
}

/// The record (and part of it) an error happened at.
#[derive(Debug, Clone)]
pub struct RecordContext {
    pub index: RecordIndex,
    pub field: Option<RecordField>,
}

/// An error that happened when reading or writing a field.
#[derive(Debug, Clone)]
pub struct FieldError {
    pub kind: ErrorKind,
    pub context: Option<FieldContext>,
}

impl FieldError {
    /// Returns the kind of error that happened
    pub fn kind(&self) -> (r: &ErrorKind)
        ensures
            *r == self.kind,
    {
        &self.kind
    }

    /// An error at the field of index `index`, described by its name and type.
    pub fn from_info(index: FieldIndex, name: &String, field_type: FieldType, kind: ErrorKind) -> (r: Self)
        ensures
            r.kind == kind,
            r.context == Some(FieldContext { index, name: *name, kind: field_type }),
    {
        Self { kind, context: Some(FieldContext { index, name: name.clone(), kind: field_type }) }
    }

    /// The error for when a record has no more fields.
    pub fn end_of_record() -> (r: Self)
        ensures
            r.kind == ErrorKind::EndOfRecord,
            r.context is None,
    {
        Self { kind: ErrorKind::EndOfRecord, context: None }
    }

    /// An error that is not tied to a field.
    pub fn without_context(kind: ErrorKind) -> (r: Self)
        ensures
            r.kind == kind,
            r.context is None,
    {
        Self { kind, context: None }
    }
}

/// The error type for this crate
#[derive(Debug, Clone)]
pub struct Error {
    pub kind: ErrorKind,
    pub record_context: Option<RecordContext>,
}

impl Error {
    /// Shortcut for when the error happens before parsing the fields
    /// i.e when parsing header
    pub fn header(kind: ErrorKind) -> (r: Self)
        ensures
            r.kind == kind,
            r.record_context is None,
    {
        Self { kind, record_context: None }
    }

    /// Shortcut for when the error happens at the 'global' record level
    pub fn record(record_index: RecordIndex, kind: ErrorKind) -> (r: Self)
        ensures
            r.kind == kind,
            r.record_context == Some(RecordContext { index: record_index, field: None }),
    {
        Self { kind, record_context: Some(RecordContext { index: record_index, field: None }) }
    }

    /// An error at the deletion flag of a record.
    pub fn deletion_flag(record_index: RecordIndex, kind: ErrorKind) -> (r: Self)
        ensures
            r.kind == kind,
            r.record_context == Some(
                RecordContext { index: record_index, field: Some(RecordField::DeletionFlag) },
            ),
    {
        Self {
            kind,
            record_context: Some(
                RecordContext { index: record_index, field: Some(RecordField::DeletionFlag) },
            ),
        }
    }

    /// Most complete error, for when it happened when reading a field
    pub fn field(record_index: RecordIndex, field_ctx: FieldContext, kind: ErrorKind) -> (r: Self)
        ensures
            r.kind == kind,
            r.record_context == Some(
                RecordContext { index: record_index, field: Some(RecordField::Field(field_ctx)) },
            ),
    {
        Self {
            kind,
            record_context: Some(
                RecordContext { index: record_index, field: Some(RecordField::Field(field_ctx)) },
            ),
        }
    }

    /// The error of a record, from the error of one of its fields.
    pub fn from_field_error(index: RecordIndex, error: FieldError) -> (r: Self)
        ensures
            r.kind == error.kind,
            r.record_context == Some(
                RecordContext {
                    index,
                    field: match error.context {
                        Some(c) => Some(RecordField::Field(c)),
                        None => None,
                    },
                },
            ),
    {
        let FieldError { kind, context } = error;
        match context {
            Some(c) => Self::field(index, c, kind),
            None => Self::record(index, kind),
        }
    }

    /// Returns the kind of error that happened
    pub fn kind(&self) -> (r: &ErrorKind)
        ensures
            *r == self.kind,
    {
        &self.kind
    }

    /// Returns record index for which the error occurred
    ///
    /// None means the error happened outside of reading/writing a record, mainly
    /// when reading the header
    pub fn record_index(&self) -> (r: Option<RecordIndex>)
        ensures
            r == match self.record_context {
                Some(ctx) => Some(ctx.index),
                None => None,
            },
    {
        match &self.record_context {
            Some(ctx) => Some(ctx.index),
            None => None,
        }
    }

    /// Returns the field index for which the error occurred
    ///
    /// None means the error happened outside of reading/writing a field
    pub fn field_index(&self) -> (r: Option<FieldIndex>)
        ensures
            r == match self.record_context {
                Some(ctx) => match ctx.field {
                    Some(RecordField::Field(f)) => Some(f.index),
                    _ => None,
                },
                None => None,
            },
    {
        match &self.record_context {
            Some(ctx) => match &ctx.field {
                Some(RecordField::Field(f)) => Some(f.index),
                _ => None,
            },
            None => None,
        }
    }
}

} // verus!
