//! Messages that say what an error is.

use crate::error::{
    DateParseError, DecodeError, EncodeError, Error, ErrorKind, FieldContext, FieldConversionError,
    FieldError, IntErrorKind, RecordField, TimeError,
};
use crate::header::CodePageMark;
use crate::types::FieldType;
use vstd::prelude::*;
use vstd::string::StringExecFns;

verus! {

/// `ToString::to_string` on a `char` (std): the string of that one
/// character.
#[verifier::external_body]
fn char_string(c: char) -> (r: String)
    ensures
        r@ == seq![c],
{
    c.to_string()
}

/// The character of a decimal digit.
pub open spec fn digit_char(d: int) -> char {
    ((48 + d) as u8) as char
}

/// The decimal digits of a natural number, without leading zeros.
pub open spec fn decimal_digits(n: nat) -> Seq<char>
    decreases n,
{
    if n < 10 {
        seq![digit_char(n as int)]
    } else {
        decimal_digits(n / 10) + seq![digit_char((n % 10) as int)]
    }
}

/// The decimal text of an integer, with a minus sign when it is negative.
pub open spec fn decimal_text(n: int) -> Seq<char> {
    if n < 0 {
        seq!['-'] + decimal_digits((-n) as nat)
    } else {
        decimal_digits(n as nat)
    }
}

fn digits_string(n: u64) -> (r: String)
    ensures
        r@ == decimal_digits(n as nat),
    decreases n,
{
    let d = (n % 10) as u8;
    let last = char_string((48u8 + d) as char);
    if n < 10 {
        last
    } else {
        let mut s = digits_string(n / 10);
        s.append(last.as_str());
        s
    }
}

/// The decimal text of an integer.
pub fn decimal_string(n: i32) -> (r: String)
    ensures
        r@ == decimal_text(n as int),
{
    if n < 0 {
        let m: i64 = -(n as i64);
        let mut s = String::from_str("-");
        proof {
            reveal_strlit("-");
        }
        let digits = digits_string(m as u64);
        s.append(digits.as_str());
        s
    } else {
        digits_string(n as u64)
    }
}

/// The name of a code page mark.
pub open spec fn code_page_name(v: CodePageMark) -> Seq<char> {
    match v {
        CodePageMark::Undefined => "Undefined"@,
        CodePageMark::CP437 => "CP437"@,
        CodePageMark::CP850 => "CP850"@,
        CodePageMark::CP1252 => "CP1252"@,
        CodePageMark::CP852 => "CP852"@,
        CodePageMark::CP866 => "CP866"@,
        CodePageMark::CP865 => "CP865"@,
        CodePageMark::CP861 => "CP861"@,
        CodePageMark::CP895 => "CP895"@,
        CodePageMark::CP620 => "CP620"@,
        CodePageMark::CP737 => "CP737"@,
        CodePageMark::CP857 => "CP857"@,
        CodePageMark::CP950 => "CP950"@,
        CodePageMark::CP949 => "CP949"@,
        CodePageMark::CP936 => "CP936"@,
        CodePageMark::CP932 => "CP932"@,
        CodePageMark::CP874 => "CP874"@,
        CodePageMark::CP1255 => "CP1255"@,
        CodePageMark::CP1256 => "CP1256"@,
        CodePageMark::CP1250 => "CP1250"@,
        CodePageMark::CP1251 => "CP1251"@,
        CodePageMark::CP1254 => "CP1254"@,
        CodePageMark::CP1253 => "CP1253"@,
        CodePageMark::Utf8 => "Utf8"@,
        CodePageMark::Invalid => "Invalid"@,
    }
}
/// The name of a code page mark.
pub fn code_page_name_string(v: CodePageMark) -> (r: String)
    ensures
        r@ == code_page_name(v),
{
    match v {
        CodePageMark::Undefined => String::from_str("Undefined"),
        CodePageMark::CP437 => String::from_str("CP437"),
        CodePageMark::CP850 => String::from_str("CP850"),
        CodePageMark::CP1252 => String::from_str("CP1252"),
        CodePageMark::CP852 => String::from_str("CP852"),
        CodePageMark::CP866 => String::from_str("CP866"),
        CodePageMark::CP865 => String::from_str("CP865"),
        CodePageMark::CP861 => String::from_str("CP861"),
        CodePageMark::CP895 => String::from_str("CP895"),
        CodePageMark::CP620 => String::from_str("CP620"),
        CodePageMark::CP737 => String::from_str("CP737"),
        CodePageMark::CP857 => String::from_str("CP857"),
        CodePageMark::CP950 => String::from_str("CP950"),
        CodePageMark::CP949 => String::from_str("CP949"),
        CodePageMark::CP936 => String::from_str("CP936"),
        CodePageMark::CP932 => String::from_str("CP932"),
        CodePageMark::CP874 => String::from_str("CP874"),
        CodePageMark::CP1255 => String::from_str("CP1255"),
        CodePageMark::CP1256 => String::from_str("CP1256"),
        CodePageMark::CP1250 => String::from_str("CP1250"),
        CodePageMark::CP1251 => String::from_str("CP1251"),
        CodePageMark::CP1254 => String::from_str("CP1254"),
        CodePageMark::CP1253 => String::from_str("CP1253"),
        CodePageMark::Utf8 => String::from_str("Utf8"),
        CodePageMark::Invalid => String::from_str("Invalid"),
    }
}
/// The name of a field type.
pub open spec fn field_type_name(v: FieldType) -> Seq<char> {
    match v {
        FieldType::Character => "dbase::Character"@,
        FieldType::Date => "dbase::Date"@,
        FieldType::Float => "dbase::Float"@,
        FieldType::Numeric => "dbase::Numeric"@,
        FieldType::Logical => "dbase::Logical"@,
        FieldType::Currency => "dbase::Currency"@,
        FieldType::DateTime => "dbase::DateTime"@,
        FieldType::Integer => "dbase::Integer"@,
        FieldType::Double => "dbase::Double"@,
        FieldType::Memo => "dbase::Memo"@,
    }
}
/// The name of a field type.
pub fn field_type_name_string(v: FieldType) -> (r: String)
    ensures
        r@ == field_type_name(v),
{
    match v {
        FieldType::Character => String::from_str("dbase::Character"),
        FieldType::Date => String::from_str("dbase::Date"),
        FieldType::Float => String::from_str("dbase::Float"),
        FieldType::Numeric => String::from_str("dbase::Numeric"),
        FieldType::Logical => String::from_str("dbase::Logical"),
        FieldType::Currency => String::from_str("dbase::Currency"),
        FieldType::DateTime => String::from_str("dbase::DateTime"),
        FieldType::Integer => String::from_str("dbase::Integer"),
        FieldType::Double => String::from_str("dbase::Double"),
        FieldType::Memo => String::from_str("dbase::Memo"),
    }
}
/// What goes wrong reading an integer.
pub open spec fn int_error_text(v: IntErrorKind) -> Seq<char> {
    match v {
        IntErrorKind::Empty => "cannot parse integer from empty string"@,
        IntErrorKind::InvalidDigit => "invalid digit found in string"@,
        IntErrorKind::PosOverflow => "number too large to fit in target type"@,
    }
}
/// What goes wrong reading an integer.
pub fn int_error_string(v: IntErrorKind) -> (r: String)
    ensures
        r@ == int_error_text(v),
{
    match v {
        IntErrorKind::Empty => String::from_str("cannot parse integer from empty string"),
        IntErrorKind::InvalidDigit => String::from_str("invalid digit found in string"),
        IntErrorKind::PosOverflow => String::from_str("number too large to fit in target type"),
    }
}
/// What goes wrong converting a field value.
pub open spec fn conversion_text(e: FieldConversionError) -> Seq<char> {
    match e {
        FieldConversionError::FieldTypeNotAsExpected { expected, actual } => "Cannot convert from "@
            + field_type_name(expected) + " to "@ + field_type_name(actual),
        FieldConversionError::IncompatibleType => "The type is not compatible"@,
        FieldConversionError::NoneValue => "Value is not initialized, which is not allowed"@,
    }
}

/// What goes wrong converting a field value.
pub fn conversion_string(e: FieldConversionError) -> (r: String)
    ensures
        r@ == conversion_text(e),
{
    match e {
        FieldConversionError::FieldTypeNotAsExpected { expected, actual } => {
            let mut s = String::from_str("Cannot convert from ");
            s.append(field_type_name_string(expected).as_str());
            s.append(" to ");
            s.append(field_type_name_string(actual).as_str());
            s
        },
        FieldConversionError::IncompatibleType => String::from_str("The type is not compatible"),
        FieldConversionError::NoneValue => String::from_str("Value is not initialized, which is not allowed"),
    }
}

/// What goes wrong reading a date.
pub open spec fn date_error_text(e: DateParseError) -> Seq<char> {
    match e {
        DateParseError::InvalidFormat(k) => "the text is not a date: "@ + int_error_text(k),
        DateParseError::TooShort => "the text is too short to be a date"@,
        DateParseError::DayNumberOutOfRange(n) => "the day number "@ + decimal_text(n as int)
            + " has no supported calendar date"@,
    }
}

/// What goes wrong reading a date.
pub fn date_error_string(e: DateParseError) -> (r: String)
    ensures
        r@ == date_error_text(e),
{
    match e {
        DateParseError::InvalidFormat(k) => {
            let mut s = String::from_str("the text is not a date: ");
            s.append(int_error_string(k).as_str());
            s
        },
        DateParseError::TooShort => String::from_str("the text is too short to be a date"),
        DateParseError::DayNumberOutOfRange(n) => {
            let mut s = String::from_str("the day number ");
            s.append(decimal_string(n).as_str());
            s.append(" has no supported calendar date");
            s
        },
    }
}

/// What goes wrong reading a time.
pub open spec fn time_error_text(e: TimeError) -> Seq<char> {
    match e {
        TimeError::NegativeTimeWord(w) => "the milliseconds count "@ + decimal_text(w as int)
            + " is negative"@,
    }
}

/// What goes wrong reading a time.
pub fn time_error_string(e: TimeError) -> (r: String)
    ensures
        r@ == time_error_text(e),
{
    match e {
        TimeError::NegativeTimeWord(w) => {
            let mut s = String::from_str("the milliseconds count ");
            s.append(decimal_string(w).as_str());
            s.append(" is negative");
            s
        },
    }
}

/// What goes wrong decoding a string.
pub open spec fn decode_text(e: DecodeError) -> Seq<char> {
    match e {
        DecodeError::Message(m) => m@,
        DecodeError::FromUtf8(_) => "the bytes are not valid UTF-8"@,
        DecodeError::NotAscii => "string contains non-ASCII bytes"@,
    }
}

/// What goes wrong decoding a string.
pub fn decode_string(e: &DecodeError) -> (r: String)
    ensures
        r@ == decode_text(*e),
{
    match e {
        DecodeError::Message(m) => String::from_str(m.as_str()),
        DecodeError::FromUtf8(_) => String::from_str("the bytes are not valid UTF-8"),
        DecodeError::NotAscii => String::from_str("string contains non-ASCII bytes"),
    }
}

/// What goes wrong encoding a string.
pub open spec fn encode_text(e: EncodeError) -> Seq<char> {
    match e {
        EncodeError::Message(m) => m@,
    }
}

/// What goes wrong encoding a string.
pub fn encode_string(e: &EncodeError) -> (r: String)
    ensures
        r@ == encode_text(*e),
{
    match e {
        EncodeError::Message(m) => String::from_str(m.as_str()),
    }
}

/// The message of an error kind.
pub open spec fn kind_message(k: ErrorKind) -> Seq<char> {
    match k {
        ErrorKind::UnexpectedEof => "An I/O error happened: unexpected end of file"@,
        ErrorKind::ParseFloatError => "Float value could not be obtained: invalid float literal"@,
        ErrorKind::ParseIntError(e) => "Integer value could not be obtained: "@ + int_error_text(e),
        ErrorKind::InvalidDate(e) => "Invalid date: "@ + date_error_text(e),
        ErrorKind::InvalidTime(e) => "Invalid time: "@ + time_error_text(e),
        ErrorKind::InvalidFieldType(c) => "The FieldType code '"@ + seq![c] + "' is not a valid one"@,
        ErrorKind::MissingMemoFile => "The memo file could not be found"@,
        ErrorKind::BadConversion(e) => "The conversion cannot be made: "@ + conversion_text(e),
        ErrorKind::EndOfRecord => "End of record reached, no more fields left"@,
        ErrorKind::NotEnoughFields => "The writer did not expected that many fields for the record"@,
        ErrorKind::TooManyFields => "The writer expected to write more fields for the record"@,
        ErrorKind::IncompatibleType => "The types are not compatible"@,
        ErrorKind::UnsupportedCodePage(m) => "The code page '"@ + code_page_name(m) + "' is not supported"@,
        ErrorKind::StringDecodeError(e) => "A string from the database could not be decoded: "@ + decode_text(e),
        ErrorKind::StringEncodeError(e) => "A string from the database could not be encoded: "@ + encode_text(e),
        ErrorKind::InvalidFile(d) => "The file is invalid: "@ + d@,
        ErrorKind::Message(m) => m@,
    }
}

impl ErrorKind {
    /// The message that says what this error is.
    pub fn message(&self) -> (r: String)
        ensures
            r@ == kind_message(*self),
    {
        match self {
            ErrorKind::UnexpectedEof => String::from_str("An I/O error happened: unexpected end of file"),
            ErrorKind::ParseFloatError => String::from_str("Float value could not be obtained: invalid float literal"),
            ErrorKind::ParseIntError(e) => {
                let mut s = String::from_str("Integer value could not be obtained: ");
                s.append(int_error_string(*e).as_str());
                s
            },
            ErrorKind::InvalidDate(e) => {
                let mut s = String::from_str("Invalid date: ");
                s.append(date_error_string(*e).as_str());
                s
            },
            ErrorKind::InvalidTime(e) => {
                let mut s = String::from_str("Invalid time: ");
                s.append(time_error_string(*e).as_str());
                s
            },
            ErrorKind::InvalidFieldType(c) => {
                let mut s = String::from_str("The FieldType code '");
                s.append(char_string(*c).as_str());
                s.append("' is not a valid one");
                s
            },
            ErrorKind::MissingMemoFile => String::from_str("The memo file could not be found"),
            ErrorKind::BadConversion(e) => {
                let mut s = String::from_str("The conversion cannot be made: ");
                s.append(conversion_string(*e).as_str());
                s
            },
            ErrorKind::EndOfRecord => String::from_str("End of record reached, no more fields left"),
            ErrorKind::NotEnoughFields => String::from_str("The writer did not expected that many fields for the record"),
            ErrorKind::TooManyFields => String::from_str("The writer expected to write more fields for the record"),
            ErrorKind::IncompatibleType => String::from_str("The types are not compatible"),
            ErrorKind::UnsupportedCodePage(m) => {
                let mut s = String::from_str("The code page '");
                s.append(code_page_name_string(*m).as_str());
                s.append("' is not supported");
                s
            },
            ErrorKind::StringDecodeError(e) => {
                let mut s = String::from_str("A string from the database could not be decoded: ");
                s.append(decode_string(e).as_str());
                s
            },
            ErrorKind::StringEncodeError(e) => {
                let mut s = String::from_str("A string from the database could not be encoded: ");
                s.append(encode_string(e).as_str());
                s
            },
            ErrorKind::InvalidFile(d) => {
                let mut s = String::from_str("The file is invalid: ");
                s.append(d);
                s
            },
            ErrorKind::Message(m) => String::from_str(m.as_str()),
        }
    }
}

/// The place of a field in a message: its index, name and type.
pub open spec fn field_place_text(c: FieldContext) -> Seq<char> {
    "#"@ + decimal_digits(c.index.0 as nat) + " ('"@ + c.name@ + "', "@ + field_type_name(c.kind) + ")"@
}

fn field_place_string(c: &FieldContext) -> (r: String)
    ensures
        r@ == field_place_text(*c),
{
    let mut s = String::from_str("#");
    s.append(digits_string(c.index.0 as u64).as_str());
    s.append(" ('");
    s.append(c.name.as_str());
    s.append("', ");
    s.append(field_type_name_string(c.kind).as_str());
    s.append(")");
    s
}

/// The message of an error at a field.
pub open spec fn field_error_message(e: FieldError) -> Seq<char> {
    match e.context {
        Some(c) => "An error occurred at field "@ + field_place_text(c) + ": "@ + kind_message(e.kind),
        None => "An error occurred for a field: "@ + kind_message(e.kind),
    }
}

/// The message of an error.
pub open spec fn error_message(e: Error) -> Seq<char> {
    match e.record_context {
        Some(ctx) => match ctx.field {
            Some(RecordField::DeletionFlag) => "An error occurred in record "@ + decimal_digits(
                ctx.index.0 as nat,
            ) + " at deletion flag: "@ + kind_message(e.kind),
            Some(RecordField::Field(c)) => "An error occurred in record "@ + decimal_digits(
                ctx.index.0 as nat,
            ) + " at field "@ + field_place_text(c) + ": "@ + kind_message(e.kind),
            None => "An error occurred in record "@ + decimal_digits(ctx.index.0 as nat) + ": "@
                + kind_message(e.kind),
        },
        None => "Error { kind: "@ + kind_message(e.kind) + " }"@,
    }
}

impl FieldError {
    /// The message that says what this error is and at which field.
    pub fn message(&self) -> (r: String)
        ensures
            r@ == field_error_message(*self),
    {
        match &self.context {
            Some(c) => {
                let mut s = String::from_str("An error occurred at field ");
                s.append(field_place_string(c).as_str());
                s.append(": ");
                s.append(self.kind.message().as_str());
                s
            },
            None => {
                let mut s = String::from_str("An error occurred for a field: ");
                s.append(self.kind.message().as_str());
                s
            },
        }
    }
}

impl Error {
    /// The message that says what this error is and where it happened.
    pub fn message(&self) -> (r: String)
        ensures
            r@ == error_message(*self),
    {
        match &self.record_context {
            Some(ctx) => {
                let mut s = String::from_str("An error occurred in record ");
                s.append(digits_string(ctx.index.0 as u64).as_str());
                match &ctx.field {
                    Some(RecordField::DeletionFlag) => {
                        s.append(" at deletion flag: ");
                    },
                    Some(RecordField::Field(c)) => {
                        s.append(" at field ");
                        s.append(field_place_string(c).as_str());
                        s.append(": ");
                    },
                    None => {
                        s.append(": ");
                    },
                }
                s.append(self.kind.message().as_str());
                s
            },
            None => {
                let mut s = String::from_str("Error { kind: ");
                s.append(self.kind.message().as_str());
                s.append(" }");
                s
            },
        }
    }
}

} // verus!
