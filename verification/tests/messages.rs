use dbase::{
    Error, FieldError, RecordIndex, CodePageMark, DateParseError, ErrorKind, FieldConversionError, FieldType, IntErrorKind,
    TimeError,
};

#[test]
fn error_kind_messages() {
    assert_eq!(
        ErrorKind::InvalidTime(TimeError::NegativeTimeWord(-5)).message(),
        "Invalid time: the milliseconds count -5 is negative"
    );
    assert_eq!(
        ErrorKind::InvalidDate(DateParseError::DayNumberOutOfRange(i32::MIN)).message(),
        "Invalid date: the day number -2147483648 has no supported calendar date"
    );
    assert_eq!(
        ErrorKind::InvalidDate(DateParseError::DayNumberOutOfRange(1020)).message(),
        "Invalid date: the day number 1020 has no supported calendar date"
    );
    assert_eq!(
        ErrorKind::BadConversion(FieldConversionError::FieldTypeNotAsExpected {
            expected: FieldType::Character,
            actual: FieldType::Numeric,
        })
        .message(),
        "The conversion cannot be made: Cannot convert from dbase::Character to dbase::Numeric"
    );
    assert_eq!(
        ErrorKind::InvalidFieldType('Z').message(),
        "The FieldType code 'Z' is not a valid one"
    );
    assert_eq!(
        ErrorKind::UnsupportedCodePage(CodePageMark::CP437).message(),
        "The code page 'CP437' is not supported"
    );
    assert_eq!(
        ErrorKind::ParseIntError(IntErrorKind::InvalidDigit).message(),
        "Integer value could not be obtained: invalid digit found in string"
    );
    assert_eq!(ErrorKind::Message("boom".to_string()).message(), "boom");
    assert_eq!(
        ErrorKind::InvalidFile("too many fields").message(),
        "The file is invalid: too many fields"
    );
}

#[test]
fn error_messages_name_the_place() {
    assert_eq!(
        Error::record(RecordIndex(3), ErrorKind::EndOfRecord).message(),
        "An error occurred in record 3: End of record reached, no more fields left"
    );
    assert_eq!(
        Error::header(ErrorKind::MissingMemoFile).message(),
        "Error { kind: The memo file could not be found }"
    );
    assert_eq!(
        FieldError::without_context(ErrorKind::TooManyFields).message(),
        "An error occurred for a field: The writer expected to write more fields for the record"
    );
}
