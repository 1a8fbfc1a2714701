use std::convert::TryFrom;

use dbase::{
    Ascii, Date, DateTime, ErrorKind, FieldFlags, FieldInfo, FieldName, FieldType, FieldValue,
    Time, TrimOption, UnicodeLossy, WritableAsDbaseField,
};

fn create_temp_field_info(field_type: FieldType, len: u8) -> FieldInfo {
    FieldInfo {
        name: "".to_owned(),
        field_type,
        displacement_field: [0u8; 4],
        field_length: len,
        num_decimal_places: 0,
        flags: FieldFlags(0u8),
        autoincrement_next_val: [0u8; 5],
        autoincrement_step: 0u8,
    }
}

fn test_we_can_read_back(field_info: &FieldInfo, value: &FieldValue) {
    let mut out = Vec::<u8>::with_capacity(field_info.field_length as usize);
    let encoding = UnicodeLossy;

    value.write_as(field_info, &encoding, &mut out).unwrap();

    let read_value = FieldValue::read_from(
        out.as_slice(),
        &None,
        field_info,
        &encoding,
        TrimOption::BeginEnd,
    )
    .unwrap();
    assert_eq!(value, &read_value);
}

// The record module's copy of the field descriptor round trip.
#[test]
fn write_read_field_info() {
    let field_info = FieldInfo::new(FieldName::try_from("LICENSE").unwrap(), FieldType::Character, 30);
    let mut cursor = Vec::<u8>::with_capacity(FieldInfo::SIZE);
    field_info.write_to(&mut cursor, &Ascii).unwrap();

    let read_field_info = FieldInfo::read_from(cursor.as_slice(), 0).unwrap();

    assert_eq!(read_field_info, field_info);
}

#[test]
fn mod_write_read_field_info() {
    let field_info = FieldInfo::new(
        FieldName::try_from("LICENSE").unwrap(),
        FieldType::Character,
        30,
    );
    let mut cursor = Vec::<u8>::with_capacity(FieldInfo::SIZE);
    field_info.write_to(&mut cursor, &Ascii).unwrap();

    let read_field_info = FieldInfo::read_from(cursor.as_slice(), 0).unwrap();

    assert_eq!(read_field_info, field_info);
}

#[test]
fn types_write_read_date() {
    let date = FieldValue::from(Date {
        year: 2019,
        month: 01,
        day: 01,
    });

    let field_info = create_temp_field_info(FieldType::Date, FieldType::Date.size().unwrap());
    test_we_can_read_back(&field_info, &date);
}

#[test]
fn types_test_write_read_empty_date() {
    let date = FieldValue::Date(None);

    let field_info = create_temp_field_info(FieldType::Date, FieldType::Date.size().unwrap());
    test_we_can_read_back(&field_info, &date);
}

#[test]
fn types_write_read_ascii_char() {
    let field = FieldValue::Character(Some(String::from("Only ASCII")));

    let record_info = create_temp_field_info(FieldType::Character, 10);
    test_we_can_read_back(&record_info, &field);
}

#[test]
fn test_write_read_integer_via_enum() {
    let value = FieldValue::Integer(1457);

    let field_info = FieldInfo::new(
        FieldName::try_from("Integer").unwrap(),
        FieldType::Integer,
        FieldType::Integer.size().unwrap(),
    );

    test_we_can_read_back(&field_info, &value);
}

#[test]
fn types_test_from_julian_day_number() {
    let date = Date::julian_day_number_to_gregorian_date(2458685).unwrap();
    assert_eq!(date.year, 2019);
    assert_eq!(date.month, 07);
    assert_eq!(date.day, 20);
}

#[test]
fn types_test_to_julian_day_number() {
    let date = Date {
        year: 2019,
        month: 07,
        day: 20,
    };
    assert_eq!(date.to_julian_day_number(), 2458685);
}

#[test]
fn test_to_unix_days() {
    let date = Date {
        year: 1970,
        month: 1,
        day: 1,
    };
    assert_eq!(date.to_unix_days(), 0);
}

#[test]
fn test_to_unix_timestamp() {
    let datetime = DateTime::new(Date::new(1, 1, 1970), Time::new(1, 1, 1));
    assert_eq!(datetime.to_unix_timestamp(), 3661);
}

#[test]
fn field_write_read_date() {
    let date = FieldValue::from(Date {
        year: 2019,
        month: 01,
        day: 01,
    });

    let mut out = Vec::<u8>::new();
    let any_info = create_temp_field_info(FieldType::Date, 8);
    date.write_as(&any_info, &UnicodeLossy, &mut out).unwrap();
    assert_eq!(out.len() as u64, u64::from(FieldType::Date.size().unwrap()));

    let record_info = create_temp_field_info(FieldType::Date, out.len() as u8);

    match FieldValue::read_from(out.as_slice(), &None, &record_info, &UnicodeLossy, TrimOption::BeginEnd).unwrap() {
        FieldValue::Date(Some(read_date)) => {
            assert_eq!(read_date.year, 2019);
            assert_eq!(read_date.month, 1);
            assert_eq!(read_date.day, 1);
        }
        _ => assert!(false, "Did not read a date ??"),
    }
}

#[test]
fn field_test_write_read_empty_date() {
    let date = FieldValue::Date(None);

    let mut out = Vec::<u8>::new();
    let any_info = create_temp_field_info(FieldType::Date, 8);
    date.write_as(&any_info, &UnicodeLossy, &mut out).unwrap();
    assert_eq!(out.len() as u64, u64::from(FieldType::Date.size().unwrap()));

    let record_info = create_temp_field_info(FieldType::Date, out.len() as u8);

    match FieldValue::read_from(out.as_slice(), &None, &record_info, &UnicodeLossy, TrimOption::BeginEnd).unwrap() {
        FieldValue::Date(maybe_date) => assert!(maybe_date.is_none()),
        _ => assert!(false, "Did not read a date ??"),
    }
}

#[test]
fn field_write_read_ascii_char() {
    let field = FieldValue::Character(Some(String::from("Only ASCII")));
    let mut out = Vec::<u8>::new();
    let any_info = create_temp_field_info(FieldType::Character, 255);
    field.write_as(&any_info, &UnicodeLossy, &mut out).unwrap();

    let record_info = create_temp_field_info(FieldType::Character, out.len() as u8);

    match FieldValue::read_from(out.as_slice(), &None, &record_info, &UnicodeLossy, TrimOption::BeginEnd).unwrap() {
        FieldValue::Character(s) => {
            assert_eq!(s, Some(String::from("Only ASCII")));
        }
        _ => assert!(false, "Did not read a Character field ??"),
    }
}

#[test]
fn write_read_utf8_char() {
    let field = FieldValue::Character(Some(String::from("🤔")));

    let mut out = Vec::<u8>::new();
    let any_info = create_temp_field_info(FieldType::Character, 255);
    field.write_as(&any_info, &UnicodeLossy, &mut out).unwrap();

    let record_info = create_temp_field_info(FieldType::Character, out.len() as u8);

    match FieldValue::read_from(out.as_slice(), &None, &record_info, &UnicodeLossy, TrimOption::BeginEnd).unwrap() {
        FieldValue::Character(s) => {
            assert_eq!(s, Some(String::from("🤔")));
        }
        _ => assert!(false, "Did not read a Character field ??"),
    }
}

#[test]
fn field_test_from_julian_day_number() {
    let date = Date::julian_day_number_to_gregorian_date(2458685).unwrap();
    assert_eq!(date.year, 2019);
    assert_eq!(date.month, 07);
    assert_eq!(date.day, 20);
}

#[test]
fn field_test_to_julian_day_number() {
    let date = Date { year: 2019, month: 07, day: 20 };
    assert_eq!(date.to_julian_day_number(), 2458685);
}

#[test]
fn write_read_float() {
    // float values are held as the text written in the field
    let field = FieldValue::Float(Some(12.43f32.to_string()));

    let mut out = Vec::<u8>::new();
    let any_info = create_temp_field_info(FieldType::Float, 255);
    field.write_as(&any_info, &UnicodeLossy, &mut out).unwrap();

    let record_info = create_temp_field_info(FieldType::Float, out.len() as u8);

    match FieldValue::read_from(out.as_slice(), &None, &record_info, &UnicodeLossy, TrimOption::BeginEnd).unwrap() {
        FieldValue::Float(s) => {
            assert_eq!(s.map(|t| t.parse::<f32>().unwrap()), Some(12.43));
        }
        _ => assert!(false, "Did not read a Float field ??"),
    }
}

#[test]
fn writing_a_value_of_another_type_is_refused() {
    let info = create_temp_field_info(FieldType::Numeric, 10);
    let mut out = Vec::<u8>::new();
    let error = FieldValue::Logical(Some(true))
        .write_as(&info, &UnicodeLossy, &mut out)
        .unwrap_err();
    assert!(matches!(error, ErrorKind::IncompatibleType));
    assert!(out.is_empty());
}

#[test]
fn memo_values_cannot_be_written() {
    let info = create_temp_field_info(FieldType::Memo, 10);
    let mut out = Vec::<u8>::new();
    let error = FieldValue::Memo("text".to_string())
        .write_as(&info, &UnicodeLossy, &mut out)
        .unwrap_err();
    assert!(matches!(error, ErrorKind::Message(_)));
}

#[test]
fn logical_bytes_are_read_as_booleans() {
    let info = create_temp_field_info(FieldType::Logical, 1);
    let read = |b: u8| {
        FieldValue::read_from(&[b], &None, &info, &UnicodeLossy, TrimOption::BeginEnd).unwrap()
    };
    assert_eq!(read(b'T'), FieldValue::Logical(Some(true)));
    assert_eq!(read(b'y'), FieldValue::Logical(Some(true)));
    assert_eq!(read(b'n'), FieldValue::Logical(Some(false)));
    assert_eq!(read(b'?'), FieldValue::Logical(None));
    assert_eq!(read(b' '), FieldValue::Logical(None));
}

#[test]
fn date_text_is_year_month_day() {
    let date = Date::new(3, 4, 2021);
    assert_eq!(date.to_string(), "20210403");
}

#[test]
fn integer_fields_are_little_endian() {
    let info = create_temp_field_info(FieldType::Integer, 4);
    let mut out = Vec::<u8>::new();
    FieldValue::Integer(-2).write_as(&info, &UnicodeLossy, &mut out).unwrap();
    assert_eq!(out, vec![0xFE, 0xFF, 0xFF, 0xFF]);
}

#[test]
fn julian_day_numbers_out_of_range_have_no_date() {
    assert!(Date::julian_day_number_to_gregorian_date(-1).is_none());
    assert!(Date::julian_day_number_to_gregorian_date(536_000_001).is_none());
}

#[test]
fn time_word_round_trip() {
    let time = Time::new(12, 50, 20);
    let word = time.to_time_word();
    assert_eq!(word, 12 * 3_600_000 + 50 * 60_000 + 20 * 1_000);
    let back = Time::from_word(word).unwrap();
    assert_eq!(back, time);
    assert_eq!(Time::from_word(-999).unwrap(), Time::new(0, 0, 0));
    assert!(Time::from_word(-1000).is_err());
    assert!(Time::from_word(i32::MIN).is_err());
}

#[test]
fn numeric_text_that_is_not_a_number_is_refused() {
    let info = create_temp_field_info(FieldType::Numeric, 6);
    let err = FieldValue::read_from(b"  abc ", &None, &info, &UnicodeLossy, TrimOption::BeginEnd).unwrap_err();
    assert!(matches!(err, ErrorKind::ParseFloatError));
    for text in [" 1.5e3", "-.5   ", "  inf ", "NaN   ", "+12.  ", "  1E-2"] {
        match FieldValue::read_from(text.as_bytes(), &None, &info, &UnicodeLossy, TrimOption::BeginEnd).unwrap() {
            FieldValue::Numeric(Some(t)) => assert_eq!(t, text.trim()),
            _ => panic!("a number is read"),
        }
    }
    for text in ["1.2.3 ", "e5    ", "1e    ", ".     ", "- 1   "] {
        assert!(FieldValue::read_from(text.as_bytes(), &None, &info, &UnicodeLossy, TrimOption::BeginEnd).is_err());
    }
}
