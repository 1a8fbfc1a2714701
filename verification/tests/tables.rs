use std::convert::{TryFrom, TryInto};

use dbase::{
    Date, DateTime, ErrorKind, FieldError, FieldIterator, FieldName, FieldValue, FieldWriter, File,
    ReadableRecord, Reader, Record, TableWriterBuilder, Time, WritableRecord,
};

#[derive(Debug, PartialEq, Clone)]
struct Album {
    artist: String,
    name: String,
    released: Date,
    // The playtime in seconds, as the text of a number with two decimals.
    playtime: String,
    available: bool,
}

impl ReadableRecord for Album {
    fn read_using(field_iterator: &mut FieldIterator<'_>) -> Result<Self, FieldError> {
        let artist = field_iterator.read_next_field_as::<String>()?.value;
        let name = field_iterator.read_next_field_as::<String>()?.value;
        let released = field_iterator.read_next_field_as::<Date>()?.value;
        let playtime = match field_iterator.read_next_field_as::<FieldValue>()?.value {
            FieldValue::Numeric(Some(text)) => text,
            _ => panic!("the playtime is a number"),
        };
        let available = field_iterator.read_next_field_as::<bool>()?.value;
        Ok(Self { artist, name, released, playtime, available })
    }
}

impl WritableRecord for Album {
    fn write_using(&self, field_writer: &mut FieldWriter<'_>) -> Result<(), FieldError> {
        field_writer.write_next_field_value(&self.artist)?;
        field_writer.write_next_field_value(&self.name)?;
        field_writer.write_next_field_value(&self.released)?;
        field_writer.write_next_field_value(&FieldValue::Numeric(Some(self.playtime.clone())))?;
        field_writer.write_next_field_value(&self.available)?;
        Ok(())
    }
}

#[test]
fn from_scratch_dbase() {
    let writer = TableWriterBuilder::new()
        .add_character_field("Artist".try_into().unwrap(), 50)
        .add_character_field("Name".try_into().unwrap(), 50)
        .add_date_field("Released".try_into().unwrap())
        .add_numeric_field("Playtime".try_into().unwrap(), 10, 2)
        .add_logical_field(FieldName::try_from("Available").unwrap())
        .build_with_dest(Vec::new());

    let records = vec![
        Album {
            artist: "Fallujah".to_string(),
            name: "The Flesh Prevails".to_string(),
            released: Date::new(22, 6, 2014),
            playtime: "2481.00".to_string(),
            available: false,
        },
        Album {
            artist: "Beyond Creation".to_string(),
            name: "Earthborn Evolution".to_string(),
            released: Date::new(24, 10, 2014),
            playtime: "2481.00".to_string(),
            available: true,
        },
    ];

    let bytes = writer.write_records(&records).unwrap();

    let reader = Reader::new(bytes).unwrap();
    let read_records = reader.read_as::<Album>().unwrap();

    assert_eq!(read_records, records);
}

#[test]
fn from_scratch_fox_pro_record() {
    let writer = TableWriterBuilder::new()
        .add_integer_field(FieldName::try_from("integer").unwrap())
        .add_double_field(FieldName::try_from("double").unwrap())
        .add_currency_field(FieldName::try_from("currency").unwrap())
        .add_datetime_field(FieldName::try_from("datetime").unwrap())
        .build_with_dest(Vec::new());

    let mut record = Record::default();
    record.insert(String::from("integer"), FieldValue::Integer(17));
    record.insert(String::from("double"), FieldValue::Double(54621.154f64.to_bits()));
    record.insert(String::from("currency"), FieldValue::Currency(4567.134f64.to_bits()));
    record.insert(
        String::from("datetime"),
        FieldValue::DateTime(DateTime::new(Date::new(01, 06, 2006), Time::new(12, 50, 20))),
    );

    let records = vec![record];
    let bytes = writer.write_records(&records).unwrap();

    let reader = Reader::new(bytes).unwrap();
    let read_records = reader.read().unwrap();
    assert_eq!(read_records, records);
}

#[derive(Clone, Debug, PartialEq)]
struct FoxProRecord {
    datetime: DateTime,
}

impl ReadableRecord for FoxProRecord {
    fn read_using(field_iterator: &mut FieldIterator<'_>) -> Result<Self, FieldError> {
        Ok(Self { datetime: field_iterator.read_next_field_as::<DateTime>()?.value })
    }
}

impl WritableRecord for FoxProRecord {
    fn write_using(&self, field_writer: &mut FieldWriter<'_>) -> Result<(), FieldError> {
        field_writer.write_next_field_value(&self.datetime)
    }
}

#[test]
fn from_scratch_fox_pro_struct_record() {
    let writer = TableWriterBuilder::new()
        .add_datetime_field(FieldName::try_from("datetime").unwrap())
        .build_with_dest(Vec::new());

    let records = vec![FoxProRecord {
        datetime: DateTime::new(Date::new(12, 02, 1999), Time::new(21, 20, 35)),
    }];

    let bytes = writer.write_records(&records).unwrap();
    let reader = Reader::new(bytes).unwrap();
    assert_eq!(reader.read_as::<FoxProRecord>().unwrap(), records);
}

#[derive(Clone, Debug, PartialEq)]
struct User {
    first_name: String,
    last_name: String,
}

impl ReadableRecord for User {
    fn read_using(field_iterator: &mut FieldIterator<'_>) -> Result<Self, FieldError> {
        Ok(Self {
            first_name: field_iterator.read_next_field_as::<String>()?.value,
            last_name: field_iterator.read_next_field_as::<String>()?.value,
        })
    }
}

impl WritableRecord for User {
    fn write_using(&self, field_writer: &mut FieldWriter<'_>) -> Result<(), FieldError> {
        field_writer.write_next_field_value(&self.first_name)?;
        field_writer.write_next_field_value(&self.last_name)?;
        Ok(())
    }
}

fn users() -> Vec<User> {
    vec![
        User {
            first_name: "Ferrys".to_string(),
            last_name: "Rust".to_string(),
        },
        User {
            first_name: "Alex".to_string(),
            last_name: "Rider".to_string(),
        },
        User {
            first_name: "Jamie".to_string(),
            last_name: "Oliver".to_string(),
        },
    ]
}

#[test]
fn the_classical_user_record_example() {
    let users = users();

    let writer = TableWriterBuilder::new()
        .add_character_field("First Name".try_into().unwrap(), 50)
        .add_character_field("Last Name".try_into().unwrap(), 50)
        .build_with_dest(Vec::new());

    let bytes = writer.write_records(&users).unwrap();

    let reader = Reader::new(bytes).unwrap();
    let read_records = reader.read_as::<User>().unwrap();

    assert_eq!(read_records, users);
}

#[test]
fn test_file_classical_user_record_example() {
    let users = users();

    let table_info = TableWriterBuilder::new()
        .add_character_field("First Name".try_into().unwrap(), 50)
        .add_character_field("Last Name".try_into().unwrap(), 50)
        .build_table_info();

    let mut file = File::create_new(table_info).unwrap();
    file.append_records(&users).unwrap();

    let reader = Reader::new(file.into_bytes()).unwrap();
    let read_records = reader.read_as::<User>().unwrap();
    assert_eq!(read_records, users);
}

#[test]
fn writing_one_record_of_one_field_gives_117_bytes() {
    let writer = TableWriterBuilder::new()
        .add_character_field(FieldName::try_from("First Name").unwrap(), 50)
        .build_with_dest(Vec::new());
    let records = vec![User {
        first_name: "Yoshi".to_owned(),
        last_name: String::new(),
    }];
    // A record with a value per field of the table: here only the first.
    struct FirstName<'a>(&'a User);
    impl<'a> WritableRecord for FirstName<'a> {
        fn write_using(&self, field_writer: &mut FieldWriter<'_>) -> Result<(), FieldError> {
            field_writer.write_next_field_value(&self.0.first_name)
        }
    }
    let first_names: Vec<FirstName> = records.iter().map(FirstName).collect();
    let bytes = writer.write_records(&first_names).unwrap();
    assert_eq!(bytes.len(), 117);
    assert_eq!(bytes[0], 0x03);
    assert_eq!(bytes[4], 1);
    assert_eq!(bytes[8], 65);
    assert_eq!(bytes[10], 51);
    assert_eq!(bytes[64], 0x0D);
    assert_eq!(bytes[65], b' ');
    assert_eq!(&bytes[66..71], b"Yoshi");
    assert_eq!(bytes[116], 0x1A);
}

#[test]
fn records_missing_fields_are_refused() {
    let writer = TableWriterBuilder::new()
        .add_character_field(FieldName::try_from("First Name").unwrap(), 10)
        .add_character_field(FieldName::try_from("Last Name").unwrap(), 10);
    struct OnlyFirst;
    impl WritableRecord for OnlyFirst {
        fn write_using(&self, field_writer: &mut FieldWriter<'_>) -> Result<(), FieldError> {
            field_writer.write_next_field_value(&"x".to_string())
        }
    }
    let error = writer.build_with_dest(Vec::new()).write_records(&[OnlyFirst]).unwrap_err();
    assert!(matches!(error.kind(), ErrorKind::NotEnoughFields));
    assert_eq!(error.record_index().map(|i| i.0), Some(0));
}

#[test]
fn records_with_too_many_fields_are_refused() {
    struct TwoValues;
    impl WritableRecord for TwoValues {
        fn write_using(&self, field_writer: &mut FieldWriter<'_>) -> Result<(), FieldError> {
            field_writer.write_next_field_value(&"a".to_string())?;
            field_writer.write_next_field_value(&"b".to_string())
        }
    }
    let writer = TableWriterBuilder::new()
        .add_character_field(FieldName::try_from("Only").unwrap(), 10)
        .build_with_dest(Vec::new());
    let error = writer.write_records(&[TwoValues]).unwrap_err();
    assert!(matches!(error.kind(), ErrorKind::TooManyFields));
}

#[test]
fn record_values_are_found_by_name() {
    let writer = TableWriterBuilder::new()
        .add_character_field(FieldName::try_from("name").unwrap(), 20)
        .add_logical_field(FieldName::try_from("ok").unwrap())
        .build_with_dest(Vec::new());
    let mut record = Record::default();
    record.insert("ok".to_string(), FieldValue::Logical(Some(true)));
    record.insert("name".to_string(), FieldValue::Character(Some("linestring1".to_string())));
    let bytes = writer.write_records(&[record]).unwrap();
    let reader = Reader::new(bytes).unwrap();
    let read = reader.read().unwrap();
    assert_eq!(read[0].get("name"), Some(&FieldValue::Character(Some("linestring1".to_string()))));
    assert_eq!(read[0].get("ok"), Some(&FieldValue::Logical(Some(true))));
}

#[test]
fn a_record_without_a_field_value_is_refused() {
    let writer = TableWriterBuilder::new()
        .add_character_field(FieldName::try_from("name").unwrap(), 10)
        .build_with_dest(Vec::new());
    let record = Record::default();
    let error = writer.write_records(&[record]).unwrap_err();
    assert!(matches!(error.kind(), ErrorKind::Message(_)));
}

#[test]
fn a_too_short_table_is_refused() {
    let error = Reader::new(vec![0x03; 10]).unwrap_err();
    assert!(matches!(error.kind(), ErrorKind::UnexpectedEof));
    assert!(error.record_index().is_none());
}

#[test]
fn an_offset_too_small_for_the_header_is_refused() {
    let mut bytes = vec![0u8; 40];
    bytes[0] = 0x03;
    bytes[8] = 10;
    let error = Reader::new(bytes).unwrap_err();
    assert!(matches!(error.kind(), ErrorKind::InvalidFile(_)));
}

#[test]
fn a_truncated_record_is_an_unexpected_end() {
    let writer = TableWriterBuilder::new()
        .add_character_field(FieldName::try_from("name").unwrap(), 10)
        .build_with_dest(Vec::new());
    let mut record = Record::default();
    record.insert("name".to_string(), FieldValue::Character(Some("abc".to_string())));
    let mut bytes = writer.write_records(&[record]).unwrap();
    bytes.truncate(bytes.len() - 5);
    let reader = Reader::new(bytes).unwrap();
    let error = reader.read().unwrap_err();
    assert!(matches!(error.kind(), ErrorKind::UnexpectedEof));
    assert_eq!(error.record_index().map(|i| i.0), Some(0));
}

#[test]
fn iterating_over_records() {
    let users = users();
    let writer = TableWriterBuilder::new()
        .add_character_field("First Name".try_into().unwrap(), 50)
        .add_character_field("Last Name".try_into().unwrap(), 50)
        .build_with_dest(Vec::new());
    let reader = Reader::new(writer.write_records(&users).unwrap()).unwrap();
    let mut iter = reader.iter_records_as::<User>();
    let mut read = Vec::new();
    while let Some(user) = iter.next() {
        read.push(user.unwrap());
    }
    assert_eq!(read, users);
}

#[test]
fn a_writer_made_from_a_reader_keeps_the_fields() {
    let users = users();
    let writer = TableWriterBuilder::new()
        .add_character_field("First Name".try_into().unwrap(), 50)
        .add_character_field("Last Name".try_into().unwrap(), 50)
        .build_with_dest(Vec::new());
    let reader = Reader::new(writer.write_records(&users).unwrap()).unwrap();
    let records = reader.read().unwrap();
    // The layout keeps the count of records of the table it was read from.
    let mut table_info = reader.into_table_info();
    assert_eq!(table_info.header.num_records, 3);
    table_info.header.num_records = 0;
    let writer = TableWriterBuilder::from_table_info(table_info).build_with_dest(Vec::new());
    let bytes = writer.write_records(&records).unwrap();
    let reader = Reader::new(bytes).unwrap();
    assert_eq!(reader.read().unwrap(), records);
    assert_eq!(reader.read_as::<User>().unwrap(), users);
}

fn one_record_table(builder: TableWriterBuilder, values: Vec<(&str, FieldValue)>) -> Vec<u8> {
    let writer = builder.build_with_dest(Vec::new());
    let mut record = Record::default();
    for (name, value) in values {
        record.insert(name.to_string(), value);
    }
    writer.write_records(&[record]).unwrap()
}

#[test]
fn an_empty_logical_field_reads_as_no_value() {
    let mut bytes = one_record_table(
        TableWriterBuilder::new().add_logical_field(FieldName::try_from("flag").unwrap()),
        vec![("flag", FieldValue::Logical(Some(true)))],
    );
    // the descriptor now says the field is empty, and the record holds the flag only
    bytes[32 + 16] = 0;
    bytes[10] = 1;
    let reader = Reader::new(bytes).unwrap();
    let records = reader.read().unwrap();
    assert_eq!(records[0].get("flag"), Some(&FieldValue::Logical(None)));
}

#[test]
fn out_of_range_date_times_are_errors_or_values_not_panics() {
    let mut bytes = one_record_table(
        TableWriterBuilder::new().add_datetime_field(FieldName::try_from("at").unwrap()),
        vec![("at", FieldValue::DateTime(DateTime::new(Date::new(1, 1, 2000), Time::new(0, 0, 0))))],
    );
    let start = bytes.len() - 9;
    for b in bytes[start..start + 8].iter_mut() {
        *b = 0xff;
    }
    let reader = Reader::new(bytes).unwrap();
    let _ = reader.read();
}

#[test]
fn a_memo_field_without_memo_file_is_an_error() {
    let mut bytes = one_record_table(
        TableWriterBuilder::new().add_character_field(FieldName::try_from("note").unwrap(), 10),
        vec![("note", FieldValue::Character(Some("12".to_string())))],
    );
    // the field is now a memo field pointing at block 12
    bytes[32 + 11] = b'M';
    let reader = Reader::new(bytes).unwrap();
    assert!(reader.read().is_err());
}

#[test]
fn a_field_count_larger_than_the_table_is_refused() {
    let mut bytes = one_record_table(
        TableWriterBuilder::new().add_character_field(FieldName::try_from("name").unwrap(), 10),
        vec![("name", FieldValue::Character(Some("abc".to_string())))],
    );
    // the offset of the first record claims many more descriptors than there are
    bytes[8] = 0xff;
    bytes[9] = 0x7f;
    assert!(Reader::new(bytes).is_err());
}

#[test]
fn written_records_are_appended_only_when_complete() {
    let fields = vec![
        dbase::FieldInfo::new(FieldName::try_from("name").unwrap(), dbase::FieldType::Character, 5),
        dbase::FieldInfo::new(FieldName::try_from("ok").unwrap(), dbase::FieldType::Logical, 1),
    ];
    let encoding = dbase::DynEncoding::from(dbase::UnicodeLossy);

    let mut partial = FieldWriter::new(Vec::new(), &fields, encoding);
    partial.write_deletion_flag();
    partial.write_next_field_value(&"abc".to_string()).unwrap();
    assert_eq!(partial.next_field_name(), Some("ok"));
    assert_eq!(partial.into_written_record(), None);

    let mut complete = FieldWriter::new(Vec::new(), &fields, encoding);
    complete.write_deletion_flag();
    complete.write_next_field_value(&"abc".to_string()).unwrap();
    complete.write_next_field_value(&true).unwrap();
    let written = complete.into_written_record();
    assert_eq!(written, Some(b" abc  t".to_vec()));

    let mut writer = TableWriterBuilder::new()
        .add_character_field(FieldName::try_from("name").unwrap(), 5)
        .add_logical_field(FieldName::try_from("ok").unwrap())
        .build_with_dest(Vec::new());
    let error = writer.append_written_record(None).unwrap_err();
    assert!(matches!(error.kind(), ErrorKind::NotEnoughFields));
    assert_eq!(writer.num_records(), 0);
    writer.append_written_record(written).unwrap();
    assert_eq!(writer.num_records(), 1);
    let reader = Reader::new(writer.finalize().unwrap()).unwrap();
    let records = reader.read().unwrap();
    assert_eq!(records[0].get("name"), Some(&FieldValue::Character(Some("abc".to_string()))));
    assert_eq!(records[0].get("ok"), Some(&FieldValue::Logical(Some(true))));
}

#[test]
fn record_values_can_be_changed_in_place() {
    let mut record = Record::default();
    record.insert("name".to_string(), FieldValue::Character(Some("abc".to_string())));
    record.insert("n".to_string(), FieldValue::Integer(1));
    if let Some(v) = record.get_mut("n") {
        *v = FieldValue::Integer(2);
    }
    assert!(record.get_mut("missing").is_none());
    assert_eq!(record.get("n"), Some(&FieldValue::Integer(2)));
    assert_eq!(record.get("name"), Some(&FieldValue::Character(Some("abc".to_string()))));
}

#[test]
fn iterating_over_records_by_name() {
    let users = users();
    let writer = TableWriterBuilder::new()
        .add_character_field("First Name".try_into().unwrap(), 50)
        .add_character_field("Last Name".try_into().unwrap(), 50)
        .build_with_dest(Vec::new());
    let reader = Reader::new(writer.write_records(&users).unwrap()).unwrap();
    let all = reader.read().unwrap();
    let mut iter = reader.iter_records();
    let mut read = Vec::new();
    while let Some(record) = iter.next() {
        read.push(record.unwrap());
    }
    assert_eq!(read, all);
}
