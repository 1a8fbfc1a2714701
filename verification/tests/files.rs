use std::convert::TryFrom;

use dbase::{
    ErrorKind, FieldIndex, FieldName, FieldValue, File, Reader, ReadingOptions, Record,
    TableWriterBuilder, TrimOption,
};

fn stations() -> File {
    let table_info = TableWriterBuilder::new()
        .add_character_field(FieldName::try_from("name").unwrap(), 30)
        .add_character_field(FieldName::try_from("marker-col").unwrap(), 10)
        .add_character_field(FieldName::try_from("marker-sym").unwrap(), 15)
        .add_character_field(FieldName::try_from("line").unwrap(), 10)
        .build_table_info();
    let mut file = File::create_new(table_info).unwrap();
    let rows = [
        ("Van Dorn Street", "#0000ff", "rail-metro", "blue"),
        ("Franconia-Springfield", "#0000ff", "rail-metro", "blue"),
        ("Judiciary Sq", "#ff0000", "rail-metro", "red"),
        ("Metro Center", "#ff0000", "rail-metro", "red"),
    ];
    let mut records = Vec::new();
    for (name, col, sym, line) in rows.iter() {
        let mut record = Record::default();
        record.insert("name".to_string(), FieldValue::Character(Some(name.to_string())));
        record.insert("marker-col".to_string(), FieldValue::Character(Some(col.to_string())));
        record.insert("marker-sym".to_string(), FieldValue::Character(Some(sym.to_string())));
        record.insert("line".to_string(), FieldValue::Character(Some(line.to_string())));
        records.push(record);
    }
    file.append_records(&records).unwrap();
    file
}

#[test]
fn file_fields_are_found_by_name_regardless_of_case() {
    let file = stations();
    assert_eq!(file.num_records(), 4);
    assert_eq!(file.field_index("name").map(|i| i.0), Some(0));
    assert_eq!(file.field_index("MARKER-SYM").map(|i| i.0), Some(2));
    assert!(file.field_index("nope").is_none());
}

#[test]
fn file_fields_read_out_of_order() {
    let mut file = stations();
    let name_idx = file.field_index("name").unwrap();
    let marker_color_idx = file.field_index("marker-col").unwrap();
    let mut rh = file.record(2).unwrap();
    let marker_color = rh.field(marker_color_idx).unwrap().read().unwrap();
    assert_eq!(marker_color, FieldValue::Character(Some("#ff0000".to_string())));
    let name = rh.field(name_idx).unwrap().read_as::<String>().unwrap();
    assert_eq!(name, "Judiciary Sq");
}

#[test]
fn file_field_write_then_read() {
    let mut file = stations();
    let marker_color_idx = file.field_index("marker-col").unwrap();
    let name_idx = file.field_index("name").unwrap();
    {
        let mut rh = file.record(2).unwrap();
        let mut fh = rh.field(marker_color_idx).unwrap();
        fh.write(&FieldValue::Character(Some("#00ff00".to_string()))).unwrap();
        assert_eq!(fh.read().unwrap(), FieldValue::Character(Some("#00ff00".to_string())));
        let mut fh = rh.field(name_idx).unwrap();
        fh.write(&FieldValue::Character(Some("Paris".to_string()))).unwrap();
        assert_eq!(fh.read().unwrap(), FieldValue::Character(Some("Paris".to_string())));
    }
    let mut rh = file.record(2).unwrap();
    let record = rh.read().unwrap();
    assert_eq!(record.get("name"), Some(&FieldValue::Character(Some("Paris".to_string()))));
    assert_eq!(record.get("line"), Some(&FieldValue::Character(Some("red".to_string()))));
    // The other records are untouched.
    let mut rh = file.record(3).unwrap();
    assert_eq!(
        rh.read_field(name_idx).unwrap(),
        FieldValue::Character(Some("Metro Center".to_string()))
    );
}

#[test]
fn file_field_writes_longer_than_the_field_are_refused() {
    let mut file = stations();
    let mut rh = file.record(0).unwrap();
    let error = rh
        .write_field(FieldIndex(1), &FieldValue::Character(Some("much too long for it".to_string())))
        .unwrap_err();
    assert!(matches!(error.kind(), ErrorKind::Message(_)));
    assert_eq!(
        rh.read_field(FieldIndex(1)).unwrap(),
        FieldValue::Character(Some("#0000ff".to_string()))
    );
}

#[test]
fn file_reading_a_missing_field_is_end_of_record() {
    let mut file = stations();
    let mut rh = file.record(0).unwrap();
    assert!(rh.field(FieldIndex(4)).is_none());
    let error = rh.read_field(FieldIndex(4)).unwrap_err();
    assert!(matches!(error.kind(), ErrorKind::EndOfRecord));
}

#[test]
fn file_records_past_the_last_do_not_exist() {
    let mut file = stations();
    assert!(file.record(4).is_none());
    let mut iter = file.records();
    let mut count = 0;
    while let Some(record) = iter.next() {
        assert!(!record.is_deleted().unwrap());
        count += 1;
    }
    assert_eq!(count, 4);
}

#[test]
fn file_deleted_records_are_reported() {
    let mut bytes = stations().into_bytes();
    let record_size = 1 + 30 + 10 + 15 + 10;
    let first = 32 + 4 * 32 + 1;
    bytes[first] = b'*';
    let mut file = File::open(bytes).unwrap();
    assert!(file.record(0).unwrap().is_deleted().unwrap());
    assert!(!file.record(1).unwrap().is_deleted().unwrap());
    assert_eq!(file.bytes()[first + record_size], b' ');
}

#[test]
fn file_append_record_then_reopen() {
    let mut file = stations();
    let mut new_record = Record::default();
    new_record.insert("name".to_string(), FieldValue::Character(Some("Dalaran".to_string())));
    new_record.insert("marker-col".to_string(), FieldValue::Character(Some("#0f0f0f".to_string())));
    new_record.insert("marker-sym".to_string(), FieldValue::Character(Some("underground".to_string())));
    new_record.insert("line".to_string(), FieldValue::Character(Some("purple".to_string())));
    file.append_record(&new_record).unwrap();
    assert_eq!(file.num_records(), 5);
    let record = file.record(4).unwrap().read().unwrap();
    assert_eq!(record, new_record);

    let mut file = File::open(file.into_bytes()).unwrap();
    assert_eq!(file.num_records(), 5);
    let record = file.record(4).unwrap().read().unwrap();
    assert_eq!(record, new_record);
}

#[test]
fn file_bytes_are_read_by_a_reader() {
    let file = stations();
    let reader = Reader::new(file.into_bytes()).unwrap();
    let records = reader.read().unwrap();
    assert_eq!(records.len(), 4);
    assert_eq!(
        records[3].get("name"),
        Some(&FieldValue::Character(Some("Metro Center".to_string())))
    );
}

#[test]
fn file_trim_options_apply_to_character_fields() {
    let mut file = stations();
    {
        let mut rh = file.record(0).unwrap();
        rh.write_field(FieldIndex(3), &FieldValue::Character(Some("  blue".to_string()))).unwrap();
        assert_eq!(
            rh.read_field(FieldIndex(3)).unwrap(),
            FieldValue::Character(Some("blue".to_string()))
        );
    }
    file.set_options(ReadingOptions::default_options().character_trim(TrimOption::End));
    let rh = file.record(0).unwrap();
    assert_eq!(
        rh.read_field(FieldIndex(3)).unwrap(),
        FieldValue::Character(Some("  blue".to_string()))
    );
}

#[test]
fn file_written_record_bytes_are_appended() {
    let mut file = stations();
    let mut bytes = vec![b' '];
    bytes.extend_from_slice(format!("{:<30}{:<10}{:<15}{:<10}", "Pentagon", "#ffff00", "rail-metro", "yellow").as_bytes());
    file.append_written_record(&bytes).unwrap();
    assert_eq!(file.num_records(), 5);
    let record = file.record(4).unwrap().read().unwrap();
    assert_eq!(record.get("name"), Some(&FieldValue::Character(Some("Pentagon".to_string()))));
    assert_eq!(record.get("line"), Some(&FieldValue::Character(Some("yellow".to_string()))));
}

#[test]
fn file_record_write_then_read() {
    let mut file = stations();
    let mut record = Record::default();
    record.insert("name".to_string(), FieldValue::Character(Some("Pentagon".to_string())));
    record.insert("marker-col".to_string(), FieldValue::Character(Some("#ffff00".to_string())));
    record.insert("marker-sym".to_string(), FieldValue::Character(Some("rail-metro".to_string())));
    record.insert("line".to_string(), FieldValue::Character(Some("yellow".to_string())));
    file.record(1).unwrap().write(&record).unwrap();
    let mut r = file.record(1).unwrap();
    assert!(!r.is_deleted().unwrap());
    assert_eq!(r.read().unwrap(), record);
    assert_eq!(file.num_records(), 4);
    let name: FieldValue = file.record(1).unwrap().field(FieldIndex(0)).unwrap().read_as().unwrap();
    assert_eq!(name, FieldValue::Character(Some("Pentagon".to_string())));
}

#[test]
fn file_appending_no_record_changes_nothing() {
    let mut file = stations();
    let before = file.bytes().to_vec();
    file.append_records::<Record>(&[]).unwrap();
    assert_eq!(file.bytes().to_vec(), before);
}

#[test]
fn file_append_records_failure_names_the_record_counting_from_one() {
    let mut file = stations();
    let mut good = Record::default();
    good.insert("name".to_string(), FieldValue::Character(Some("A".to_string())));
    good.insert("marker-col".to_string(), FieldValue::Character(Some("B".to_string())));
    good.insert("marker-sym".to_string(), FieldValue::Character(Some("C".to_string())));
    good.insert("line".to_string(), FieldValue::Character(Some("D".to_string())));
    let bad = Record::default();
    let error = file.append_records(&[good.clone(), bad]).unwrap_err();
    assert_eq!(file.num_records(), 5);
    assert_eq!(error.record_index().map(|i| i.0), Some(6));
    assert_eq!(file.record(4).unwrap().read().unwrap(), good);
}

#[test]
fn field_names_longer_than_eleven_bytes_are_refused() {
    assert!(FieldName::try_from("Small Name").is_ok());
    assert_eq!(
        FieldName::try_from("éééééé").unwrap_err(),
        "FieldName byte representation cannot exceed 11 bytes"
    );
}
