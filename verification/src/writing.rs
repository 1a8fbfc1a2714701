//! Writing of records: each field value padded or cut to its field length,
//! and the whole table (header, field descriptors, records).

use crate::encoding::{Ascii, DynEncoding, Encoding, UnicodeLossy};
use crate::error::{Error, ErrorKind, FieldError, FieldIndex, RecordIndex};
use crate::field::{
    deletion_flag_name, spec_field_info_bytes, sum_lengths, FieldFlags, FieldInfo, FieldName,
    MAX_NUM_FIELDS,
};
use crate::header::{spec_header_bytes, CodePageMark, Header, Version};
use crate::reading::{Reader, TableInfo, TERMINATOR_VALUE};
use crate::record::index_of_name;
use crate::memo::first_index_of;
use crate::types::FieldType;
use crate::value::{spec_written_value, write_failure_of, ValueModel, WritableAsDbaseField, WriteFailure};
use vstd::utf8::encode_utf8;
use vstd::prelude::*;

verus! {

/// `n` copies of the byte `b`.
pub open spec fn repeat_byte(b: u8, n: nat) -> Seq<u8> {
    Seq::new(n, |i: int| b)
}

/// A number's text with the decimals the field asks for: a `.` is added if
/// there is none, then zeros until `places` digits follow the `.`.
pub open spec fn spec_add_decimals(w: Seq<u8>, places: u8) -> Seq<u8> {
    let dot = first_index_of(w, 46, 0);
    if dot >= w.len() {
        w + seq![46u8] + repeat_byte(48, places as nat)
    } else {
        let present = w.len() - dot - 1;
        if present >= places {
            w
        } else {
            w + repeat_byte(48, (places - present) as nat)
        }
    }
}

/// The bytes stored in a field of length `info.field_length` for a value
/// written as `w`: a number shorter than the field gets its decimals, then
/// the bytes are padded with spaces, or cut, to the field length.
pub open spec fn spec_field_bytes(w: Seq<u8>, info: FieldInfo) -> Seq<u8> {
    let len = info.field_length as int;
    let v = if w.len() < len && (info.field_type == FieldType::Numeric || info.field_type
        == FieldType::Float) {
        spec_add_decimals(w, info.num_decimal_places)
    } else {
        w
    };
    if v.len() >= len {
        v.subrange(0, len)
    } else {
        v + repeat_byte(32, (len - v.len()) as nat)
    }
}

/// Appends `n` copies of `b`.
fn push_repeat(dst: &mut Vec<u8>, b: u8, n: usize)
    ensures
        final(dst)@ == old(dst)@ + repeat_byte(b, n as nat),
{
    let ghost start = dst@;
    let mut i: usize = 0;
    while i < n
        invariant
            0 <= i <= n,
            dst@ == start + repeat_byte(b, i as nat),
        decreases n - i,
    {
        dst.push(b);
        assert(repeat_byte(b, i as nat).push(b) =~= repeat_byte(b, (i + 1) as nat));
        i = i + 1;
    }
}

/// Adds the decimals a number asks for (see [`spec_add_decimals`]).
fn add_decimals(w: &mut Vec<u8>, places: u8)
    ensures
        final(w)@ == spec_add_decimals(old(w)@, places),
{
    let mut dot: usize = 0;
    while dot < w.len() && w[dot] != 46
        invariant
            0 <= dot <= w@.len(),
            first_index_of(w@, 46, 0) == first_index_of(w@, 46, dot as int),
        decreases w@.len() - dot,
    {
        dot = dot + 1;
    }
    assert(dot == first_index_of(w@, 46, dot as int));
    if dot >= w.len() {
        w.push(46u8);
        push_repeat(w, 48, places as usize);
    } else {
        let present = w.len() - dot - 1;
        if present < places as usize {
            push_repeat(w, 48, places as usize - present);
        }
    }
}

/// Appends to `dst` the bytes stored in the field for the value written as
/// `w` (see [`spec_field_bytes`]).
pub fn push_field_bytes(dst: &mut Vec<u8>, w: Vec<u8>, info: &FieldInfo)
    ensures
        final(dst)@ == old(dst)@ + spec_field_bytes(w@, *info),
{
    let len = info.field_length as usize;
    let mut v = w;
    if v.len() < len && (info.field_type == FieldType::Numeric || info.field_type == FieldType::Float) {
        add_decimals(&mut v, info.num_decimal_places);
    }
    let ghost start = dst@;
    if v.len() >= len {
        let mut i: usize = 0;
        while i < len
            invariant
                0 <= i <= len <= v@.len(),
                dst@ == start + v@.subrange(0, i as int),
            decreases len - i,
        {
            dst.push(v[i]);
            assert(v@.subrange(0, i + 1) =~= v@.subrange(0, i as int).push(v@[i as int]));
            i = i + 1;
        }
    } else {
        let mut i: usize = 0;
        while i < v.len()
            invariant
                0 <= i <= v@.len(),
                dst@ == start + v@.subrange(0, i as int),
            decreases v@.len() - i,
        {
            dst.push(v[i]);
            assert(v@.subrange(0, i + 1) =~= v@.subrange(0, i as int).push(v@[i as int]));
            i = i + 1;
        }
        assert(v@.subrange(0, v@.len() as int) =~= v@);
        let pad = len - v.len();
        push_repeat(dst, 32, pad);
    }
}

/// Struct that knows how to write a record
///
/// You give it the values you want to write and it writes them.
/// The order and type of value must match the one given when creating the
/// [TableWriter](struct.TableWriter.html), otherwise an error will occur.
pub struct FieldWriter<'a> {
    pub(crate) dst: Vec<u8>,
    pub(crate) fields_info: &'a [FieldInfo],
    pub(crate) next_index: usize,
    pub(crate) encoding: DynEncoding,
}

impl<'a> FieldWriter<'a> {
    /// The bytes written so far.
    pub closed spec fn spec_written(&self) -> Seq<u8> {
        self.dst@
    }

    /// Index of the next field to write.
    pub closed spec fn spec_next(&self) -> int {
        self.next_index as int
    }

    /// The fields of the records.
    pub closed spec fn spec_fields(&self) -> Seq<FieldInfo> {
        self.fields_info@
    }

    /// The encoding of the strings.
    pub closed spec fn spec_encoding(&self) -> DynEncoding {
        self.encoding
    }

    /// A writer of the fields `fields_info` into `dst`, starting at the first field.
    pub fn new(dst: Vec<u8>, fields_info: &'a [FieldInfo], encoding: DynEncoding) -> (r: Self)
        ensures
            r.spec_written() == dst@,
            r.spec_next() == 0,
            r.spec_fields() == fields_info@,
            r.spec_encoding() == encoding,
    {
        Self { dst, fields_info, next_index: 0, encoding }
    }

    /// The bytes written, out of the writer.
    pub fn into_bytes(self) -> (r: Vec<u8>)
        ensures
            r@ == self.spec_written(),
    {
        self.dst
    }

    /// Returns the name of the next field that is expected to be written
    pub fn next_field_name(&self) -> (r: Option<&'a str>)
        ensures
            self.spec_next() < self.spec_fields().len() ==> r is Some && r->0@ == self.spec_fields()[self.spec_next()].name@,
            self.spec_next() >= self.spec_fields().len() ==> r is None,
    {
        if self.next_index < self.fields_info.len() {
            Some(self.fields_info[self.next_index].name.as_str())
        } else {
            None
        }
    }

    /// Writes the given `field_value` to the record.
    ///
    /// # Notes
    ///
    /// If the corresponding `FieldType` of the the field_value type (`T`) does not
    /// match the expected type an error is returned.
    ///
    /// Values for which the number of bytes written would exceed the specified field_length
    /// (if it had to be specified) will be truncated
    ///
    /// Trying to write more values than was declared when creating the writer will cause
    /// a `TooManyFields` error.
    pub fn write_next_field_value<T: WritableAsDbaseField>(&mut self, field_value: &T) -> (r: Result<(), FieldError>)
        ensures
            final(self).spec_fields() == old(self).spec_fields(),
            final(self).spec_encoding() == old(self).spec_encoding(),
            old(self).spec_next() >= old(self).spec_fields().len() ==> (r matches Err(e) && e.kind
                == ErrorKind::TooManyFields) && *final(self) == *old(self),
            old(self).spec_next() < old(self).spec_fields().len() ==> {
                let info = old(self).spec_fields()[old(self).spec_next()];
                let w = spec_written_value(
                    old(self).spec_encoding(),
                    field_value.spec_value(),
                    info.field_type,
                );
                &&& final(self).spec_next() == old(self).spec_next() + 1
                &&& (r is Ok <==> w is Ok)
                &&& r is Ok ==> final(self).spec_written() == old(self).spec_written()
                    + spec_field_bytes(w->Ok_0, info)
                &&& r matches Err(e) ==> final(self).spec_written() == old(self).spec_written()
                    && Some(w->Err_0) == write_failure_of(e.kind)
            },
    {
        if self.next_index >= self.fields_info.len() {
            return Err(FieldError::without_context(ErrorKind::TooManyFields));
        }
        let index = self.next_index;
        let field_info = &self.fields_info[index];
        self.next_index = index + 1;
        let mut buffer: Vec<u8> = Vec::new();
        match field_value.write_as(field_info, &self.encoding, &mut buffer) {
            Ok(()) => {
                assert(buffer@ =~= Seq::<u8>::empty() + buffer@);
                push_field_bytes(&mut self.dst, buffer, field_info);
                Ok(())
            },
            Err(kind) => Err(
                FieldError::from_info(FieldIndex(index), &field_info.name, field_info.field_type, kind),
            ),
        }
    }

    /// Writes the deletion flag of a record that is not deleted (a space).
    pub fn write_deletion_flag(&mut self)
        ensures
            final(self).spec_written() == old(self).spec_written().push(32u8),
            final(self).spec_next() == old(self).spec_next(),
            final(self).spec_fields() == old(self).spec_fields(),
            final(self).spec_encoding() == old(self).spec_encoding(),
    {
        self.dst.push(32u8);
    }

    /// Whether every field of the record was written.
    pub fn all_fields_were_written(&self) -> (r: bool)
        ensures
            r == (self.spec_next() >= self.spec_fields().len()),
            0 <= self.spec_next(),
    {
        self.next_index >= self.fields_info.len()
    }

    /// The bytes written, once every field of the record was written;
    /// `None` otherwise.
    pub fn into_written_record(self) -> (r: Option<Vec<u8>>)
        ensures
            r is Some <==> self.spec_next() >= self.spec_fields().len(),
            r matches Some(b) ==> b@ == self.spec_written(),
    {
        if self.all_fields_were_written() {
            Some(self.into_bytes())
        } else {
            None
        }
    }
}

/// Trait to be implemented by struct that you want to be able to write to (serialize)
/// a dBase file
///
/// `spec_write` may describe what writing the record does, from a writer at
/// the first field; by default nothing is described.
pub trait WritableRecord {
    /// What writing the record with a writer at the first of `fields`, with
    /// `encoding`, gives (see [`WriteOutcome`]).
    open spec fn spec_write(&self, fields: Seq<FieldInfo>, encoding: DynEncoding) -> WriteOutcome {
        WriteOutcome::Unknown
    }

    /// Use the FieldWriter to write the fields of the record
    fn write_using(&self, field_writer: &mut FieldWriter<'_>) -> (r: Result<(), FieldError>)
        ensures
            old(field_writer).spec_next() == 0 ==> match self.spec_write(
                old(field_writer).spec_fields(),
                old(field_writer).spec_encoding(),
            ) {
                WriteOutcome::Writes(bytes, next) => r is Ok && final(field_writer).spec_written()
                    == old(field_writer).spec_written() + bytes
                    && final(field_writer).spec_next() == next
                    && final(field_writer).spec_fields() == old(field_writer).spec_fields()
                    && final(field_writer).spec_encoding() == old(field_writer).spec_encoding(),
                WriteOutcome::Fails => r is Err,
                WriteOutcome::Unknown => true,
            },
    ;
}

/// What writing a record does.
pub ghost enum WriteOutcome {
    /// It succeeds, having written these bytes and left the writer at this
    /// field.
    Writes(Seq<u8>, int),
    /// It fails.
    Fails,
    /// It is not described.
    Unknown,
}

/// What writing the first `m` records does, each after the deletion flag
/// of a record that is not deleted: the bytes of them all when each writes
/// every field (the field index is then 0); otherwise the outcome of the
/// first that fails, leaves a field unwritten (`Fails`) or is not described.
pub open spec fn spec_records_written<R: WritableRecord>(
    recs: Seq<R>,
    fields: Seq<FieldInfo>,
    enc: DynEncoding,
    m: int,
) -> WriteOutcome
    decreases m,
{
    if m <= 0 {
        WriteOutcome::Writes(Seq::empty(), 0)
    } else {
        match spec_records_written(recs, fields, enc, m - 1) {
            WriteOutcome::Writes(prev, _) => match recs[m - 1].spec_write(fields, enc) {
                WriteOutcome::Writes(bytes, next) => if next >= fields.len() {
                    WriteOutcome::Writes(prev + seq![32u8] + bytes, 0)
                } else {
                    WriteOutcome::Fails
                },
                other => other,
            },
            other => other,
        }
    }
}

/// Once a record fails, the records up to any later one fail too.
proof fn lemma_records_written_fails<R: WritableRecord>(
    recs: Seq<R>,
    fields: Seq<FieldInfo>,
    enc: DynEncoding,
    j: int,
    m: int,
)
    requires
        1 <= j <= m,
        spec_records_written(recs, fields, enc, j) is Fails,
    ensures
        spec_records_written(recs, fields, enc, m) is Fails,
    decreases m - j,
{
    if j < m {
        lemma_records_written_fails(recs, fields, enc, j, m - 1);
    }
}

/// Once a record is not described, neither are the records up to any later
/// one.
proof fn lemma_records_written_unknown<R: WritableRecord>(
    recs: Seq<R>,
    fields: Seq<FieldInfo>,
    enc: DynEncoding,
    j: int,
    m: int,
)
    requires
        1 <= j <= m,
        spec_records_written(recs, fields, enc, j) is Unknown,
    ensures
        spec_records_written(recs, fields, enc, m) is Unknown,
    decreases m - j,
{
    if j < m {
        lemma_records_written_unknown(recs, fields, enc, j, m - 1);
    }
}

/// A dBase file ends with this byte
pub const FILE_TERMINATOR: u8 = 0x1A;

/// Why a record could not be written.
pub ghost enum RecordWriteFailure {
    /// The record has no value for a field.
    MissingField,
    /// A value could not be written in its field.
    Value(WriteFailure),
}

/// The bytes of the first `n` fields of a record whose values by name are
/// `rec`: for each field the value of that name, written and padded or cut to
/// the field length; or the index of the first field that could not be
/// written, and why.
pub open spec fn spec_write_values(
    enc: DynEncoding,
    rec: Seq<(Seq<char>, ValueModel)>,
    fields: Seq<FieldInfo>,
    n: int,
) -> Result<Seq<u8>, (int, RecordWriteFailure)>
    decreases n,
{
    if n <= 0 {
        Ok(Seq::empty())
    } else {
        match spec_write_values(enc, rec, fields, n - 1) {
            Err(e) => Err(e),
            Ok(b) => {
                let info = fields[n - 1];
                let i = index_of_name(rec, info.name@, 0);
                if i >= rec.len() {
                    Err((n - 1, RecordWriteFailure::MissingField))
                } else {
                    match spec_written_value(enc, rec[i].1, info.field_type) {
                        Err(f) => Err((n - 1, RecordWriteFailure::Value(f))),
                        Ok(w) => Ok(b + spec_field_bytes(w, info)),
                    }
                }
            },
        }
    }
}

/// Once a field cannot be written, writing more fields fails the same way.
pub proof fn lemma_write_values_err(
    enc: DynEncoding,
    rec: Seq<(Seq<char>, ValueModel)>,
    fields: Seq<FieldInfo>,
    j: int,
    m: int,
)
    requires
        0 <= j <= m,
        spec_write_values(enc, rec, fields, j) is Err,
    ensures
        spec_write_values(enc, rec, fields, m) == spec_write_values(enc, rec, fields, j),
    decreases m,
{
    if m > j {
        lemma_write_values_err(enc, rec, fields, j, m - 1);
    }
}

/// The bytes of the field descriptors of the first `n` fields, names
/// written as UTF-8.
pub open spec fn spec_descriptors_bytes(fields: Seq<FieldInfo>, n: int) -> Seq<u8>
    decreases n,
{
    if n <= 0 {
        Seq::empty()
    } else {
        spec_descriptors_bytes(fields, n - 1) + spec_field_info_bytes(
            fields[n - 1],
            encode_utf8(fields[n - 1].name@),
        )
    }
}

/// The bytes before the records of a table: the header, the field
/// descriptors and the terminator byte.
pub open spec fn spec_header_parts(h: Header, fields: Seq<FieldInfo>) -> Seq<u8> {
    spec_header_bytes(h) + spec_descriptors_bytes(fields, fields.len() as int) + seq![TERMINATOR_VALUE]
}

/// Appends the header, the field descriptors and the terminator byte.
pub fn write_header_parts(dst: &mut Vec<u8>, header: &Header, fields_info: &[FieldInfo])
    requires
        header.last_update.year >= 1900,
    ensures
        final(dst)@ == old(dst)@ + spec_header_parts(*header, fields_info@),
{
    header.write_to(dst);
    let ghost start = dst@;
    let mut i: usize = 0;
    while i < fields_info.len()
        invariant
            0 <= i <= fields_info@.len(),
            dst@ == start + spec_descriptors_bytes(fields_info@, i as int),
        decreases fields_info@.len() - i,
    {
        let res = fields_info[i].write_to(dst, &Ascii);
        assert(res is Ok);
        i = i + 1;
        assert(dst@ =~= start + spec_descriptors_bytes(fields_info@, i as int));
    }
    dst.push(TERMINATOR_VALUE);
    assert(dst@ =~= old(dst)@ + spec_header_parts(*header, fields_info@));
}

/// Builder to be used to create a [TableWriter](struct.TableWriter.html).
///
/// The dBase format il akin to a database, thus you have to specify the fields
/// of the record you are going to write
#[derive(Debug)]
pub struct TableWriterBuilder {
    v: Vec<FieldInfo>,
    hdr: Header,
    encoding: DynEncoding,
}

impl TableWriterBuilder {
    #[verifier::type_invariant]
    closed spec fn header_year_fits(&self) -> bool {
        self.hdr.last_update.year >= 1900
    }

    /// The fields declared so far.
    pub closed spec fn spec_fields(&self) -> Seq<FieldInfo> {
        self.v@
    }

    /// The header the table will be written with (its counts set when written).
    pub closed spec fn spec_header(&self) -> Header {
        self.hdr
    }

    /// The encoding of the strings of the table.
    pub closed spec fn spec_encoding(&self) -> DynEncoding {
        self.encoding
    }

    /// Creates a new builder with an empty dBase record definition
    pub fn new() -> (r: Self)
        ensures
            r.spec_fields().len() == 0,
            r.spec_header().file_type == (Version::DBase3 { supports_memo: false }),
            r.spec_header().num_records == 0,
            r.spec_header().offset_to_first_record == 0,
            r.spec_header().size_of_record == 0,
            r.spec_header().code_page_mark == CodePageMark::Undefined,
            r.spec_encoding() == DynEncoding::UnicodeLossy(UnicodeLossy),
    {
        Self {
            v: Vec::new(),
            hdr: Header::new(0, 0, 0),
            encoding: DynEncoding::UnicodeLossy(UnicodeLossy),
        }
    }

    /// Gets the field definition from the reader to construct the TableWriter
    pub fn from_reader(reader: Reader) -> (r: Self)
        ensures
            r.spec_fields() == (if reader.spec_fields().len() > 0 && reader.spec_fields()[0].name@
                == deletion_flag_name() {
                reader.spec_fields().drop_first()
            } else {
                reader.spec_fields()
            }),
            r.spec_header() == (Header { last_update: r.spec_header().last_update, ..reader.spec_header() }),
            r.spec_encoding() == reader.spec_encoding(),
    {
        Self::from_table_info(reader.into_table_info())
    }

    /// Gets the field definition from a table layout: its fields (but for a
    /// leading deletion flag field), header (updated today) and encoding.
    pub fn from_table_info(table_info: TableInfo) -> (r: Self)
        ensures
            r.spec_fields() == (if table_info.fields_info@.len() > 0 && table_info.fields_info@[0].name@
                == deletion_flag_name() {
                table_info.fields_info@.drop_first()
            } else {
                table_info.fields_info@
            }),
            r.spec_header() == (Header { last_update: r.spec_header().last_update, ..table_info.header }),
            r.spec_encoding() == table_info.encoding,
    {
        let mut fields_info = table_info.fields_info;
        if fields_info.len() > 0 && fields_info[0].is_deletion_flag() {
            fields_info.remove(0);
            assert(fields_info@ =~= table_info.fields_info@.drop_first());
        }
        let mut hdr = table_info.header;
        hdr.update_date();
        Self { v: fields_info, hdr, encoding: table_info.encoding }
    }

    /// Sets the encoding of the strings of the table.
    pub fn set_encoding(self, encoding: DynEncoding) -> (r: Self)
        ensures
            r.spec_fields() == self.spec_fields(),
            r.spec_header() == self.spec_header(),
            r.spec_encoding() == encoding,
    {
        proof {
            use_type_invariant(&self);
        }
        Self { v: self.v, hdr: self.hdr, encoding }
    }

    fn with_field(self, info: FieldInfo) -> (r: Self)
        ensures
            r.spec_fields() == self.spec_fields().push(info),
            r.spec_header() == self.spec_header(),
            r.spec_encoding() == self.spec_encoding(),
    {
        proof {
            use_type_invariant(&self);
        }
        let mut v = self.v;
        v.push(info);
        Self { v, hdr: self.hdr, encoding: self.encoding }
    }

    fn with_fox_pro_field(self, info: FieldInfo) -> (r: Self)
        ensures
            r.spec_fields() == self.spec_fields().push(info),
            r.spec_header() == (Header {
                file_type: Version::FoxPro2 { supports_memo: false },
                ..self.spec_header()
            }),
            r.spec_encoding() == self.spec_encoding(),
    {
        proof {
            use_type_invariant(&self);
        }
        let mut v = self.v;
        v.push(info);
        let mut hdr = self.hdr;
        hdr.file_type = Version::FoxPro2 { supports_memo: false };
        Self { v, hdr, encoding: self.encoding }
    }

    /// Adds a Character field to the record definition,
    /// the length is the maximum number of bytes (not chars) that fields can hold
    pub fn add_character_field(self, name: FieldName, length: u8) -> (r: Self)
        ensures
            r.spec_fields().len() == self.spec_fields().len() + 1,
            r.spec_fields().drop_last() == self.spec_fields(),
            new_field(r.spec_fields().last(), name@, FieldType::Character, length, 0),
            r.spec_header() == self.spec_header(),
            r.spec_encoding() == self.spec_encoding(),
    {
        self.with_field(FieldInfo::new(name, FieldType::Character, length))
    }

    /// Adds a [Date](struct.Date.html) field
    pub fn add_date_field(self, name: FieldName) -> (r: Self)
        ensures
            r.spec_fields().len() == self.spec_fields().len() + 1,
            r.spec_fields().drop_last() == self.spec_fields(),
            new_field(r.spec_fields().last(), name@, FieldType::Date, 8, 0),
            r.spec_header() == self.spec_header(),
            r.spec_encoding() == self.spec_encoding(),
    {
        self.with_field(FieldInfo::new(name, FieldType::Date, 8))
    }

    /// Adds a [Numeric](enum.FieldValue.html#variant.Numeric)
    pub fn add_numeric_field(self, name: FieldName, length: u8, num_decimals: u8) -> (r: Self)
        ensures
            r.spec_fields().len() == self.spec_fields().len() + 1,
            r.spec_fields().drop_last() == self.spec_fields(),
            new_field(r.spec_fields().last(), name@, FieldType::Numeric, length, num_decimals),
            r.spec_header() == self.spec_header(),
            r.spec_encoding() == self.spec_encoding(),
    {
        let mut info = FieldInfo::new(name, FieldType::Numeric, length);
        info.num_decimal_places = num_decimals;
        self.with_field(info)
    }

    /// Adds a [Float](enum.FieldValue.html#variant.Float)
    pub fn add_float_field(self, name: FieldName, length: u8, num_decimals: u8) -> (r: Self)
        ensures
            r.spec_fields().len() == self.spec_fields().len() + 1,
            r.spec_fields().drop_last() == self.spec_fields(),
            new_field(r.spec_fields().last(), name@, FieldType::Float, length, num_decimals),
            r.spec_header() == self.spec_header(),
            r.spec_encoding() == self.spec_encoding(),
    {
        let mut info = FieldInfo::new(name, FieldType::Float, length);
        info.num_decimal_places = num_decimals;
        self.with_field(info)
    }

    /// Adds a [Logical](enum.FieldValue.html#variant.Logical)
    pub fn add_logical_field(self, name: FieldName) -> (r: Self)
        ensures
            r.spec_fields().len() == self.spec_fields().len() + 1,
            r.spec_fields().drop_last() == self.spec_fields(),
            new_field(r.spec_fields().last(), name@, FieldType::Logical, 1, 0),
            r.spec_header() == self.spec_header(),
            r.spec_encoding() == self.spec_encoding(),
    {
        self.with_field(FieldInfo::new(name, FieldType::Logical, 1))
    }

    /// Adds a [Integer](enum.FieldValue.html#variant.Integer); the table
    /// becomes a FoxPro one.
    pub fn add_integer_field(self, name: FieldName) -> (r: Self)
        ensures
            r.spec_fields().len() == self.spec_fields().len() + 1,
            r.spec_fields().drop_last() == self.spec_fields(),
            new_field(r.spec_fields().last(), name@, FieldType::Integer, 4, 0),
            r.spec_header() == (Header {
                file_type: Version::FoxPro2 { supports_memo: false },
                ..self.spec_header()
            }),
            r.spec_encoding() == self.spec_encoding(),
    {
        self.with_fox_pro_field(FieldInfo::new(name, FieldType::Integer, 4))
    }

    /// Adds a [DateTime](enum.FieldValue.html#variant.DateTime); the table
    /// becomes a FoxPro one.
    pub fn add_datetime_field(self, name: FieldName) -> (r: Self)
        ensures
            r.spec_fields().len() == self.spec_fields().len() + 1,
            r.spec_fields().drop_last() == self.spec_fields(),
            new_field(r.spec_fields().last(), name@, FieldType::DateTime, 8, 0),
            r.spec_header() == (Header {
                file_type: Version::FoxPro2 { supports_memo: false },
                ..self.spec_header()
            }),
            r.spec_encoding() == self.spec_encoding(),
    {
        self.with_fox_pro_field(FieldInfo::new(name, FieldType::DateTime, 8))
    }

    /// Adds a [Double](enum.FieldValue.html#variant.Double); the table
    /// becomes a FoxPro one.
    pub fn add_double_field(self, name: FieldName) -> (r: Self)
        ensures
            r.spec_fields().len() == self.spec_fields().len() + 1,
            r.spec_fields().drop_last() == self.spec_fields(),
            new_field(r.spec_fields().last(), name@, FieldType::Double, 8, 0),
            r.spec_header() == (Header {
                file_type: Version::FoxPro2 { supports_memo: false },
                ..self.spec_header()
            }),
            r.spec_encoding() == self.spec_encoding(),
    {
        self.with_fox_pro_field(FieldInfo::new(name, FieldType::Double, 8))
    }

    /// Adds a [Currency](enum.FieldValue.html#variant.Currency); the table
    /// becomes a FoxPro one.
    pub fn add_currency_field(self, name: FieldName) -> (r: Self)
        ensures
            r.spec_fields().len() == self.spec_fields().len() + 1,
            r.spec_fields().drop_last() == self.spec_fields(),
            new_field(r.spec_fields().last(), name@, FieldType::Currency, 8, 0),
            r.spec_header() == (Header {
                file_type: Version::FoxPro2 { supports_memo: false },
                ..self.spec_header()
            }),
            r.spec_encoding() == self.spec_encoding(),
    {
        self.with_fox_pro_field(FieldInfo::new(name, FieldType::Currency, 8))
    }

    /// Builds the writer; the table is written after the bytes of `dst`.
    pub fn build_with_dest(self, dst: Vec<u8>) -> (r: TableWriter)
        ensures
            r.spec_dst() == dst@,
            r.spec_fields() == self.spec_fields(),
            r.spec_header() == self.spec_header(),
            r.spec_encoding() == self.spec_encoding(),
            r.spec_records() == Seq::<u8>::empty(),
    {
        proof {
            use_type_invariant(&self);
        }
        TableWriter {
            dst,
            fields_info: self.v,
            header: self.hdr,
            encoding: self.encoding,
            records: Vec::new(),
        }
    }

    /// The layout of the table: fields, encoding, and the header with its
    /// offset to the first record and size of records set from the fields
    /// (see [`spec_final_header`]).
    pub fn build_table_info(self) -> (r: TableInfo)
        ensures
            r.header == spec_final_header(self.spec_header(), self.spec_fields()),
            r.fields_info@ == self.spec_fields(),
            r.encoding == self.spec_encoding(),
            r.header.last_update.year >= 1900,
    {
        proof {
            use_type_invariant(&self);
        }
        let n = self.v.len();
        let mut size: u32 = 0;
        let mut i: usize = 0;
        while i < n
            invariant
                0 <= i <= n == self.v@.len(),
                size == sum_lengths(self.v@, i as int) % 0x10000,
            decreases n - i,
        {
            let ghost before = sum_lengths(self.v@, i as int);
            let len = self.v[i].field_length as u32;
            proof {
                vstd::arithmetic::div_mod::lemma_add_mod_noop(before, len as int, 0x10000);
                vstd::arithmetic::div_mod::lemma_mod_twice(len as int, 0x10000);
                assert(len as int % 0x10000 == len);
            }
            size = (size + len) % 0x10000;
            i = i + 1;
        }
        let m = n % 2048;
        let offset: u32 = (33 + 32 * m as u32) % 0x10000;
        proof {
            let q = n as int / 2048;
            assert(n == 2048 * q + m) by (nonlinear_arith)
                requires m == n % 2048, q == n as int / 2048;
            assert((33 + 32 * n) == (33 + 32 * m) + 0x10000 * q) by (nonlinear_arith)
                requires n == 2048 * q + m;
            vstd::arithmetic::div_mod::lemma_mod_multiples_vanish(q, 33 + 32 * m, 0x10000);
            vstd::arithmetic::div_mod::lemma_add_mod_noop(sum_lengths(self.v@, n as int), 1, 0x10000);
            vstd::arithmetic::div_mod::lemma_mod_twice(sum_lengths(self.v@, n as int) + 1, 0x10000);
        }
        let mut hdr = self.hdr;
        hdr.offset_to_first_record = offset as u16;
        hdr.size_of_record = ((size + 1) % 0x10000) as u16;
        TableInfo { header: hdr, fields_info: self.v, encoding: self.encoding }
    }
}

/// `info` is the descriptor of a new field of the given name, type, length
/// and decimal count, every other part zero.
pub open spec fn new_field(info: FieldInfo, name: Seq<char>, t: FieldType, length: u8, decimals: u8) -> bool {
    &&& info.name@ == name
    &&& info.field_type == t
    &&& info.field_length == length
    &&& info.num_decimal_places == decimals
    &&& info.displacement_field@ == seq![0u8, 0u8, 0u8, 0u8]
    &&& info.flags == FieldFlags(0)
    &&& info.autoincrement_next_val@ == seq![0u8, 0u8, 0u8, 0u8, 0u8]
    &&& info.autoincrement_step == 0
}

/// The header of a table of `fields` once written: the offset to the first
/// record and the size of records (deletion flag included) set from the
/// fields, each kept to its low 16 bits.
pub open spec fn spec_final_header(h: Header, fields: Seq<FieldInfo>) -> Header {
    Header {
        offset_to_first_record: ((32 + 32 * fields.len() + 1) % 0x10000) as u16,
        size_of_record: ((1 + sum_lengths(fields, fields.len() as int)) % 0x10000) as u16,
        ..h
    }
}

/// Structs that writes dBase records to a destination
///
/// The only way to create a TableWriter is to use its
/// [TableWriterBuilder](struct.TableWriterBuilder.html)
#[derive(Debug)]
pub struct TableWriter {
    dst: Vec<u8>,
    fields_info: Vec<FieldInfo>,
    header: Header,
    encoding: DynEncoding,
    /// The records written so far.
    records: Vec<u8>,
}

impl TableWriter {
    #[verifier::type_invariant]
    closed spec fn header_year_fits(&self) -> bool {
        self.header.last_update.year >= 1900
    }

    /// The bytes the table is written after.
    pub closed spec fn spec_dst(&self) -> Seq<u8> {
        self.dst@
    }

    /// The fields of the records.
    pub closed spec fn spec_fields(&self) -> Seq<FieldInfo> {
        self.fields_info@
    }

    /// The header, its count of records included.
    pub closed spec fn spec_header(&self) -> Header {
        self.header
    }

    /// The encoding of the strings.
    pub closed spec fn spec_encoding(&self) -> DynEncoding {
        self.encoding
    }

    /// The bytes of the records written so far.
    pub closed spec fn spec_records(&self) -> Seq<u8> {
        self.records@
    }

    /// Number of records written so far.
    pub fn num_records(&self) -> (r: u32)
        ensures
            r == self.spec_header().num_records,
    {
        self.header.num_records
    }

    /// Writes a record: its deletion flag (not deleted) then its fields, in
    /// the order of the fields of the table.
    ///
    /// Fails when the record does not write every field; nothing of a
    /// record that fails is kept.
    pub fn write_record<R: WritableRecord>(&mut self, record: &R) -> (r: Result<(), Error>)
        requires
            old(self).spec_header().num_records < u32::MAX,
        ensures
            final(self).spec_dst() == old(self).spec_dst(),
            final(self).spec_fields() == old(self).spec_fields(),
            final(self).spec_encoding() == old(self).spec_encoding(),
            r is Ok ==> final(self).spec_header() == (Header {
                num_records: (old(self).spec_header().num_records + 1) as u32,
                ..old(self).spec_header()
            }) && final(self).spec_records().len() >= old(self).spec_records().len()
                && final(self).spec_records().subrange(0, old(self).spec_records().len() as int)
                == old(self).spec_records(),
            r matches Err(e) ==> *final(self) == *old(self) && (e.record_context matches Some(c)
                && c.index == RecordIndex(old(self).spec_header().num_records as usize)),
            match record.spec_write(old(self).spec_fields(), old(self).spec_encoding()) {
                WriteOutcome::Writes(bytes, next) => if next >= old(self).spec_fields().len() {
                    r is Ok && final(self).spec_records() == old(self).spec_records() + seq![32u8] + bytes
                } else {
                    r matches Err(e) && e.kind is NotEnoughFields
                },
                WriteOutcome::Fails => r is Err,
                WriteOutcome::Unknown => true,
            },
    {
        proof {
            use_type_invariant(&*self);
        }
        let current = self.header.num_records as usize;
        let mut field_writer = FieldWriter::new(Vec::new(), self.fields_info.as_slice(), self.encoding);
        field_writer.write_deletion_flag();
        match record.write_using(&mut field_writer) {
            Ok(()) => {},
            Err(e) => return Err(Error::from_field_error(RecordIndex(current), e)),
        }
        let written = field_writer.into_written_record();
        self.append_written_record(written)
    }

    /// Appends a record that a [`FieldWriter`] wrote: its bytes, or `None`
    /// when not every field was written, which is refused.
    pub fn append_written_record(&mut self, written: Option<Vec<u8>>) -> (r: Result<(), Error>)
        requires
            old(self).spec_header().num_records < u32::MAX,
        ensures
            r is Ok <==> written is Some,
            final(self).spec_dst() == old(self).spec_dst(),
            final(self).spec_fields() == old(self).spec_fields(),
            final(self).spec_encoding() == old(self).spec_encoding(),
            written matches Some(bytes) ==> final(self).spec_header() == (Header {
                num_records: (old(self).spec_header().num_records + 1) as u32,
                ..old(self).spec_header()
            }) && final(self).spec_records() == old(self).spec_records() + bytes@,
            r matches Err(e) ==> *final(self) == *old(self) && e.kind is NotEnoughFields
                && (e.record_context matches Some(c)
                && c.index == RecordIndex(old(self).spec_header().num_records as usize)),
    {
        proof {
            use_type_invariant(&*self);
        }
        let current = self.header.num_records as usize;
        let bytes = match written {
            Some(b) => b,
            None => return Err(Error::record(RecordIndex(current), ErrorKind::NotEnoughFields)),
        };
        let ghost old_records = self.records@;
        let mut records: Vec<u8> = Vec::new();
        std::mem::swap(&mut records, &mut self.records);
        let mut i: usize = 0;
        while i < bytes.len()
            invariant
                0 <= i <= bytes@.len(),
                records@ == old_records + bytes@.subrange(0, i as int),
            decreases bytes@.len() - i,
        {
            records.push(bytes[i]);
            assert(bytes@.subrange(0, i + 1) =~= bytes@.subrange(0, i as int).push(bytes@[i as int]));
            i = i + 1;
        }
        assert(bytes@.subrange(0, bytes@.len() as int) =~= bytes@);
        let mut header = self.header;
        header.num_records = header.num_records + 1;
        std::mem::swap(&mut records, &mut self.records);
        self.header = header;
        Ok(())
    }

    /// Writes the records, then finishes the table (see [`Self::finalize`]).
    ///
    /// The table holds the bytes given to the builder, a header counting
    /// every record, the field descriptors, the records written before and
    /// after them those of `records` (see [`spec_records_written`]).
    pub fn write_records<R: WritableRecord>(self, records: &[R]) -> (r: Result<Vec<u8>, Error>)
        requires
            self.spec_header().num_records + records@.len() <= u32::MAX,
        ensures
            !(self.spec_fields().len() <= MAX_NUM_FIELDS
                && 1 + sum_lengths(self.spec_fields(), self.spec_fields().len() as int) <= 0xffff)
                ==> r is Err,
            r matches Err(e) ==> (e.kind is InvalidFile && e.record_context is None && !(
            self.spec_fields().len() <= MAX_NUM_FIELDS && 1 + sum_lengths(
                self.spec_fields(),
                self.spec_fields().len() as int,
            ) <= 0xffff)) || (
            e.record_context matches Some(c) && self.spec_header().num_records <= c.index.0
                < self.spec_header().num_records + records@.len()),
            r matches Ok(bytes) ==> exists|added: Seq<u8>|
                bytes@ == self.spec_dst() + spec_header_parts(
                    spec_final_header(
                        Header {
                            num_records: (self.spec_header().num_records + records@.len()) as u32,
                            ..self.spec_header()
                        },
                        self.spec_fields(),
                    ),
                    self.spec_fields(),
                ) + #[trigger] (self.spec_records() + added) + seq![FILE_TERMINATOR],
            match spec_records_written(records@, self.spec_fields(), self.spec_encoding(), records@.len() as int) {
                WriteOutcome::Writes(written, _) => (r is Ok <==> (self.spec_fields().len() <= MAX_NUM_FIELDS
                    && 1 + sum_lengths(self.spec_fields(), self.spec_fields().len() as int) <= 0xffff))
                    && (r matches Ok(bytes) ==> bytes@ == self.spec_dst() + spec_header_parts(
                    spec_final_header(
                        Header {
                            num_records: (self.spec_header().num_records + records@.len()) as u32,
                            ..self.spec_header()
                        },
                        self.spec_fields(),
                    ),
                    self.spec_fields(),
                ) + self.spec_records() + written + seq![FILE_TERMINATOR]),
                WriteOutcome::Fails => r is Err,
                WriteOutcome::Unknown => true,
            },
    {
        let mut writer = self;
        let mut i: usize = 0;
        while i < records.len()
            invariant
                0 <= i <= records@.len(),
                self.spec_header().num_records + records@.len() <= u32::MAX,
                writer.spec_dst() == self.spec_dst(),
                writer.spec_fields() == self.spec_fields(),
                writer.spec_encoding() == self.spec_encoding(),
                writer.spec_header() == (Header {
                    num_records: (self.spec_header().num_records + i) as u32,
                    ..self.spec_header()
                }),
                writer.spec_records().len() >= self.spec_records().len(),
                writer.spec_records().subrange(0, self.spec_records().len() as int)
                    == self.spec_records(),
                spec_records_written(records@, self.spec_fields(), self.spec_encoding(), i as int) matches WriteOutcome::Writes(b, _)
                    ==> writer.spec_records() == self.spec_records() + b,
                i > 0 && spec_records_written(records@, self.spec_fields(), self.spec_encoding(), i as int) is Unknown ==>
                    spec_records_written(records@, self.spec_fields(), self.spec_encoding(), records@.len() as int) is Unknown,
                !(spec_records_written(records@, self.spec_fields(), self.spec_encoding(), i as int) is Fails),
            decreases records@.len() - i,
        {
            let ghost before = writer.spec_records();
            match writer.write_record(&records[i]) {
                Ok(()) => {},
                Err(e) => {
                    proof {
                        if spec_records_written(records@, self.spec_fields(), self.spec_encoding(), i + 1) is Fails {
                            lemma_records_written_fails(records@, self.spec_fields(), self.spec_encoding(), i + 1, records@.len() as int);
                        } else if spec_records_written(records@, self.spec_fields(), self.spec_encoding(), i + 1) is Unknown {
                            lemma_records_written_unknown(records@, self.spec_fields(), self.spec_encoding(), i + 1, records@.len() as int);
                        }
                    }
                    return Err(e);
                },
            }
            proof {
                if spec_records_written(records@, self.spec_fields(), self.spec_encoding(), i + 1) is Unknown {
                    lemma_records_written_unknown(records@, self.spec_fields(), self.spec_encoding(), i + 1, records@.len() as int);
                }
                if spec_records_written(records@, self.spec_fields(), self.spec_encoding(), i as int) is Writes {
                    if records@[i as int].spec_write(self.spec_fields(), self.spec_encoding()) is Writes {
                        let b = spec_records_written(records@, self.spec_fields(), self.spec_encoding(), i as int)->Writes_0;
                        let bytes = records@[i as int].spec_write(self.spec_fields(), self.spec_encoding())->Writes_0;
                        assert(writer.spec_records() =~= self.spec_records() + (b + seq![32u8] + bytes));
                    }
                }
            }
            i = i + 1;
        }
        let ghost added = writer.spec_records().subrange(
            self.spec_records().len() as int,
            writer.spec_records().len() as int,
        );
        assert(writer.spec_records() =~= self.spec_records() + added);
        writer.finalize()
    }

    /// Finishes the table: the bytes given to the builder, then the header
    /// (its offset to the first record and size of records set from the
    /// fields), the field descriptors, the terminator, the records and the
    /// end of file byte.
    ///
    /// Fails when the offset or the size of records do not fit 16 bits.
    #[verifier::rlimit(40)]
    pub fn finalize(self) -> (r: Result<Vec<u8>, Error>)
        ensures
            r is Ok <==> self.spec_fields().len() <= MAX_NUM_FIELDS
                && 1 + sum_lengths(self.spec_fields(), self.spec_fields().len() as int) <= 0xffff,
            r matches Err(e) ==> e.kind is InvalidFile && e.record_context is None,
            r matches Ok(bytes) ==> bytes@ == self.spec_dst() + spec_header_parts(
                spec_final_header(self.spec_header(), self.spec_fields()),
                self.spec_fields(),
            ) + self.spec_records() + seq![FILE_TERMINATOR],
    {
        proof {
            use_type_invariant(&self);
        }
        let n = self.fields_info.len();
        if n > MAX_NUM_FIELDS {
            return Err(Error::header(ErrorKind::InvalidFile("too many fields")));
        }
        let mut size: usize = 0;
        let mut i: usize = 0;
        while i < n
            invariant
                0 <= i <= n == self.fields_info@.len() <= MAX_NUM_FIELDS,
                size == sum_lengths(self.fields_info@, i as int),
            decreases n - i,
        {
            proof {
                crate::field::lemma_sum_lengths_bound(self.fields_info@, i + 1);
            }
            size = size + self.fields_info[i].field_length as usize;
            i = i + 1;
        }
        if size > 0xfffe {
            return Err(Error::header(ErrorKind::InvalidFile("records are too large")));
        }
        let mut header = self.header;
        header.offset_to_first_record = (Header::SIZE + n * FieldInfo::SIZE + 1) as u16;
        header.size_of_record = (size + 1) as u16;
        proof {
            let total = 32 + 32 * n + 1;
            assert(total < 0x10000);
            assert(total % 0x10000 == total);
            assert((1 + size) % 0x10000 == 1 + size);
            assert(header == spec_final_header(self.header, self.fields_info@));
        }
        let mut dst = self.dst;
        write_header_parts(&mut dst, &header, self.fields_info.as_slice());
        dst.extend_from_slice(self.records.as_slice());
        dst.push(FILE_TERMINATOR);
        Ok(dst)
    }
}

} // verus!
