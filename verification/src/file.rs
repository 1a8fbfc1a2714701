//! A dBase table held in memory that can be read and modified in place:
//! records and fields are reached by index, read, overwritten, and records
//! appended.

use crate::encoding::{Ascii, DynEncoding, Encoding, UnicodeLossy};
use crate::error::{Error, ErrorKind, FieldContext, FieldError, FieldIndex, RecordIndex};
use crate::field::{
    descriptor_readable, parsed_field_info, sum_lengths, DeletionFlag, FieldInfo, FieldsInfo,
    DELETION_FLAG_SIZE, MAX_NUM_FIELDS,
};
use crate::header::{spec_header_bytes, spec_parse_header, Header};
use crate::memo::MemoReader;
use crate::reading::{
    descriptors_readable, num_fields_of, spec_num_fields, spec_read_values, FieldIterator,
    FromFieldValue, ReadableRecord, ReadingOptions, TableInfo,
};
use crate::record::{spec_record_of, Record};
use crate::value::{
    failure_of, spec_read_field, spec_written_value, write_failure_of, FieldValue, ReadFailure,
    TrimOption, ValueModel, WritableAsDbaseField,
};
use crate::roundtrip::{lemma_field_roundtrip_zero_padded, utf8_writer, value_fits_zero_padded};
use crate::writing::{WriteOutcome, repeat_byte, spec_header_parts, write_header_parts, FieldWriter, WritableRecord};
use vstd::prelude::*;

verus! {

/// `d` with the bytes `b` written at `pos`: zero bytes are added first when
/// `d` is shorter than `pos`, and `d` grows when `b` goes past its end.
pub open spec fn spec_write_at(d: Seq<u8>, pos: int, b: Seq<u8>) -> Seq<u8> {
    let base = if d.len() < pos {
        d + repeat_byte(0, (pos - d.len()) as nat)
    } else {
        d
    };
    if pos + b.len() <= base.len() {
        base.subrange(0, pos) + b + base.subrange(pos + b.len(), base.len() as int)
    } else {
        base.subrange(0, pos) + b
    }
}

/// What writing at a position keeps and changes: the bytes before and
/// after the written ones stay, the written ones are `b`.
pub proof fn lemma_write_at(d: Seq<u8>, pos: int, b: Seq<u8>)
    requires
        0 <= pos,
    ensures
        spec_write_at(d, pos, b).len() == if d.len() > pos + b.len() { d.len() as int } else { pos + b.len() },
        forall|i: int| 0 <= i < b.len() ==> #[trigger] spec_write_at(d, pos, b)[pos + i] == b[i],
        forall|i: int| 0 <= i < pos && i < d.len() ==> #[trigger] spec_write_at(d, pos, b)[i] == d[i],
        forall|i: int| pos + b.len() <= i < d.len() ==> #[trigger] spec_write_at(d, pos, b)[i] == d[i],
{
    let base = if d.len() < pos {
        d + repeat_byte(0, (pos - d.len()) as nat)
    } else {
        d
    };
    assert(base.len() >= pos);
    assert forall|i: int| 0 <= i < d.len() implies base[i] == d[i] by {}
}

/// Writes the bytes `b` at `pos` in `data` (see [`spec_write_at`]).
fn write_at(data: &mut Vec<u8>, pos: usize, b: &[u8])
    requires
        pos + b@.len() <= usize::MAX,
    ensures
        final(data)@ == spec_write_at(old(data)@, pos as int, b@),
{
    let ghost start = data@;
    while data.len() < pos
        invariant
            start.len() < pos ==> data@ == start + repeat_byte(0, (data@.len() - start.len()) as nat),
            start.len() >= pos ==> data@ == start,
            data@.len() <= pos || data@ == start,
        decreases pos - data@.len(),
    {
        data.push(0u8);
        proof {
            assert(repeat_byte(0, (data@.len() - 1 - start.len()) as nat).push(0u8) =~= repeat_byte(
                0,
                (data@.len() - start.len()) as nat,
            ));
        }
    }
    let ghost base = data@;
    assert(base =~= if start.len() < pos {
        start + repeat_byte(0, (pos - start.len()) as nat)
    } else {
        start
    });
    let mut k: usize = 0;
    while k < b.len()
        invariant
            0 <= k <= b@.len(),
            pos + b@.len() <= usize::MAX,
            base.len() >= pos,
            data@.len() == if base.len() > pos + k { base.len() as int } else { pos + k },
            forall|i: int| 0 <= i < pos ==> data@[i] == base[i],
            forall|i: int| pos <= i < pos + k ==> data@[i] == b@[i - pos],
            forall|i: int| pos + k <= i < base.len() ==> data@[i] == base[i],
        decreases b@.len() - k,
    {
        if pos + k < data.len() {
            data.set(pos + k, b[k]);
        } else {
            data.push(b[k]);
        }
        k = k + 1;
    }
    assert(data@ =~= spec_write_at(start, pos as int, b@));
}

/// The bytes of a record that is not deleted: its deletion flag (a space),
/// then the bytes of its fields.
fn with_deletion_flag(fields_bytes: &Vec<u8>) -> (r: Vec<u8>)
    ensures
        r@ == seq![32u8] + fields_bytes@,
{
    let mut bytes: Vec<u8> = Vec::new();
    bytes.push(32u8);
    let mut i: usize = 0;
    while i < fields_bytes.len()
        invariant
            0 <= i <= fields_bytes@.len(),
            bytes@ == seq![32u8] + fields_bytes@.subrange(0, i as int),
        decreases fields_bytes@.len() - i,
    {
        bytes.push(fields_bytes[i]);
        assert(fields_bytes@.subrange(0, i + 1) =~= fields_bytes@.subrange(0, i as int).push(fields_bytes@[i as int]));
        i = i + 1;
    }
    assert(fields_bytes@.subrange(0, fields_bytes@.len() as int) =~= fields_bytes@);
    bytes
}

/// Whether the record of index `k` of `file`, written as the deletion flag
/// then `bytes`, has a position that fits in memory.
pub open spec fn spec_append_fits(file: File, k: int, bytes: Seq<u8>) -> bool {
    &&& file.spec_record_start(k) + file.spec_record_size() <= usize::MAX
    &&& file.spec_record_start(k) + 1 + bytes.len() <= usize::MAX
}

/// The bytes of `file` once records are appended to it, each as
/// [`File::append_record`] writes it: the record `k` (the deletion flag of a
/// record that is not deleted, then `ws[k]`) at the position of the record
/// after the last one, then the header counting it.
pub open spec fn spec_appended(file: File, ws: Seq<Seq<u8>>) -> Seq<u8>
    decreases ws.len(),
{
    if ws.len() == 0 {
        file.spec_data()
    } else {
        let k = ws.len() - 1;
        let n = file.spec_header().num_records + k;
        let h = Header { num_records: (n + 1) as u32, ..file.spec_header() };
        spec_write_at(
            spec_write_at(spec_appended(file, ws.drop_last()), file.spec_record_start(n), seq![32u8] + ws.last()),
            0,
            spec_header_bytes(h),
        )
    }
}

/// Handle to a dBase table held in memory.
///
/// A `File` allows to both read and write; it also allows to modify an
/// existing table, and to only read or modify parts of it.
#[derive(Debug)]
pub struct File {
    data: Vec<u8>,
    memo_reader: Option<MemoReader>,
    header: Header,
    fields_info: FieldsInfo,
    encoding: DynEncoding,
    options: ReadingOptions,
}

impl File {
    #[verifier::type_invariant]
    closed spec fn fields_fit(&self) -> bool {
        &&& self.fields_info.inner@.len() <= MAX_NUM_FIELDS
        &&& self.header.last_update.year >= 1900
    }

    /// The bytes of the table.
    pub closed spec fn spec_data(&self) -> Seq<u8> {
        self.data@
    }

    /// The header of the table.
    pub closed spec fn spec_header(&self) -> Header {
        self.header
    }

    /// The fields of the records.
    pub closed spec fn spec_fields(&self) -> Seq<FieldInfo> {
        self.fields_info.inner@
    }

    /// The encoding of the strings.
    pub closed spec fn spec_encoding(&self) -> DynEncoding {
        self.encoding
    }

    /// The memo file, if given.
    pub closed spec fn spec_memo(&self) -> Option<MemoReader> {
        self.memo_reader
    }

    /// The reading options.
    pub closed spec fn spec_options(&self) -> ReadingOptions {
        self.options
    }

    /// Whether `other` is this table with other bytes.
    pub closed spec fn same_but_data(&self, other: File) -> bool {
        other == (File { data: other.data, ..*self })
    }

    /// Whether `other` is this table with other reading options.
    pub closed spec fn same_but_options(&self, other: File) -> bool {
        other == (File { options: other.options, ..*self })
    }

    /// Size of a record: the deletion flag and every field.
    pub open spec fn spec_record_size(&self) -> int {
        1 + sum_lengths(self.spec_fields(), self.spec_fields().len() as int)
    }

    /// Position of the record of index `i`.
    pub open spec fn spec_record_start(&self, i: int) -> int {
        self.spec_header().offset_to_first_record + i * self.spec_record_size()
    }

    /// Records start at or after the first one.
    pub proof fn lemma_record_start(&self, i: int)
        requires
            0 <= i,
        ensures
            self.spec_record_start(i) >= self.spec_header().offset_to_first_record,
            self.spec_record_size() >= 1,
    {
        crate::field::lemma_sum_lengths_bound(self.spec_fields(), self.spec_fields().len() as int);
        assert(i * self.spec_record_size() >= 0) by (nonlinear_arith)
            requires
                i >= 0,
                self.spec_record_size() >= 1,
        ;
    }

    /// Position of the field of index `j` in the record of index `i`.
    pub open spec fn spec_field_start(&self, i: int, j: int) -> int {
        self.spec_record_start(i) + 1 + sum_lengths(self.spec_fields(), j)
    }

    /// Whether the table holds every byte of the record of index `i`.
    pub open spec fn spec_record_held(&self, i: int) -> bool {
        self.spec_record_start(i) + self.spec_record_size() <= self.spec_data().len()
    }

    /// The value of the field `j` of the record `i`, or why it cannot be read.
    pub open spec fn spec_field_value(&self, i: int, j: int) -> Result<ValueModel, ReadFailure> {
        let info = self.spec_fields()[j];
        let start = self.spec_field_start(i, j);
        if !self.spec_record_held(i) {
            Err(ReadFailure::UnexpectedEof)
        } else {
            spec_read_field(
                self.spec_encoding(),
                self.spec_data().subrange(start, start + info.field_length),
                info.field_type,
                info.field_length,
                self.spec_options().character_trim,
                self.spec_memo(),
            )
        }
    }

    /// The record of index `i`: its values by field name, or why it cannot
    /// be read.
    /// The values of the fields of the record `i`, in order, or why they
    /// cannot be read.
    pub open spec fn spec_record_values(&self, i: int) -> Result<Seq<(Seq<char>, ValueModel)>, ReadFailure> {
        let start = self.spec_record_start(i);
        if !self.spec_record_held(i) {
            Err(ReadFailure::UnexpectedEof)
        } else {
            match spec_read_values(
                self.spec_encoding(),
                self.spec_data().subrange(start + 1, start + self.spec_record_size()),
                self.spec_fields(),
                self.spec_options().character_trim,
                self.spec_memo(),
                self.spec_fields().len() as int,
            ) {
                Ok(s) => Ok(s),
                Err(f) => Err(f.1),
            }
        }
    }

    pub open spec fn spec_record(&self, i: int) -> Result<Seq<(Seq<char>, ValueModel)>, ReadFailure> {
        let start = self.spec_record_start(i);
        if !self.spec_record_held(i) {
            Err(ReadFailure::UnexpectedEof)
        } else {
            match spec_read_values(
                self.spec_encoding(),
                self.spec_data().subrange(start + 1, start + self.spec_record_size()),
                self.spec_fields(),
                self.spec_options().character_trim,
                self.spec_memo(),
                self.spec_fields().len() as int,
            ) {
                Ok(s) => Ok(spec_record_of(s)),
                Err(f) => Err(f.1),
            }
        }
    }

    /// Opens a table from its bytes: reads the header and the field
    /// descriptors.
    pub fn open(source: Vec<u8>) -> (r: Result<Self, Error>)
        ensures
            r matches Err(e) ==> e.record_context is None,
            source@.len() < 32 ==> (r matches Err(e) && e.kind == ErrorKind::UnexpectedEof),
            source@.len() >= 32 && spec_num_fields(spec_parse_header(source@)) is None ==> (r matches Err(
                e,
            ) && e.kind is InvalidFile),
            source@.len() >= 32 ==> (spec_num_fields(spec_parse_header(source@)) matches Some(n) ==> {
                &&& r is Ok <==> descriptors_readable(source@, n) && source@.len() > 32 + 32 * n
                &&& r matches Ok(file) ==> {
                    &&& file.spec_data() == source@
                    &&& file.spec_fields().len() == n
                    &&& forall|i: int|
                        0 <= i < n ==> parsed_field_info(Ascii, source@, 32 + 32 * i, #[trigger] file.spec_fields()[i])
                    &&& file.spec_header() == (Header {
                        size_of_record: file.spec_record_size() as u16,
                        ..spec_parse_header(source@)
                    })
                    &&& file.spec_encoding() == DynEncoding::UnicodeLossy(UnicodeLossy)
                    &&& file.spec_memo() is None
                    &&& file.spec_options().character_trim == TrimOption::BeginEnd
                }
            }),
    {
        let header = match Header::read_from(source.as_slice()) {
            Ok(h) => h,
            Err(kind) => return Err(Error::header(kind)),
        };
        let num_fields = match num_fields_of(&header) {
            Some(n) => n,
            None => return Err(Error::header(ErrorKind::InvalidFile("the offset to the first record is too small"))),
        };
        let fields_info = match FieldsInfo::read_from(source.as_slice(), Header::SIZE, num_fields) {
            Ok(f) => f,
            Err(kind) => return Err(Error::header(kind)),
        };
        if source.len() <= Header::SIZE + num_fields * FieldInfo::SIZE {
            return Err(Error::header(ErrorKind::UnexpectedEof));
        }
        let encoding = match header.code_page_mark.to_encoding() {
            Some(e) => e,
            None => return Err(Error::header(ErrorKind::UnsupportedCodePage(header.code_page_mark))),
        };
        proof {
            crate::field::lemma_sum_lengths_bound(fields_info.inner@, fields_info.inner@.len() as int);
        }
        let record_size = DELETION_FLAG_SIZE + fields_info.size_of_all_fields();
        let mut header = header;
        // Some files do not count the deletion flag in the size of records,
        // the records are read with it.
        header.size_of_record = record_size as u16;
        Ok(Self {
            data: source,
            memo_reader: None,
            header,
            fields_info,
            encoding,
            options: ReadingOptions::default_options(),
        })
    }

    /// Creates a table with no records, of the given layout: its bytes are
    /// the header, the field descriptors and the terminator.
    pub fn create_new(table_info: TableInfo) -> (r: Result<Self, Error>)
        requires
            table_info.header.last_update.year >= 1900,
        ensures
            r is Ok <==> table_info.fields_info@.len() <= MAX_NUM_FIELDS,
            r matches Err(e) ==> e.kind is InvalidFile && e.record_context is None,
            r matches Ok(file) ==> {
                &&& file.spec_data() == spec_header_parts(table_info.header, table_info.fields_info@)
                &&& file.spec_header() == table_info.header
                &&& file.spec_fields() == table_info.fields_info@
                &&& file.spec_encoding() == table_info.encoding
                &&& file.spec_memo() is None
                &&& file.spec_options().character_trim == TrimOption::BeginEnd
            },
    {
        if table_info.fields_info.len() > MAX_NUM_FIELDS {
            return Err(Error::header(ErrorKind::InvalidFile("too many fields")));
        }
        let mut data: Vec<u8> = Vec::new();
        write_header_parts(&mut data, &table_info.header, table_info.fields_info.as_slice());
        assert(data@ =~= spec_header_parts(table_info.header, table_info.fields_info@));
        Ok(Self {
            data,
            memo_reader: None,
            header: table_info.header,
            fields_info: FieldsInfo { inner: table_info.fields_info },
            encoding: table_info.encoding,
            options: ReadingOptions::default_options(),
        })
    }

    /// The bytes of the table.
    pub fn bytes(&self) -> (r: &[u8])
        ensures
            r@ == self.spec_data(),
    {
        self.data.as_slice()
    }

    /// The bytes of the table, out of the handle.
    pub fn into_bytes(self) -> (r: Vec<u8>)
        ensures
            r@ == self.spec_data(),
    {
        self.data
    }

    /// Gives the table the bytes of its memo file.
    pub fn set_memo_source(&mut self, memo_type: crate::memo::MemoFileType, memo_source: Vec<u8>) -> (r: Result<(), Error>)
        ensures
            r is Ok <==> crate::memo::spec_memo_header(memo_source@, memo_type) is Some,
            r is Err ==> *final(self) == *old(self),
            r is Ok ==> (final(self).spec_memo() matches Some(m) && m.source@ == memo_source@
                && m.memo_file_type == memo_type),
            final(self).spec_data() == old(self).spec_data(),
            final(self).spec_header() == old(self).spec_header(),
            final(self).spec_fields() == old(self).spec_fields(),
            final(self).spec_encoding() == old(self).spec_encoding(),
            final(self).spec_options() == old(self).spec_options(),
    {
        proof {
            use_type_invariant(&*self);
        }
        match MemoReader::new(memo_type, memo_source) {
            Ok(m) => {
                self.memo_reader = Some(m);
                Ok(())
            },
            Err(kind) => Err(Error::header(kind)),
        }
    }

    /// The type of the memo file the records need: `Some` when a field is a
    /// memo field and the version of the table has memo files.
    pub fn memo_file_type(&self) -> (r: Option<crate::memo::MemoFileType>)
        ensures
            r is Some <==> (exists|i: int|
                0 <= i < self.spec_fields().len() && #[trigger] self.spec_fields()[i].field_type
                    == crate::types::FieldType::Memo) && crate::header::spec_supported_memo_type(
                self.spec_header().file_type,
            ) is Some,
            r is Some ==> r == crate::header::spec_supported_memo_type(self.spec_header().file_type),
    {
        if self.fields_info.at_least_one_field_is_memo() {
            self.header.file_type.supported_memo_type()
        } else {
            None
        }
    }

    /// Returns the information about fields present in the records
    pub fn fields(&self) -> (r: &[FieldInfo])
        ensures
            r@ == self.spec_fields(),
    {
        self.fields_info.as_slice()
    }

    /// Returns the index of the first field whose name is `name`, ASCII
    /// letters compared regardless of case.
    pub fn field_index(&self, name: &str) -> (r: Option<FieldIndex>)
        ensures
            r matches Some(i) ==> i.0 < self.spec_fields().len() && ascii_eq_ignore_case(
                vstd::utf8::encode_utf8(self.spec_fields()[i.0 as int].name@),
                vstd::utf8::encode_utf8(name@),
            ) && forall|k: int|
                0 <= k < i.0 ==> !ascii_eq_ignore_case(
                    vstd::utf8::encode_utf8(#[trigger] self.spec_fields()[k].name@),
                    vstd::utf8::encode_utf8(name@),
                ),
            r is None ==> forall|k: int|
                0 <= k < self.spec_fields().len() ==> !ascii_eq_ignore_case(
                    vstd::utf8::encode_utf8(#[trigger] self.spec_fields()[k].name@),
                    vstd::utf8::encode_utf8(name@),
                ),
    {
        let wanted = crate::encoding::utf8_bytes(name);
        let mut i: usize = 0;
        while i < self.fields_info.inner.len()
            invariant
                0 <= i <= self.fields_info.inner@.len(),
                wanted@ == vstd::utf8::encode_utf8(name@),
                forall|k: int|
                    0 <= k < i ==> !ascii_eq_ignore_case(
                        vstd::utf8::encode_utf8(#[trigger] self.fields_info.inner@[k].name@),
                        wanted@,
                    ),
            decreases self.fields_info.inner@.len() - i,
        {
            let candidate = crate::encoding::utf8_bytes(self.fields_info.inner[i].name.as_str());
            if bytes_eq_ignore_ascii_case(candidate.as_slice(), wanted.as_slice()) {
                return Some(FieldIndex(i));
            }
            i = i + 1;
        }
        None
    }

    /// Returns the number of records in the file
    pub fn num_records(&self) -> (r: usize)
        ensures
            r == self.spec_header().num_records,
    {
        self.header.num_records as usize
    }

    /// Sets the options used to read the records.
    pub fn set_options(&mut self, options: ReadingOptions)
        ensures
            old(self).same_but_options(*final(self)),
            final(self).spec_options() == options,
    {
        proof {
            use_type_invariant(&*self);
        }
        self.options = options;
    }

    /// Returns a reference to the record at the given index.
    ///
    /// Returns None if no record exist for the given index
    pub fn record(&mut self, index: usize) -> (r: Option<RecordRef<'_>>)
        ensures
            index >= old(self).spec_header().num_records ==> r is None,
            index < old(self).spec_header().num_records ==> (r matches Some(rr) && rr.spec_file()
                == *old(self) && rr.spec_index() == index),
            r is None ==> *final(self) == *old(self),
    {
        if index >= self.header.num_records as usize {
            None
        } else {
            Some(RecordRef { file: self, index: RecordIndex(index) })
        }
    }

    /// Returns an iterator over the records in the file.
    ///
    /// Always starts at the first record
    pub fn records(&mut self) -> (r: FileRecordIterator<'_>)
        ensures
            r.spec_file() == *old(self),
            r.spec_current() == 0,
    {
        FileRecordIterator { file: self, current_record: RecordIndex(0) }
    }

    /// Size of a record, deletion flag included.
    fn record_size(&self) -> (r: usize)
        ensures
            r == self.spec_record_size(),
            1 <= r <= 1 + 255 * MAX_NUM_FIELDS,
    {
        proof {
            use_type_invariant(self);
            crate::field::lemma_sum_lengths_bound(self.fields_info.inner@, self.fields_info.inner@.len() as int);
        }
        DELETION_FLAG_SIZE + self.fields_info.size_of_all_fields()
    }

    /// Position of the record of index `index`, if it fits in memory.
    fn record_start(&self, index: usize) -> (r: Option<usize>)
        ensures
            r matches Some(p) ==> p == self.spec_record_start(index as int) && p + self.spec_record_size() <= usize::MAX,
            r is None ==> self.spec_record_start(index as int) + self.spec_record_size() > usize::MAX,
    {
        let size = self.record_size();
        let offset = self.header.offset_to_first_record as usize;
        let product = match index.checked_mul(size) {
            Some(p) => p,
            None => return None,
        };
        let start = match offset.checked_add(product) {
            Some(s) => s,
            None => return None,
        };
        match start.checked_add(size) {
            Some(_) => Some(start),
            None => None,
        }
    }

    /// The bytes of the field `field_index` of the record `index`.
    fn field_bytes(&self, index: usize, field_index: usize) -> (r: Result<&[u8], ErrorKind>)
        requires
            field_index < self.spec_fields().len(),
        ensures
            r is Ok <==> self.spec_record_held(index as int),
            r matches Ok(b) ==> b@ == self.spec_data().subrange(
                self.spec_field_start(index as int, field_index as int),
                self.spec_field_start(index as int, field_index as int) + self.spec_fields()[field_index as int].field_length,
            ),
            r matches Err(k) ==> k == ErrorKind::UnexpectedEof,
    {
        proof {
            use_type_invariant(self);
            crate::field::lemma_sum_lengths_monotonic(self.fields_info.inner@, field_index + 1, self.fields_info.inner@.len() as int);
            crate::field::lemma_sum_lengths_bound(self.fields_info.inner@, field_index as int);
        }
        let _ = self.data.len();
        let size = self.record_size();
        let start = match self.record_start(index) {
            Some(s) => s,
            None => return Err(ErrorKind::UnexpectedEof),
        };
        if start + size > self.data.len() {
            return Err(ErrorKind::UnexpectedEof);
        }
        let offset = match self.fields_info.field_position_in_record(field_index) {
            Some(o) => o,
            None => return Err(ErrorKind::UnexpectedEof),
        };
        let length = self.fields_info.inner[field_index].field_length as usize;
        Ok(vstd::slice::slice_subrange(self.data.as_slice(), start + offset, start + offset + length))
    }

    /// Reads the field `field_index` of the record `index`.
    fn read_field_value(&self, index: usize, field_index: usize) -> (r: Result<FieldValue, Error>)
        requires
            field_index < self.spec_fields().len(),
        ensures
            r matches Ok(v) ==> self.spec_field_value(index as int, field_index as int) == Ok::<ValueModel, ReadFailure>(v@),
            r matches Err(e) ==> self.spec_field_value(index as int, field_index as int) == Err::<ValueModel, ReadFailure>(failure_of(e.kind))
                && (e.record_context matches Some(c) && c.index == RecordIndex(index)),
    {
        let info = &self.fields_info.inner[field_index];
        let bytes = match self.field_bytes(index, field_index) {
            Ok(b) => b,
            Err(kind) => return Err(Error::record(RecordIndex(index), kind)),
        };
        match FieldValue::read_from(bytes, &self.memo_reader, info, &self.encoding, self.options.character_trim) {
            Ok(v) => Ok(v),
            Err(kind) => Err(Error::field(
                RecordIndex(index),
                FieldContext { index: FieldIndex(field_index), name: info.name.clone(), kind: info.field_type },
                kind,
            )),
        }
    }

    /// The bytes of the record `index` (deletion flag included).
    fn record_bytes(&self, index: usize) -> (r: Result<&[u8], ErrorKind>)
        ensures
            r is Ok <==> self.spec_record_held(index as int),
            r matches Ok(b) ==> b@ == self.spec_data().subrange(
                self.spec_record_start(index as int),
                self.spec_record_start(index as int) + self.spec_record_size(),
            ) && b@.len() >= 1,
            r matches Err(k) ==> k == ErrorKind::UnexpectedEof,
    {
        let _ = self.data.len();
        let size = self.record_size();
        let start = match self.record_start(index) {
            Some(s) => s,
            None => return Err(ErrorKind::UnexpectedEof),
        };
        if start + size > self.data.len() {
            return Err(ErrorKind::UnexpectedEof);
        }
        Ok(vstd::slice::slice_subrange(self.data.as_slice(), start, start + size))
    }

    /// Reads the record `index` with the given reader of records.
    fn read_record_as<R: ReadableRecord>(&self, index: usize) -> (r: Result<R, Error>)
        ensures
            !self.spec_record_held(index as int) ==> (r matches Err(e) && e.kind == ErrorKind::UnexpectedEof),
            r matches Err(e) ==> (e.record_context matches Some(c) && c.index == RecordIndex(index)),
            self.spec_record_values(index as int) matches Ok(s) ==> R::spec_read(s, match r {
                Ok(v) => Some(v),
                Err(_) => None,
            }),
    {
        proof {
            use_type_invariant(self);
        }
        let bytes = match self.record_bytes(index) {
            Ok(b) => b,
            Err(kind) => return Err(Error::record(RecordIndex(index), kind)),
        };
        let fields_bytes = vstd::slice::slice_subrange(bytes, DELETION_FLAG_SIZE, bytes.len());
        let mut field_iterator = FieldIterator::new(
            fields_bytes,
            self.fields_info.as_slice(),
            &self.memo_reader,
            &self.encoding,
            self.options,
        );
        proof {
            self.lemma_record_start(index as int);
            let start = self.spec_record_start(index as int);
            assert(fields_bytes@ =~= self.spec_data().subrange(start + 1, start + self.spec_record_size()));
        }
        match R::read_using(&mut field_iterator) {
            Ok(record) => Ok(record),
            Err(e) => Err(Error::from_field_error(RecordIndex(index), e)),
        }
    }

    /// Reads the record `index` by field name.
    fn read_record(&self, index: usize) -> (r: Result<Record, Error>)
        ensures
            r matches Ok(rec) ==> self.spec_record(index as int) == Ok::<Seq<(Seq<char>, ValueModel)>, ReadFailure>(rec@),
            r matches Err(e) ==> self.spec_record(index as int) == Err::<Seq<(Seq<char>, ValueModel)>, ReadFailure>(failure_of(e.kind))
                && (e.record_context matches Some(c) && c.index == RecordIndex(index)),
    {
        proof {
            use_type_invariant(self);
        }
        let bytes = match self.record_bytes(index) {
            Ok(b) => b,
            Err(kind) => return Err(Error::record(RecordIndex(index), kind)),
        };
        let fields_bytes = vstd::slice::slice_subrange(bytes, DELETION_FLAG_SIZE, bytes.len());
        let mut field_iterator = FieldIterator::new(
            fields_bytes,
            self.fields_info.as_slice(),
            &self.memo_reader,
            &self.encoding,
            self.options,
        );
        proof {
            self.lemma_record_start(index as int);
            let start = self.spec_record_start(index as int);
            assert(fields_bytes@ =~= self.spec_data().subrange(start + 1, start + self.spec_record_size()));
        }
        match Record::read_using(&mut field_iterator) {
            Ok(record) => Ok(record),
            Err(e) => Err(Error::from_field_error(RecordIndex(index), e)),
        }
    }

    /// Writes `bytes` at `pos` in the table.
    /// Writes a value in the field `field_index` of the record
    /// `record_index` (see [`FieldRef::write`]).
    fn write_field_value<V: WritableAsDbaseField>(
        &mut self,
        record_index: RecordIndex,
        field_index: FieldIndex,
        value: &V,
    ) -> (r: Result<(), Error>)
        ensures
            field_index.0 >= old(self).spec_fields().len() ==> (r matches Err(e)
                && e.kind == ErrorKind::EndOfRecord && *final(self) == *old(self)),
            field_index.0 < old(self).spec_fields().len() ==> ({
                let file = *old(self);
                let info = file.spec_fields()[field_index.0 as int];
                let w = spec_written_value(file.spec_encoding(), value.spec_value(), info.field_type);
                let pos = file.spec_field_start(record_index.0 as int, field_index.0 as int);
                &&& r is Ok <==> (w is Ok && w->Ok_0.len() <= info.field_length
                    && file.spec_record_start(record_index.0 as int) + file.spec_record_size() <= usize::MAX)
                &&& r is Ok ==> file.same_but_data(*final(self)) && final(self).spec_data() == spec_write_at(
                    file.spec_data(),
                    pos,
                    w->Ok_0 + repeat_byte(0, (info.field_length - w->Ok_0.len()) as nat),
                )
                &&& r is Err ==> *final(self) == file
                &&& r matches Err(e) ==> (w is Err ==> Some(w->Err_0) == write_failure_of(e.kind))
            }),
    {
        if field_index.0 >= self.fields_info.inner.len() {
            return Err(Error::from_field_error(record_index, FieldError::end_of_record()));
        }
        let index = record_index.0;
        let field = field_index.0;
        let info = &self.fields_info.inner[field];
        let length = info.field_length as usize;
        let ctx = FieldContext { index: field_index, name: info.name.clone(), kind: info.field_type };
        let mut bytes: Vec<u8> = Vec::new();
        match value.write_as(info, &self.encoding, &mut bytes) {
            Ok(()) => {},
            Err(kind) => return Err(Error::field(record_index, ctx, kind)),
        }
        if bytes.len() > length {
            return Err(Error::field(record_index, ctx, ErrorKind::Message(String::from_str("failed to write whole buffer"))));
        }
        let ghost w = bytes@;
        while bytes.len() < length
            invariant
                w.len() <= bytes@.len() <= length,
                bytes@ == w + repeat_byte(0, (bytes@.len() - w.len()) as nat),
            decreases length - bytes@.len(),
        {
            bytes.push(0u8);
            proof {
                assert(repeat_byte(0, (bytes@.len() - 1 - w.len()) as nat).push(0u8) =~= repeat_byte(0, (bytes@.len() - w.len()) as nat));
            }
        }
        let start = match self.record_start(index) {
            Some(s) => s,
            None => return Err(Error::field(record_index, ctx, ErrorKind::Message(String::from_str("the record position does not fit in memory")))),
        };
        proof {
            use_type_invariant(&*self);
            crate::field::lemma_sum_lengths_monotonic(self.fields_info.inner@, field + 1, self.fields_info.inner@.len() as int);
            crate::field::lemma_sum_lengths_bound(self.fields_info.inner@, field as int);
        }
        let offset = match self.fields_info.field_position_in_record(field) {
            Some(o) => o,
            None => return Err(Error::field(record_index, ctx, ErrorKind::UnexpectedEof)),
        };
        self.write_bytes_at(start + offset, bytes.as_slice());
        Ok(())
    }


    fn write_bytes_at(&mut self, pos: usize, bytes: &[u8])
        requires
            pos + bytes@.len() <= usize::MAX,
        ensures
            old(self).same_but_data(*final(self)),
            final(self).spec_data() == spec_write_at(old(self).spec_data(), pos as int, bytes@),
    {
        proof {
            use_type_invariant(&*self);
        }
        let mut data: Vec<u8> = Vec::new();
        std::mem::swap(&mut data, &mut self.data);
        write_at(&mut data, pos, bytes);
        std::mem::swap(&mut data, &mut self.data);
    }

    /// Appends a record after the last one: the deletion flag of a record
    /// that is not deleted, then the bytes that `record` writes; counts it in
    /// the header and writes the header.
    ///
    /// Fails, changing nothing, when `record` fails to write (the error then
    /// names the record after the new one, counting from one as the original
    /// numbering of appended records does) or when the position of the
    /// record does not fit in memory (the error names the new record).
    pub fn append_record<R: WritableRecord>(&mut self, record: &R) -> (r: Result<(), Error>)
        requires
            old(self).spec_header().num_records < u32::MAX,
        ensures
            final(self).spec_fields() == old(self).spec_fields(),
            final(self).spec_encoding() == old(self).spec_encoding(),
            r is Ok ==> final(self).spec_header().num_records == old(self).spec_header().num_records + 1,
            r is Err ==> final(self).spec_header().num_records == old(self).spec_header().num_records,
            ({
                let n = old(self).spec_header().num_records as int;
                let start = old(self).spec_record_start(n);
                let h = Header { num_records: (n + 1) as u32, ..old(self).spec_header() };
                &&& start + old(self).spec_record_size() > usize::MAX ==> r is Err
                &&& r is Ok ==> final(self).spec_header() == h
                    && final(self).spec_memo() == old(self).spec_memo()
                    && final(self).spec_options() == old(self).spec_options()
                    && exists|w: Seq<u8>| final(self).spec_data() == spec_write_at(
                        #[trigger] spec_write_at(old(self).spec_data(), start, seq![32u8] + w),
                        0,
                        spec_header_bytes(h),
                    )
                &&& r matches Err(e) ==> *final(self) == *old(self)
                    && (e.record_context matches Some(c) && (c.index == RecordIndex(n as usize)
                    || c.index == RecordIndex((n + 1) as usize)))
                &&& match record.spec_write(old(self).spec_fields(), old(self).spec_encoding()) {
                    WriteOutcome::Writes(bytes, _) => (r is Ok <==> spec_append_fits(*old(self), n, bytes))
                        && (r is Ok ==> final(self).spec_data() == spec_write_at(
                        spec_write_at(old(self).spec_data(), start, seq![32u8] + bytes),
                        0,
                        spec_header_bytes(h),
                    )) && (r matches Err(e) ==> e.kind is Message && (e.record_context matches Some(c)
                        && c.index == RecordIndex(n as usize))),
                    WriteOutcome::Fails => r matches Err(e) && (e.record_context matches Some(c)
                        && c.index == RecordIndex((n + 1) as usize)),
                    WriteOutcome::Unknown => true,
                }
            }),
    {
        proof {
            use_type_invariant(&*self);
        }
        let index = self.header.num_records as usize;
        let mut field_writer = FieldWriter::new(Vec::new(), self.fields_info.as_slice(), self.encoding);
        match record.write_using(&mut field_writer) {
            Ok(()) => {},
            Err(e) => return Err(Error::from_field_error(RecordIndex(index + 1), e)),
        }
        let fields_bytes = field_writer.into_bytes();
        let bytes = with_deletion_flag(&fields_bytes);
        self.append_written_record(bytes.as_slice())
    }

    /// Writes the bytes of a record that a [`FieldWriter`] wrote after the
    /// last record, counts it in the header and writes the header.
    ///
    /// Fails, changing nothing, when the record's position does not fit in
    /// memory.
    pub fn append_written_record(&mut self, written: &[u8]) -> (r: Result<(), Error>)
        requires
            old(self).spec_header().num_records < u32::MAX,
        ensures
            ({
                let n = old(self).spec_header().num_records as int;
                let start = old(self).spec_record_start(n);
                let h = Header { num_records: (n + 1) as u32, ..old(self).spec_header() };
                &&& r is Ok <==> start + old(self).spec_record_size() <= usize::MAX
                    && start + written@.len() <= usize::MAX
                &&& r is Ok ==> final(self).spec_header() == h && final(self).spec_data()
                    == spec_write_at(spec_write_at(old(self).spec_data(), start, written@), 0, spec_header_bytes(h))
                    && final(self).spec_fields() == old(self).spec_fields()
                    && final(self).spec_encoding() == old(self).spec_encoding()
                    && final(self).spec_memo() == old(self).spec_memo()
                    && final(self).spec_options() == old(self).spec_options()
                &&& r matches Err(e) ==> *final(self) == *old(self) && e.kind is Message
                    && (e.record_context matches Some(c) && c.index == RecordIndex(n as usize))
            }),
    {
        proof {
            use_type_invariant(&*self);
        }
        let index = self.header.num_records as usize;
        let start = match self.record_start(index) {
            Some(s) => s,
            None => return Err(Error::record(RecordIndex(index), ErrorKind::Message(String::from_str("the record position does not fit in memory")))),
        };
        if usize::MAX - start < written.len() {
            return Err(Error::record(RecordIndex(index), ErrorKind::Message(String::from_str("the record position does not fit in memory"))));
        }
        self.write_bytes_at(start, written);
        let mut header = self.header;
        header.num_records = header.num_records + 1;
        self.set_header(header);
        self.sync_all();
        Ok(())
    }

    /// Appends records after the last one, stopping at the first error
    /// (the records before it stay appended).
    ///
    /// Each appended record is written as [`Self::append_record`] writes it
    /// (see [`spec_appended`]).
    pub fn append_records<R: WritableRecord>(&mut self, records: &[R]) -> (r: Result<(), Error>)
        requires
            old(self).spec_header().num_records + records@.len() <= u32::MAX,
        ensures
            final(self).spec_fields() == old(self).spec_fields(),
            final(self).spec_encoding() == old(self).spec_encoding(),
            final(self).spec_memo() == old(self).spec_memo(),
            final(self).spec_options() == old(self).spec_options(),
            records@.len() == 0 ==> r is Ok && *final(self) == *old(self),
            r is Ok ==> final(self).spec_header() == (Header {
                num_records: (old(self).spec_header().num_records + records@.len()) as u32,
                ..old(self).spec_header()
            }),
            r matches Err(e) ==> (e.record_context matches Some(c)
                && old(self).spec_header().num_records <= final(self).spec_header().num_records
                < old(self).spec_header().num_records + records@.len()
                && (c.index.0 == final(self).spec_header().num_records
                || c.index.0 == final(self).spec_header().num_records + 1)),
            r matches Err(e) ==> ({
                let k = final(self).spec_header().num_records - old(self).spec_header().num_records;
                records@[k].spec_write(old(self).spec_fields(), old(self).spec_encoding())
                    matches WriteOutcome::Writes(bytes, _) ==> e.kind is Message && !spec_append_fits(
                    *old(self),
                    final(self).spec_header().num_records as int,
                    bytes,
                )
            }),
            (forall|k: int|
                0 <= k < records@.len() ==> (#[trigger] records@[k].spec_write(
                    old(self).spec_fields(),
                    old(self).spec_encoding(),
                ) matches WriteOutcome::Writes(bytes, _) && spec_append_fits(
                    *old(self),
                    old(self).spec_header().num_records + k,
                    bytes,
                ))) ==> r is Ok && final(self).spec_data() == spec_appended(
                *old(self),
                Seq::new(
                    records@.len(),
                    |k: int|
                        records@[k].spec_write(old(self).spec_fields(), old(self).spec_encoding())->Writes_0,
                ),
            ),
            final(self).spec_header() == (Header {
                num_records: final(self).spec_header().num_records,
                ..old(self).spec_header()
            }),
            exists|ws: Seq<Seq<u8>>|
                ws.len() == final(self).spec_header().num_records - old(self).spec_header().num_records
                    && final(self).spec_data() == #[trigger] spec_appended(*old(self), ws)
                    && forall|k: int| 0 <= k < ws.len() ==> (records@[k].spec_write(
                        old(self).spec_fields(),
                        old(self).spec_encoding(),
                    ) matches WriteOutcome::Writes(bytes, _) ==> #[trigger] ws[k] == bytes),
            r is Ok ==> forall|k: int| 0 <= k < records@.len() ==> !((#[trigger] records@[k].spec_write(
                old(self).spec_fields(),
                old(self).spec_encoding(),
            )) is Fails),
    {
        let ghost n = self.spec_header().num_records as int;
        let ghost mut ws: Seq<Seq<u8>> = Seq::empty();
        let mut i: usize = 0;
        while i < records.len()
            invariant
                0 <= i <= records@.len(),
                n == old(self).spec_header().num_records,
                self.spec_fields() == old(self).spec_fields(),
                self.spec_encoding() == old(self).spec_encoding(),
                self.spec_memo() == old(self).spec_memo(),
                self.spec_options() == old(self).spec_options(),
                self.spec_header() == (Header { num_records: (n + i) as u32, ..old(self).spec_header() }),
                i == 0 ==> *self == *old(self),
                n + records@.len() <= u32::MAX,
                ws.len() == i,
                self.spec_data() == spec_appended(*old(self), ws),
                forall|k: int| 0 <= k < ws.len() ==> (records@[k].spec_write(
                    old(self).spec_fields(),
                    old(self).spec_encoding(),
                ) matches WriteOutcome::Writes(bytes, _) ==> #[trigger] ws[k] == bytes),
                forall|k: int| 0 <= k < i ==> !((#[trigger] records@[k].spec_write(
                    old(self).spec_fields(),
                    old(self).spec_encoding(),
                )) is Fails),
            decreases records@.len() - i,
        {
            let ghost before = *self;
            match self.append_record(&records[i]) {
                Ok(()) => {},
                Err(e) => {
                    assert(ws.len() == self.spec_header().num_records - n);
                    assert(self.spec_record_start(n + i) == old(self).spec_record_start(n + i));
                    return Err(e);
                },
            }
            proof {
                let start = before.spec_record_start(n + i);
                let h = Header { num_records: (n + i + 1) as u32, ..before.spec_header() };
                let w = match records@[i as int].spec_write(old(self).spec_fields(), old(self).spec_encoding()) {
                    WriteOutcome::Writes(bytes, _) => bytes,
                    _ => choose|w: Seq<u8>| self.spec_data() == spec_write_at(
                        #[trigger] spec_write_at(before.spec_data(), start, seq![32u8] + w),
                        0,
                        spec_header_bytes(h),
                    ),
                };
                assert(ws.push(w).drop_last() =~= ws);
                ws = ws.push(w);
            }
            i = i + 1;
        }
        proof {
            let f = old(self).spec_fields();
            let e = old(self).spec_encoding();
            if forall|k: int| 0 <= k < records@.len() ==> (#[trigger] records@[k].spec_write(f, e)) is Writes {
                assert(ws =~= Seq::new(records@.len(), |k: int| records@[k].spec_write(f, e)->Writes_0));
            }
        }
        Ok(())
    }

    fn set_header(&mut self, header: Header)
        requires
            header.last_update.year >= 1900,
        ensures
            *final(self) == (File { header, ..*old(self) }),
            final(self).spec_header() == header,
    {
        proof {
            use_type_invariant(&*self);
        }
        self.header = header;
    }

    /// Writes the header at the start of the table.
    pub fn sync_all(&mut self)
        ensures
            final(self).spec_data() == spec_write_at(old(self).spec_data(), 0, spec_header_bytes(old(self).spec_header())),
            old(self).same_but_data(*final(self)),
    {
        proof {
            use_type_invariant(&*self);
        }
        let mut bytes: Vec<u8> = Vec::new();
        self.header.write_to(&mut bytes);
        assert(bytes@ =~= spec_header_bytes(self.header));
        self.write_bytes_at(0, bytes.as_slice());
    }
}

/// Whether two byte strings are equal once ASCII letters are lowercased.
pub open spec fn ascii_eq_ignore_case(a: Seq<u8>, b: Seq<u8>) -> bool {
    a.len() == b.len() && forall|i: int| 0 <= i < a.len() ==> ascii_lower(a[i]) == ascii_lower(b[i])
}

/// The lowercase of an ASCII upper case letter, any other byte unchanged.
pub open spec fn ascii_lower(c: u8) -> u8 {
    if 65 <= c <= 90 { (c + 32) as u8 } else { c }
}

fn bytes_eq_ignore_ascii_case(a: &[u8], b: &[u8]) -> (r: bool)
    ensures
        r == ascii_eq_ignore_case(a@, b@),
{
    if a.len() != b.len() {
        return false;
    }
    let mut i: usize = 0;
    while i < a.len()
        invariant
            a@.len() == b@.len(),
            0 <= i <= a@.len(),
            forall|k: int| 0 <= k < i ==> ascii_lower(a@[k]) == ascii_lower(b@[k]),
        decreases a@.len() - i,
    {
        let x = if 65 <= a[i] && a[i] <= 90 { a[i] + 32 } else { a[i] };
        let y = if 65 <= b[i] && b[i] <= 90 { b[i] + 32 } else { b[i] };
        if x != y {
            return false;
        }
        i = i + 1;
    }
    true
}

/// 'reference' to a field in a dBase file.
pub struct FieldRef<'a> {
    file: &'a mut File,
    record_index: RecordIndex,
    field_index: FieldIndex,
}

impl<'a> FieldRef<'a> {
    /// The table.
    pub closed spec fn spec_file(&self) -> File {
        *self.file
    }

    /// Index of the record.
    pub closed spec fn spec_record_index(&self) -> int {
        self.record_index.0 as int
    }

    /// Index of the field.
    pub closed spec fn spec_field_index(&self) -> int {
        self.field_index.0 as int
    }

    /// Reads and returns the value
    pub fn read(&self) -> (r: Result<FieldValue, Error>)
        ensures
            self.spec_field_index() >= self.spec_file().spec_fields().len() ==> (r matches Err(e)
                && e.kind == ErrorKind::EndOfRecord),
            self.spec_field_index() < self.spec_file().spec_fields().len() ==> {
                &&& r matches Ok(v) ==> self.spec_file().spec_field_value(self.spec_record_index(), self.spec_field_index())
                    == Ok::<ValueModel, ReadFailure>(v@)
                &&& r matches Err(e) ==> self.spec_file().spec_field_value(self.spec_record_index(), self.spec_field_index())
                    == Err::<ValueModel, ReadFailure>(failure_of(e.kind))
            },
    {
        if self.field_index.0 >= self.file.fields_info.inner.len() {
            return Err(Error::from_field_error(self.record_index, FieldError::end_of_record()));
        }
        self.file.read_field_value(self.record_index.0, self.field_index.0)
    }

    /// Reads and returns the value converted to the requested type
    ///
    /// Fails when the field cannot be read, or when its value does not
    /// convert into `T` (a `BadConversion` error).
    pub fn read_as<T: FromFieldValue>(&self) -> (r: Result<T, Error>)
        ensures
            self.spec_field_index() >= self.spec_file().spec_fields().len() ==> (r matches Err(e)
                && e.kind == ErrorKind::EndOfRecord),
            self.spec_field_index() < self.spec_file().spec_fields().len() ==> match self.spec_file().spec_field_value(
                self.spec_record_index(),
                self.spec_field_index(),
            ) {
                Err(f) => r matches Err(e) && failure_of(e.kind) == f,
                Ok(v) => (r is Ok <==> T::spec_accepts(v)) && (r matches Err(e) ==> e.kind is BadConversion),
            },
    {
        let value = match self.read() {
            Ok(v) => v,
            Err(e) => return Err(e),
        };
        match T::from_field_value(value) {
            Ok(v) => Ok(v),
            Err(e) => {
                let info = &self.file.fields_info.inner[self.field_index.0];
                Err(Error::field(
                    self.record_index,
                    FieldContext { index: self.field_index, name: info.name.clone(), kind: info.field_type },
                    ErrorKind::BadConversion(e),
                ))
            },
        }
    }

    /// Writes the value: its bytes, then zero bytes up to the field length.
    ///
    /// Fails, and changes nothing, when the value is not of the type of the
    /// field, cannot be encoded, or is longer than the field.
    pub fn write<V: WritableAsDbaseField>(&mut self, value: &V) -> (r: Result<(), Error>)
        ensures
            final(self).spec_record_index() == old(self).spec_record_index(),
            final(self).spec_field_index() == old(self).spec_field_index(),
            old(self).spec_field_index() >= old(self).spec_file().spec_fields().len() ==> (r matches Err(e)
                && e.kind == ErrorKind::EndOfRecord && final(self).spec_file() == old(self).spec_file()),
            old(self).spec_field_index() < old(self).spec_file().spec_fields().len() ==> ({
                let file = old(self).spec_file();
                let info = file.spec_fields()[old(self).spec_field_index()];
                let w = spec_written_value(file.spec_encoding(), value.spec_value(), info.field_type);
                let pos = file.spec_field_start(old(self).spec_record_index(), old(self).spec_field_index());
                &&& r is Ok <==> (w is Ok && w->Ok_0.len() <= info.field_length
                    && file.spec_record_start(old(self).spec_record_index()) + file.spec_record_size() <= usize::MAX)
                &&& r is Ok ==> file.same_but_data(final(self).spec_file()) && final(self).spec_file().spec_data() == spec_write_at(
                    file.spec_data(),
                    pos,
                    w->Ok_0 + repeat_byte(0, (info.field_length - w->Ok_0.len()) as nat),
                )
                &&& r is Err ==> final(self).spec_file() == file
                &&& r matches Err(e) ==> (w is Err ==> Some(w->Err_0) == write_failure_of(e.kind))
            }),
    {
        self.file.write_field_value(self.record_index, self.field_index, value)
    }
}

/// 'reference' to a record in a dBase file.
pub struct RecordRef<'a> {
    file: &'a mut File,
    index: RecordIndex,
}

impl<'a> RecordRef<'a> {
    /// The table.
    pub closed spec fn spec_file(&self) -> File {
        *self.file
    }

    /// Index of the record.
    pub closed spec fn spec_index(&self) -> int {
        self.index.0 as int
    }

    /// A reference to the field `index` of the record, `None` if there is
    /// no such field.
    pub fn field<'b>(&'b mut self, index: FieldIndex) -> (r: Option<FieldRef<'b>>)
        ensures
            index.0 >= old(self).spec_file().spec_fields().len() ==> r is None,
            index.0 < old(self).spec_file().spec_fields().len() ==> (r matches Some(f) && f.spec_file()
                == old(self).spec_file() && f.spec_record_index() == old(self).spec_index()
                && f.spec_field_index() == index.0),
            r is None ==> final(self).spec_file() == old(self).spec_file(),
            final(self).spec_index() == old(self).spec_index(),
    {
        if index.0 >= self.file.fields_info.inner.len() {
            return None;
        }
        Some(FieldRef { file: &mut *self.file, record_index: self.index, field_index: index })
    }

    /// Returns the value of the special deletion flag
    ///
    /// - true -> the record is marked as deleted
    /// - false -> the record is **not** marked as deleted
    pub fn is_deleted(&self) -> (r: Result<bool, Error>)
        ensures
            r is Ok <==> self.spec_file().spec_record_held(self.spec_index()),
            r matches Ok(b) ==> b == (self.spec_file().spec_data()[self.spec_file().spec_record_start(self.spec_index())] == 0x2A),
            r matches Err(e) ==> e.kind == ErrorKind::UnexpectedEof,
    {
        let bytes = match self.file.record_bytes(self.index.0) {
            Ok(b) => b,
            Err(kind) => return Err(Error::deletion_flag(self.index, kind)),
        };
        proof {
            self.file.lemma_record_start(self.index.0 as int);
        }
        Ok(DeletionFlag::from_byte(bytes[0]) == DeletionFlag::Deleted)
    }

    /// reads a field from the record
    pub fn read_field(&self, field_index: FieldIndex) -> (r: Result<FieldValue, Error>)
        ensures
            field_index.0 >= self.spec_file().spec_fields().len() ==> (r matches Err(e) && e.kind == ErrorKind::EndOfRecord),
            field_index.0 < self.spec_file().spec_fields().len() ==> {
                &&& r matches Ok(v) ==> self.spec_file().spec_field_value(self.spec_index(), field_index.0 as int)
                    == Ok::<ValueModel, ReadFailure>(v@)
                &&& r matches Err(e) ==> self.spec_file().spec_field_value(self.spec_index(), field_index.0 as int)
                    == Err::<ValueModel, ReadFailure>(failure_of(e.kind))
            },
    {
        if field_index.0 >= self.file.fields_info.inner.len() {
            return Err(Error::from_field_error(self.index, FieldError::end_of_record()));
        }
        self.file.read_field_value(self.index.0, field_index.0)
    }

    /// reads a field from the record, converted to the requested type
    pub fn read_field_as<T: FromFieldValue>(&self, field_index: FieldIndex) -> (r: Result<T, Error>)
        ensures
            field_index.0 >= self.spec_file().spec_fields().len() ==> (r matches Err(e) && e.kind == ErrorKind::EndOfRecord),
            field_index.0 < self.spec_file().spec_fields().len() ==> match self.spec_file().spec_field_value(
                self.spec_index(),
                field_index.0 as int,
            ) {
                Err(f) => r matches Err(e) && failure_of(e.kind) == f,
                Ok(v) => (r is Ok <==> T::spec_accepts(v)) && (r matches Err(e) ==> e.kind is BadConversion),
            },
    {
        let value = match self.read_field(field_index) {
            Ok(v) => v,
            Err(e) => return Err(e),
        };
        match T::from_field_value(value) {
            Ok(v) => Ok(v),
            Err(e) => {
                let info = &self.file.fields_info.inner[field_index.0];
                Err(Error::field(
                    self.index,
                    FieldContext { index: field_index, name: info.name.clone(), kind: info.field_type },
                    ErrorKind::BadConversion(e),
                ))
            },
        }
    }

    /// Reads the record
    pub fn read(&self) -> (r: Result<Record, Error>)
        ensures
            r matches Ok(rec) ==> self.spec_file().spec_record(self.spec_index()) == Ok::<Seq<(Seq<char>, ValueModel)>, ReadFailure>(rec@),
            r matches Err(e) ==> self.spec_file().spec_record(self.spec_index()) == Err::<Seq<(Seq<char>, ValueModel)>, ReadFailure>(failure_of(e.kind)),
            r is Ok <==> self.spec_file().spec_record(self.spec_index()) is Ok,
    {
        self.file.read_record(self.index.0)
    }

    /// Reads the record as the given type
    pub fn read_as<R: ReadableRecord>(&self) -> (r: Result<R, Error>)
        ensures
            !self.spec_file().spec_record_held(self.spec_index()) ==> (r matches Err(e) && e.kind == ErrorKind::UnexpectedEof),
            r matches Err(e) ==> (e.record_context matches Some(c) && c.index.0 == self.spec_index()),
            self.spec_file().spec_record_values(self.spec_index()) matches Ok(s) ==> R::spec_read(s, match r {
                Ok(v) => Some(v),
                Err(_) => None,
            }),
    {
        self.file.read_record_as::<R>(self.index.0)
    }

    /// writes a field to the record
    ///
    /// Writes as [`FieldRef::write`] does: the value's bytes, then zero bytes
    /// up to the field length; fails, changing nothing, when the value is not
    /// of the type of the field, cannot be encoded, or is longer than the
    /// field.
    pub fn write_field<V: WritableAsDbaseField>(&mut self, field_index: FieldIndex, value: &V) -> (r: Result<(), Error>)
        ensures
            field_index.0 >= old(self).spec_file().spec_fields().len() ==> (r matches Err(e) && e.kind == ErrorKind::EndOfRecord
                && final(self).spec_file() == old(self).spec_file()),
            final(self).spec_index() == old(self).spec_index(),
            field_index.0 < old(self).spec_file().spec_fields().len() ==> ({
                let file = old(self).spec_file();
                let info = file.spec_fields()[field_index.0 as int];
                let w = spec_written_value(file.spec_encoding(), value.spec_value(), info.field_type);
                let pos = file.spec_field_start(old(self).spec_index(), field_index.0 as int);
                &&& r is Ok <==> (w is Ok && w->Ok_0.len() <= info.field_length
                    && file.spec_record_start(old(self).spec_index()) + file.spec_record_size() <= usize::MAX)
                &&& r is Ok ==> file.same_but_data(final(self).spec_file()) && final(self).spec_file().spec_data() == spec_write_at(
                    file.spec_data(),
                    pos,
                    w->Ok_0 + repeat_byte(0, (info.field_length - w->Ok_0.len()) as nat),
                )
                &&& r is Err ==> final(self).spec_file() == file
                &&& r matches Err(e) ==> (w is Err ==> Some(w->Err_0) == write_failure_of(e.kind))
            }),
    {
        self.file.write_field_value(self.index, field_index, value)
    }

    /// Writes the content of `record` at the position of this record: the
    /// deletion flag of a record that is not deleted, then the bytes that
    /// `record` writes.
    ///
    /// Fails, changing nothing, when `record` fails to write or when the
    /// position of the record does not fit in memory.
    pub fn write<R: WritableRecord>(&mut self, record: &R) -> (r: Result<(), Error>)
        ensures
            final(self).spec_index() == old(self).spec_index(),
            old(self).spec_file().same_but_data(final(self).spec_file()),
            final(self).spec_file().spec_fields() == old(self).spec_file().spec_fields(),
            final(self).spec_file().spec_header() == old(self).spec_file().spec_header(),
            ({
                let file = old(self).spec_file();
                let start = file.spec_record_start(old(self).spec_index());
                &&& start + file.spec_record_size() > usize::MAX ==> r is Err
                &&& r is Ok ==> exists|w: Seq<u8>|
                    final(self).spec_file().spec_data() == #[trigger] spec_write_at(
                        file.spec_data(),
                        start,
                        seq![32u8] + w,
                    )
                &&& r matches Err(e) ==> final(self).spec_file() == file
                    && (e.record_context matches Some(c) && c.index == RecordIndex(
                        old(self).spec_index() as usize,
                    ))
                &&& match record.spec_write(file.spec_fields(), file.spec_encoding()) {
                    WriteOutcome::Writes(bytes, _) => (r is Ok <==> start + file.spec_record_size() <= usize::MAX
                        && start + 1 + bytes.len() <= usize::MAX) && (r is Ok ==> final(self).spec_file().spec_data()
                        == spec_write_at(file.spec_data(), start, seq![32u8] + bytes)),
                    WriteOutcome::Fails => r is Err,
                    WriteOutcome::Unknown => true,
                }
            }),
    {
        let index = self.index.0;
        let start = match self.file.record_start(index) {
            Some(s) => s,
            None => return Err(Error::record(self.index, ErrorKind::Message(String::from_str("the record position does not fit in memory")))),
        };
        let mut field_writer = FieldWriter::new(Vec::new(), self.file.fields_info.as_slice(), self.file.encoding);
        match record.write_using(&mut field_writer) {
            Ok(()) => {},
            Err(e) => return Err(Error::from_field_error(self.index, e)),
        }
        let fields_bytes = field_writer.into_bytes();
        let bytes = with_deletion_flag(&fields_bytes);
        if usize::MAX - start < bytes.len() {
            return Err(Error::record(self.index, ErrorKind::Message(String::from_str("the record position does not fit in memory"))));
        }
        self.file.write_bytes_at(start, bytes.as_slice());
        assert(self.file.spec_data() == spec_write_at(old(self).spec_file().spec_data(), start as int, seq![32u8] + fields_bytes@));
        Ok(())
    }
}

/// Iterator over the records in a File
pub struct FileRecordIterator<'a> {
    file: &'a mut File,
    current_record: RecordIndex,
}

impl<'a> FileRecordIterator<'a> {
    /// The table.
    pub closed spec fn spec_file(&self) -> File {
        *self.file
    }

    /// Index of the next record.
    pub closed spec fn spec_current(&self) -> int {
        self.current_record.0 as int
    }

    /// A reference to the next record, `None` once past the last one.
    pub fn next<'s>(&'s mut self) -> (r: Option<RecordRef<'s>>)
        ensures
            old(self).spec_current() >= old(self).spec_file().spec_header().num_records ==> r is None,
            old(self).spec_current() < old(self).spec_file().spec_header().num_records ==> (r matches Some(rr)
                && rr.spec_index() == old(self).spec_current() && rr.spec_file() == old(self).spec_file()),
            r is None ==> final(self).spec_current() == old(self).spec_current()
                && final(self).spec_file() == old(self).spec_file(),
            r is Some ==> final(self).spec_current() == old(self).spec_current() + 1,
    {
        let index = self.current_record.0;
        if index >= self.file.header.num_records as usize {
            return None;
        }
        self.current_record = RecordIndex(index + 1);
        Some(RecordRef { file: &mut *self.file, index: RecordIndex(index) })
    }
}


/// A value written in a field of a table reads back as itself: once
/// [`FieldRef::write`] has written it (its bytes then zero bytes up to the
/// field length), reading the field gives the value, when it fits the field
/// (see [`value_fits_zero_padded`]), the encoding writes UTF-8, character
/// fields are not trimmed only at their beginning, and the table held the
/// record. Every other field of every record the table held reads as
/// before.
pub proof fn lemma_field_write_read(before: File, after: File, i: int, j: int, v: ValueModel)
    requires
        0 <= i,
        0 <= j < before.spec_fields().len(),
        before.spec_record_held(i),
        utf8_writer(before.spec_encoding()),
        before.spec_options().character_trim != TrimOption::Begin,
        value_fits_zero_padded(before.spec_encoding(), v, before.spec_fields()[j]),
        before.same_but_data(after),
        after.spec_data() == spec_write_at(
            before.spec_data(),
            before.spec_field_start(i, j),
            spec_written_value(before.spec_encoding(), v, before.spec_fields()[j].field_type)->Ok_0
                + repeat_byte(
                0,
                (before.spec_fields()[j].field_length - spec_written_value(
                    before.spec_encoding(),
                    v,
                    before.spec_fields()[j].field_type,
                )->Ok_0.len()) as nat,
            ),
        ),
    ensures
        after.spec_field_value(i, j) == Ok::<ValueModel, ReadFailure>(v),
        forall|i2: int, j2: int|
            0 <= i2 && 0 <= j2 < before.spec_fields().len() && (i2 != i || j2 != j)
                && before.spec_record_held(i2) ==> #[trigger] after.spec_field_value(i2, j2)
                == before.spec_field_value(i2, j2),
{
    assert forall|i2: int, j2: int|
        0 <= i2 && 0 <= j2 < before.spec_fields().len() && (i2 != i || j2 != j)
            && before.spec_record_held(i2) implies #[trigger] after.spec_field_value(i2, j2)
            == before.spec_field_value(i2, j2) by {
        lemma_other_field_kept(before, after, i, j, v, i2, j2);
    }
    let info = before.spec_fields()[j];
    let enc = before.spec_encoding();
    lemma_field_roundtrip_zero_padded(enc, v, info, before.spec_options().character_trim, before.spec_memo());
    let w = spec_written_value(enc, v, info.field_type)->Ok_0;
    let padded = w + repeat_byte(0, (info.field_length - w.len()) as nat);
    let pos = before.spec_field_start(i, j);
    before.lemma_record_start(i);
    crate::field::lemma_sum_lengths_monotonic(before.spec_fields(), j + 1, before.spec_fields().len() as int);
    crate::field::lemma_sum_lengths_bound(before.spec_fields(), j);
    assert(sum_lengths(before.spec_fields(), j + 1) == sum_lengths(before.spec_fields(), j) + info.field_length);
    assert(pos + padded.len() <= before.spec_data().len());
    assert(after.spec_data().len() == before.spec_data().len());
    assert(after.spec_data().subrange(pos, pos + info.field_length) =~= padded);
}
/// The bytes of two different fields do not overlap.
proof fn lemma_fields_apart(f: File, i: int, j: int, i2: int, j2: int)
    requires
        0 <= i,
        0 <= i2,
        0 <= j < f.spec_fields().len(),
        0 <= j2 < f.spec_fields().len(),
        i != i2 || j != j2,
    ensures
        f.spec_field_start(i2, j2) + f.spec_fields()[j2].field_length <= f.spec_field_start(i, j)
            || f.spec_field_start(i, j) + f.spec_fields()[j].field_length <= f.spec_field_start(i2, j2),
{
    let fields = f.spec_fields();
    let nf = fields.len() as int;
    let size = f.spec_record_size();
    crate::field::lemma_sum_lengths_monotonic(fields, j + 1, nf);
    crate::field::lemma_sum_lengths_monotonic(fields, j2 + 1, nf);
    crate::field::lemma_sum_lengths_bound(fields, j);
    crate::field::lemma_sum_lengths_bound(fields, j2);
    if i == i2 {
        if j < j2 {
            crate::field::lemma_sum_lengths_monotonic(fields, j + 1, j2);
        } else {
            crate::field::lemma_sum_lengths_monotonic(fields, j2 + 1, j);
        }
    } else if i < i2 {
        assert(i * size + size <= i2 * size) by (nonlinear_arith)
            requires
                i < i2,
                size >= 1,
        ;
    } else {
        assert(i2 * size + size <= i * size) by (nonlinear_arith)
            requires
                i2 < i,
                size >= 1,
        ;
    }
}

/// A field write keeps every other field of the table.
proof fn lemma_other_field_kept(before: File, after: File, i: int, j: int, v: ValueModel, i2: int, j2: int)
    requires
        0 <= i,
        0 <= j < before.spec_fields().len(),
        before.spec_record_held(i),
        utf8_writer(before.spec_encoding()),
        before.spec_options().character_trim != TrimOption::Begin,
        value_fits_zero_padded(before.spec_encoding(), v, before.spec_fields()[j]),
        before.same_but_data(after),
        after.spec_data() == spec_write_at(
            before.spec_data(),
            before.spec_field_start(i, j),
            spec_written_value(before.spec_encoding(), v, before.spec_fields()[j].field_type)->Ok_0
                + repeat_byte(
                0,
                (before.spec_fields()[j].field_length - spec_written_value(
                    before.spec_encoding(),
                    v,
                    before.spec_fields()[j].field_type,
                )->Ok_0.len()) as nat,
            ),
        ),
        0 <= i2,
        0 <= j2 < before.spec_fields().len(),
        i2 != i || j2 != j,
        before.spec_record_held(i2),
    ensures
        after.spec_field_value(i2, j2) == before.spec_field_value(i2, j2),
{
    let info = before.spec_fields()[j];
    let enc = before.spec_encoding();
    lemma_field_roundtrip_zero_padded(enc, v, info, before.spec_options().character_trim, before.spec_memo());
    let w = spec_written_value(enc, v, info.field_type)->Ok_0;
    let padded = w + repeat_byte(0, (info.field_length - w.len()) as nat);
    let pos = before.spec_field_start(i, j);
    before.lemma_record_start(i);
    before.lemma_record_start(i2);
    crate::field::lemma_sum_lengths_monotonic(before.spec_fields(), j + 1, before.spec_fields().len() as int);
    crate::field::lemma_sum_lengths_bound(before.spec_fields(), j);
    crate::field::lemma_sum_lengths_monotonic(before.spec_fields(), j2 + 1, before.spec_fields().len() as int);
    crate::field::lemma_sum_lengths_bound(before.spec_fields(), j2);
    assert(padded.len() == info.field_length);
    lemma_write_at(before.spec_data(), pos, padded);
    lemma_fields_apart(before, i, j, i2, j2);
    let p2 = before.spec_field_start(i2, j2);
    let l2 = before.spec_fields()[j2].field_length;
    assert(after.spec_data().len() == before.spec_data().len());
    assert(after.spec_data().subrange(p2, p2 + l2) =~= before.spec_data().subrange(p2, p2 + l2)) by {
        assert forall|x: int| p2 <= x < p2 + l2 implies after.spec_data()[x] == before.spec_data()[x] by {}
    }
}

} // verus!
