//! Reading of tables: the layout read from the header and field
//! descriptors, and the records read field by field.

use crate::encoding::{Ascii, DynEncoding, Encoding, UnicodeLossy};
use crate::error::{
    Error, ErrorKind, FieldConversionError, FieldError, FieldIndex, RecordContext, RecordIndex,
};
use crate::field::{
    descriptor_readable, parsed_field_info, sum_lengths, FieldInfo, FieldsInfo, DELETION_FLAG_SIZE,
    MAX_NUM_FIELDS,
};
use crate::header::{spec_parse_header, spec_supported_memo_type, Header};
use crate::memo::{spec_memo_header, MemoFileType, MemoReader};
use crate::record::{spec_record_of, Record};
use crate::types::{Date, DateTime, FieldType};
use crate::value::{
    failure_of, spec_read_field, spec_value_type, FieldValue, ReadFailure, TrimOption, ValueModel,
};
use vstd::prelude::*;

verus! {

/// Value of the byte between the last field descriptor and the first record
pub const TERMINATOR_VALUE: u8 = 0x0D;

/// Size of the backlink of Visual FoxPro files, after the field descriptors.
pub const BACKLINK_SIZE: u16 = 263;

/// Options of the reading of records.
#[derive(Copy, Clone, Debug, PartialEq, Eq, Structural)]
pub struct ReadingOptions {
    /// How the spaces around character fields are trimmed.
    pub character_trim: TrimOption,
}

impl ReadingOptions {
    /// The default options: character fields are trimmed at both ends.
    pub fn default_options() -> (r: Self)
        ensures
            r.character_trim == TrimOption::BeginEnd,
    {
        Self { character_trim: TrimOption::BeginEnd }
    }

    /// Sets how character fields are trimmed.
    pub fn character_trim(self, trim_option: TrimOption) -> (r: Self)
        ensures
            r.character_trim == trim_option,
    {
        Self { character_trim: trim_option }
    }
}

/// The layout of a table: its header, field descriptors and encoding.
#[derive(Debug, Clone)]
pub struct TableInfo {
    pub header: Header,
    pub fields_info: Vec<FieldInfo>,
    pub encoding: DynEncoding,
}

/// Simple struct to wrap together the value with the name
/// of the field it belongs to
#[derive(Debug)]
pub struct NamedValue<'a, T> {
    pub name: &'a str,
    pub value: T,
}

/// Number of field descriptors a header announces: those between the header
/// and the first record (minus the Visual FoxPro backlink), the terminator
/// byte excluded. `None` when the offset is too small to hold the header and
/// the terminator.
pub open spec fn spec_num_fields(h: Header) -> Option<int> {
    let offset = if h.file_type == crate::header::Version::VisualFoxPro {
        h.offset_to_first_record - BACKLINK_SIZE
    } else {
        h.offset_to_first_record as int
    };
    if offset < 33 {
        None
    } else {
        Some((offset - 33) / 32)
    }
}

/// Number of field descriptors a header announces (see [`spec_num_fields`]).
pub fn num_fields_of(header: &Header) -> (r: Option<usize>)
    ensures
        r is Some <==> spec_num_fields(*header) is Some,
        r matches Some(n) ==> n == spec_num_fields(*header)->Some_0 && n <= MAX_NUM_FIELDS,
{
    let offset: u16 = if header.file_type.is_visual_fox_pro() {
        if header.offset_to_first_record < BACKLINK_SIZE {
            return None;
        }
        header.offset_to_first_record - BACKLINK_SIZE
    } else {
        header.offset_to_first_record
    };
    if offset < 33 {
        None
    } else {
        Some(((offset - 33) / 32) as usize)
    }
}

/// The values of the first `n` fields of a record, read in order from the
/// record bytes `rec` (its deletion flag excluded), each with the name of
/// its field; or the index of the first field that could not be read, and
/// why.
pub open spec fn spec_read_values(
    enc: DynEncoding,
    rec: Seq<u8>,
    fields: Seq<FieldInfo>,
    trim: TrimOption,
    memo: Option<MemoReader>,
    n: int,
) -> Result<Seq<(Seq<char>, ValueModel)>, (int, ReadFailure)>
    decreases n,
{
    if n <= 0 {
        Ok(Seq::empty())
    } else {
        match spec_read_values(enc, rec, fields, trim, memo, n - 1) {
            Err(e) => Err(e),
            Ok(s) => {
                let info = fields[n - 1];
                let start = sum_lengths(fields, n - 1);
                let end = start + info.field_length;
                if end > rec.len() {
                    Err((n - 1, ReadFailure::UnexpectedEof))
                } else {
                    match spec_read_field(
                        enc,
                        rec.subrange(start, end),
                        info.field_type,
                        info.field_length,
                        trim,
                        memo,
                    ) {
                        Ok(v) => Ok(s.push((info.name@, v))),
                        Err(f) => Err((n - 1, f)),
                    }
                }
            },
        }
    }
}

/// Once a field fails, reading more fields fails the same way.
pub proof fn lemma_read_values_err(
    enc: DynEncoding,
    rec: Seq<u8>,
    fields: Seq<FieldInfo>,
    trim: TrimOption,
    memo: Option<MemoReader>,
    j: int,
    m: int,
)
    requires
        0 <= j <= m,
        spec_read_values(enc, rec, fields, trim, memo, j) is Err,
    ensures
        spec_read_values(enc, rec, fields, trim, memo, m) == spec_read_values(
            enc,
            rec,
            fields,
            trim,
            memo,
            j,
        ),
    decreases m,
{
    if m > j {
        lemma_read_values_err(enc, rec, fields, trim, memo, j, m - 1);
    }
}

/// Iterator over the fields in a dBase record
///
/// This iterator only iterates over the fields contained in one record
/// and will keep returning [None] when the last field was read.
/// And will not go through the fields of the next record.
pub struct FieldIterator<'a> {
    /// The bytes of the record, its deletion flag excluded.
    pub(crate) source: &'a [u8],
    pub(crate) fields_info: &'a [FieldInfo],
    pub(crate) next_index: usize,
    /// Position of the next field in `source`.
    pub(crate) position: usize,
    pub(crate) memo_reader: &'a Option<MemoReader>,
    pub(crate) encoding: &'a DynEncoding,
    pub(crate) options: ReadingOptions,
}

impl<'a> FieldIterator<'a> {
    #[verifier::type_invariant]
    closed spec fn position_matches(&self) -> bool {
        &&& self.fields_info@.len() <= MAX_NUM_FIELDS
        &&& self.next_index <= self.fields_info@.len()
        &&& self.position == sum_lengths(self.fields_info@, self.next_index as int)
    }

    /// The record bytes.
    pub closed spec fn spec_source(&self) -> Seq<u8> {
        self.source@
    }

    /// The fields of the record.
    pub closed spec fn spec_fields(&self) -> Seq<FieldInfo> {
        self.fields_info@
    }

    /// Index of the next field.
    pub closed spec fn spec_next(&self) -> int {
        self.next_index as int
    }

    /// Position of the next field.
    pub closed spec fn spec_position(&self) -> int {
        self.position as int
    }

    /// The memo reader, encoding and trim option of the fields.
    pub closed spec fn spec_context(&self) -> (Option<MemoReader>, DynEncoding, TrimOption) {
        (*self.memo_reader, *self.encoding, self.options.character_trim)
    }

    /// An iterator over the fields of the record `source` (deletion flag excluded).
    pub fn new(
        source: &'a [u8],
        fields_info: &'a [FieldInfo],
        memo_reader: &'a Option<MemoReader>,
        encoding: &'a DynEncoding,
        options: ReadingOptions,
    ) -> (r: Self)
        requires
            fields_info@.len() <= MAX_NUM_FIELDS,
        ensures
            r.spec_source() == source@,
            r.spec_fields() == fields_info@,
            r.spec_next() == 0,
            r.spec_position() == 0,
            r.spec_context() == (*memo_reader, *encoding, options.character_trim),
    {
        Self { source, fields_info, next_index: 0, position: 0, memo_reader, encoding, options }
    }

    /// Reads the next field and returns its name and value
    pub fn read_next_field(&mut self) -> (r: Option<Result<NamedValue<'a, FieldValue>, FieldError>>)
        ensures
            final(self).spec_source() == old(self).spec_source(),
            final(self).spec_fields() == old(self).spec_fields(),
            final(self).spec_context() == old(self).spec_context(),
            old(self).spec_next() >= old(self).spec_fields().len() ==> r is None && *final(self) == *old(self),
            old(self).spec_next() < old(self).spec_fields().len() ==> {
                let info = old(self).spec_fields()[old(self).spec_next()];
                let start = old(self).spec_position();
                let end = start + info.field_length;
                let ctx = old(self).spec_context();
                &&& final(self).spec_next() == old(self).spec_next() + 1
                &&& final(self).spec_position() == end
                &&& end > old(self).spec_source().len() ==> (r matches Some(Err(e)) && e.kind == ErrorKind::UnexpectedEof)
                &&& end <= old(self).spec_source().len() ==> {
                    let expected = spec_read_field(
                        ctx.1,
                        old(self).spec_source().subrange(start, end),
                        info.field_type,
                        info.field_length,
                        ctx.2,
                        ctx.0,
                    );
                    &&& r matches Some(Ok(nv)) ==> expected == Ok::<ValueModel, ReadFailure>(nv.value@)
                        && nv.name@ == info.name@
                    &&& r matches Some(Err(e)) ==> expected == Err::<ValueModel, ReadFailure>(failure_of(e.kind))
                    &&& r is Some
                }
            },
    {
        if self.next_index >= self.fields_info.len() {
            return None;
        }
        let index = self.next_index;
        let field_info = &self.fields_info[index];
        let start = self.position;
        let length = field_info.field_length as usize;
        proof {
            use_type_invariant(&*self);
            crate::field::lemma_sum_lengths_bound(self.fields_info@, index + 1);
            crate::field::lemma_sum_lengths_monotonic(self.fields_info@, index + 1, self.fields_info@.len() as int);
        }
        *self = Self {
            source: self.source,
            fields_info: self.fields_info,
            next_index: index + 1,
            position: start + length,
            memo_reader: self.memo_reader,
            encoding: self.encoding,
            options: self.options,
        };
        if start > self.source.len() || self.source.len() - start < length {
            return Some(Err(FieldError::from_info(FieldIndex(index), &field_info.name, field_info.field_type, ErrorKind::UnexpectedEof)));
        }
        let field_bytes = vstd::slice::slice_subrange(self.source, start, start + length);
        match FieldValue::read_from(field_bytes, self.memo_reader, field_info, self.encoding, self.options.character_trim) {
            Ok(value) => Some(Ok(NamedValue { name: field_info.name.as_str(), value })),
            Err(kind) => Some(Err(FieldError::from_info(FieldIndex(index), &field_info.name, field_info.field_type, kind))),
        }
    }
}

impl<'a> FieldIterator<'a> {
    /// Reads the next field and converts it into the requested type
    ///
    /// Fails with `EndOfRecord` when every field was already read.
    pub fn read_next_field_as<F: FromFieldValue>(&mut self) -> (r: Result<NamedValue<'a, F>, FieldError>)
        ensures
            final(self).spec_source() == old(self).spec_source(),
            final(self).spec_fields() == old(self).spec_fields(),
            final(self).spec_context() == old(self).spec_context(),
            old(self).spec_next() >= old(self).spec_fields().len() ==> (r matches Err(e) && e.kind
                == ErrorKind::EndOfRecord) && *final(self) == *old(self),
            old(self).spec_next() < old(self).spec_fields().len() ==> final(self).spec_next()
                == old(self).spec_next() + 1,
            old(self).spec_next() < old(self).spec_fields().len() && r is Ok ==> {
                let info = old(self).spec_fields()[old(self).spec_next()];
                let start = old(self).spec_position();
                let ctx = old(self).spec_context();
                spec_read_field(
                    ctx.1,
                    old(self).spec_source().subrange(start, start + info.field_length),
                    info.field_type,
                    info.field_length,
                    ctx.2,
                    ctx.0,
                ) is Ok
            },
            old(self).spec_next() < old(self).spec_fields().len() ==> ({
                let info = old(self).spec_fields()[old(self).spec_next()];
                let start = old(self).spec_position();
                let ctx = old(self).spec_context();
                r matches Ok(nv) ==> (spec_read_field(
                    ctx.1,
                    old(self).spec_source().subrange(start, start + info.field_length),
                    info.field_type,
                    info.field_length,
                    ctx.2,
                    ctx.0,
                ) matches Ok(m) && F::spec_converts(m, nv.value) && nv.name@ == info.name@)
            }),
    {
        match self.read_next_field() {
            None => Err(FieldError::end_of_record()),
            Some(Err(e)) => Err(e),
            Some(Ok(nv)) => {
                let index = self.next_index - 1;
                match F::from_field_value(nv.value) {
                    Ok(v) => Ok(NamedValue { name: nv.name, value: v }),
                    Err(e) => {
                        let info = &self.fields_info[index];
                        Err(FieldError::from_info(FieldIndex(index), &info.name, info.field_type, ErrorKind::BadConversion(e)))
                    },
                }
            },
        }
    }

    /// Skips the next field of the record, useful if the field does not interest you
    /// but the ones after do.
    ///
    /// Does nothing if the last field of the record was already skipped or read.
    pub fn skip_next_field(&mut self)
        ensures
            final(self).spec_source() == old(self).spec_source(),
            final(self).spec_fields() == old(self).spec_fields(),
            final(self).spec_context() == old(self).spec_context(),
            old(self).spec_next() >= old(self).spec_fields().len() ==> *final(self) == *old(self),
            old(self).spec_next() < old(self).spec_fields().len() ==> final(self).spec_next() == old(self).spec_next() + 1
                && final(self).spec_position() == old(self).spec_position() + old(self).spec_fields()[old(self).spec_next()].field_length,
    {
        if self.next_index >= self.fields_info.len() {
            return;
        }
        let index = self.next_index;
        proof {
            use_type_invariant(&*self);
            crate::field::lemma_sum_lengths_bound(self.fields_info@, index + 1);
            crate::field::lemma_sum_lengths_monotonic(self.fields_info@, index + 1, self.fields_info@.len() as int);
        }
        let length = self.fields_info[index].field_length as usize;
        *self = Self {
            source: self.source,
            fields_info: self.fields_info,
            next_index: index + 1,
            position: self.position + length,
            memo_reader: self.memo_reader,
            encoding: self.encoding,
            options: self.options,
        };
    }

    /// Skips all the remaining fields of the record.
    pub fn skip_remaining_fields(&mut self)
        ensures
            final(self).spec_source() == old(self).spec_source(),
            final(self).spec_fields() == old(self).spec_fields(),
            final(self).spec_context() == old(self).spec_context(),
            final(self).spec_next() >= final(self).spec_fields().len(),
    {
        loop
            invariant
                self.spec_source() == old(self).spec_source(),
                self.spec_fields() == old(self).spec_fields(),
                self.spec_context() == old(self).spec_context(),
            ensures
                self.spec_source() == old(self).spec_source(),
                self.spec_fields() == old(self).spec_fields(),
                self.spec_context() == old(self).spec_context(),
                self.spec_next() >= self.spec_fields().len(),
            decreases self.spec_fields().len() - self.spec_next(),
        {
            proof {
                use_type_invariant(&*self);
            }
            if self.next_index >= self.fields_info.len() {
                break;
            }
            self.skip_next_field();
        }
    }

    /// Whether every field of the record was read or skipped.
    pub fn is_at_end(&self) -> (r: bool)
        ensures
            r == (self.spec_next() >= self.spec_fields().len()),
            0 <= self.spec_next() <= self.spec_fields().len(),
            self.spec_position() == sum_lengths(self.spec_fields(), self.spec_next()),
            self.spec_fields().len() <= MAX_NUM_FIELDS,
    {
        proof {
            use_type_invariant(self);
        }
        self.next_index >= self.fields_info.len()
    }
}

/// Types a field value can be converted into, when reading records.
pub trait FromFieldValue: Sized {
    /// Whether a value of this model converts into the type.
    spec fn spec_accepts(value: ValueModel) -> bool;

    /// Whether `result` is what a value of this model converts into.
    spec fn spec_converts(value: ValueModel, result: Self) -> bool;

    /// Converts the value, or says why it cannot be.
    fn from_field_value(value: FieldValue) -> (r: Result<Self, FieldConversionError>)
        ensures
            r is Ok <==> Self::spec_accepts(value@),
            r matches Ok(v) ==> Self::spec_converts(value@, v),
    ;
}

impl FromFieldValue for FieldValue {
    open spec fn spec_converts(value: ValueModel, result: Self) -> bool {
        result@ == value
    }

    open spec fn spec_accepts(value: ValueModel) -> bool {
        true
    }

    fn from_field_value(value: FieldValue) -> (r: Result<Self, FieldConversionError>)
        ensures
            r matches Ok(v) && v@ == value@,
    {
        Ok(value)
    }
}

impl FromFieldValue for Option<String> {
    open spec fn spec_converts(value: ValueModel, result: Self) -> bool {
        value == ValueModel::Character(crate::value::opt_chars(result))
    }

    open spec fn spec_accepts(value: ValueModel) -> bool {
        value is Character
    }

    fn from_field_value(value: FieldValue) -> (r: Result<Self, FieldConversionError>)
        ensures
            value is Character <==> r is Ok,
            r matches Ok(v) ==> value@ == ValueModel::Character(crate::value::opt_chars(v)),
            r is Err ==> r == Err::<Option<String>, FieldConversionError>(FieldConversionError::FieldTypeNotAsExpected { expected: FieldType::Character, actual: spec_value_type(value@) }),
    {
        let actual = value.field_type();
        match value {
            FieldValue::Character(v) => Ok(v),
            _ => Err(FieldConversionError::FieldTypeNotAsExpected { expected: FieldType::Character, actual }),
        }
    }
}

impl FromFieldValue for String {
    open spec fn spec_converts(value: ValueModel, result: Self) -> bool {
        value == ValueModel::Character(Some(result@))
    }

    open spec fn spec_accepts(value: ValueModel) -> bool {
        value matches ValueModel::Character(Some(_))
    }

    fn from_field_value(value: FieldValue) -> (r: Result<Self, FieldConversionError>)
        ensures
            r matches Ok(v) ==> value@ == ValueModel::Character(Some(v@)),
            value matches FieldValue::Character(Some(_)) <==> r is Ok,
            value matches FieldValue::Character(None) ==> r == Err::<String, FieldConversionError>(FieldConversionError::NoneValue),
            !(value is Character) ==> r == Err::<String, FieldConversionError>(FieldConversionError::FieldTypeNotAsExpected { expected: FieldType::Character, actual: spec_value_type(value@) }),
    {
        let actual = value.field_type();
        match value {
            FieldValue::Character(Some(s)) => Ok(s),
            FieldValue::Character(None) => Err(FieldConversionError::NoneValue),
            _ => Err(FieldConversionError::FieldTypeNotAsExpected { expected: FieldType::Character, actual }),
        }
    }
}

impl FromFieldValue for Option<bool> {
    open spec fn spec_converts(value: ValueModel, result: Self) -> bool {
        value == ValueModel::Logical(result)
    }

    open spec fn spec_accepts(value: ValueModel) -> bool {
        value is Logical
    }

    fn from_field_value(value: FieldValue) -> (r: Result<Self, FieldConversionError>)
        ensures
            value is Logical <==> r is Ok,
            r matches Ok(v) ==> value@ == ValueModel::Logical(v),
            r is Err ==> r == Err::<Option<bool>, FieldConversionError>(FieldConversionError::FieldTypeNotAsExpected { expected: FieldType::Logical, actual: spec_value_type(value@) }),
    {
        let actual = value.field_type();
        match value {
            FieldValue::Logical(v) => Ok(v),
            _ => Err(FieldConversionError::FieldTypeNotAsExpected { expected: FieldType::Logical, actual }),
        }
    }
}

impl FromFieldValue for bool {
    open spec fn spec_converts(value: ValueModel, result: Self) -> bool {
        value == ValueModel::Logical(Some(result))
    }

    open spec fn spec_accepts(value: ValueModel) -> bool {
        value matches ValueModel::Logical(Some(_))
    }

    fn from_field_value(value: FieldValue) -> (r: Result<Self, FieldConversionError>)
        ensures
            r matches Ok(v) ==> value@ == ValueModel::Logical(Some(v)),
            value matches FieldValue::Logical(Some(_)) <==> r is Ok,
            value matches FieldValue::Logical(None) ==> r == Err::<bool, FieldConversionError>(FieldConversionError::NoneValue),
            !(value is Logical) ==> r == Err::<bool, FieldConversionError>(FieldConversionError::FieldTypeNotAsExpected { expected: FieldType::Logical, actual: spec_value_type(value@) }),
    {
        let actual = value.field_type();
        match value {
            FieldValue::Logical(Some(b)) => Ok(b),
            FieldValue::Logical(None) => Err(FieldConversionError::NoneValue),
            _ => Err(FieldConversionError::FieldTypeNotAsExpected { expected: FieldType::Logical, actual }),
        }
    }
}

impl FromFieldValue for Option<Date> {
    open spec fn spec_converts(value: ValueModel, result: Self) -> bool {
        value == ValueModel::Date(result)
    }

    open spec fn spec_accepts(value: ValueModel) -> bool {
        value is Date
    }

    fn from_field_value(value: FieldValue) -> (r: Result<Self, FieldConversionError>)
        ensures
            value is Date <==> r is Ok,
            r matches Ok(v) ==> value@ == ValueModel::Date(v),
            r is Err ==> r == Err::<Option<Date>, FieldConversionError>(FieldConversionError::FieldTypeNotAsExpected { expected: FieldType::Date, actual: spec_value_type(value@) }),
    {
        let actual = value.field_type();
        match value {
            FieldValue::Date(v) => Ok(v),
            _ => Err(FieldConversionError::FieldTypeNotAsExpected { expected: FieldType::Date, actual }),
        }
    }
}

impl FromFieldValue for Date {
    open spec fn spec_converts(value: ValueModel, result: Self) -> bool {
        value == ValueModel::Date(Some(result))
    }

    open spec fn spec_accepts(value: ValueModel) -> bool {
        value matches ValueModel::Date(Some(_))
    }

    fn from_field_value(value: FieldValue) -> (r: Result<Self, FieldConversionError>)
        ensures
            r matches Ok(v) ==> value@ == ValueModel::Date(Some(v)),
            value matches FieldValue::Date(Some(_)) <==> r is Ok,
            value matches FieldValue::Date(None) ==> r == Err::<Date, FieldConversionError>(FieldConversionError::NoneValue),
            !(value is Date) ==> r == Err::<Date, FieldConversionError>(FieldConversionError::FieldTypeNotAsExpected { expected: FieldType::Date, actual: spec_value_type(value@) }),
    {
        let actual = value.field_type();
        match value {
            FieldValue::Date(Some(d)) => Ok(d),
            FieldValue::Date(None) => Err(FieldConversionError::NoneValue),
            _ => Err(FieldConversionError::FieldTypeNotAsExpected { expected: FieldType::Date, actual }),
        }
    }
}

impl FromFieldValue for i32 {
    open spec fn spec_converts(value: ValueModel, result: Self) -> bool {
        value == ValueModel::Integer(result)
    }

    open spec fn spec_accepts(value: ValueModel) -> bool {
        value is Integer
    }

    fn from_field_value(value: FieldValue) -> (r: Result<Self, FieldConversionError>)
        ensures
            value is Integer <==> r is Ok,
            r matches Ok(v) ==> value@ == ValueModel::Integer(v),
            r is Err ==> r == Err::<i32, FieldConversionError>(FieldConversionError::FieldTypeNotAsExpected { expected: FieldType::Integer, actual: spec_value_type(value@) }),
    {
        let actual = value.field_type();
        match value {
            FieldValue::Integer(v) => Ok(v),
            _ => Err(FieldConversionError::FieldTypeNotAsExpected { expected: FieldType::Integer, actual }),
        }
    }
}

impl FromFieldValue for DateTime {
    open spec fn spec_converts(value: ValueModel, result: Self) -> bool {
        value == ValueModel::DateTime(result)
    }

    open spec fn spec_accepts(value: ValueModel) -> bool {
        value is DateTime
    }

    fn from_field_value(value: FieldValue) -> (r: Result<Self, FieldConversionError>)
        ensures
            value is DateTime <==> r is Ok,
            r matches Ok(v) ==> value@ == ValueModel::DateTime(v),
            r is Err ==> r == Err::<DateTime, FieldConversionError>(FieldConversionError::FieldTypeNotAsExpected { expected: FieldType::DateTime, actual: spec_value_type(value@) }),
    {
        let actual = value.field_type();
        match value {
            FieldValue::DateTime(v) => Ok(v),
            _ => Err(FieldConversionError::FieldTypeNotAsExpected { expected: FieldType::DateTime, actual }),
        }
    }
}

/// Trait to be implemented by structs that represent records read from a
/// dBase file.
///
/// The field iterator gives access to methods that allow to read fields value
/// or skip them.
/// It is not required that the user reads / skips all the fields in a record,
/// in other words: it is not required to consume the iterator.
///
/// `spec_read` may describe what reading gives from fields that all read
/// without error; by default nothing is described.
pub trait ReadableRecord: Sized {
    /// Whether `result` (the record read, `None` for a failure) is what
    /// reading gives from fields whose values, in order and by name, are
    /// `values`.
    open spec fn spec_read(values: Seq<(Seq<char>, ValueModel)>, result: Option<Self>) -> bool {
        true
    }

    /// Reads the record from its fields.
    fn read_using(field_iterator: &mut FieldIterator<'_>) -> (r: Result<Self, FieldError>)
        ensures
            old(field_iterator).spec_next() == 0 ==> ({
                let ctx = old(field_iterator).spec_context();
                let fields = old(field_iterator).spec_fields();
                spec_read_values(ctx.1, old(field_iterator).spec_source(), fields, ctx.2, ctx.0, fields.len() as int)
                    matches Ok(s) ==> Self::spec_read(s, match r {
                    Ok(v) => Some(v),
                    Err(_) => None,
                })
            }),
    ;
}


/// Whether the descriptors of `n` fields can be read, names as ASCII, right
/// after the 32 bytes of the header.
pub open spec fn descriptors_readable(s: Seq<u8>, n: int) -> bool {
    forall|i: int| 0 <= i < n ==> #[trigger] descriptor_readable(Ascii, s, 32 + 32 * i)
}

/// Reader of the records of a table whose bytes are held in memory.
///
/// The header and the field descriptors are read when the reader is made;
/// the record of index `i` starts `offset_to_first_record + i * size` bytes
/// into the table, where `size` is one byte of deletion flag plus the
/// lengths of all the fields.
#[derive(Debug)]
pub struct Reader {
    source: Vec<u8>,
    memo_reader: Option<MemoReader>,
    header: Header,
    fields_info: Vec<FieldInfo>,
    encoding: DynEncoding,
    options: ReadingOptions,
}

impl Reader {
    #[verifier::type_invariant]
    closed spec fn fields_fit(&self) -> bool {
        self.fields_info@.len() <= MAX_NUM_FIELDS
    }

    /// The bytes of the table.
    pub closed spec fn spec_source(&self) -> Seq<u8> {
        self.source@
    }

    /// The header of the table.
    pub closed spec fn spec_header(&self) -> Header {
        self.header
    }

    /// The field descriptors of the table.
    pub closed spec fn spec_fields(&self) -> Seq<FieldInfo> {
        self.fields_info@
    }

    /// The encoding of the strings of the table.
    pub closed spec fn spec_encoding(&self) -> DynEncoding {
        self.encoding
    }

    /// The memo file of the table, if it was given.
    pub closed spec fn spec_memo(&self) -> Option<MemoReader> {
        self.memo_reader
    }

    /// The reading options.
    pub closed spec fn spec_options(&self) -> ReadingOptions {
        self.options
    }

    /// Size of a record: the deletion flag and every field.
    pub open spec fn spec_record_size(&self) -> int {
        1 + sum_lengths(self.spec_fields(), self.spec_fields().len() as int)
    }

    /// Position of the record of index `i` in the table.
    pub open spec fn spec_record_start(&self, i: int) -> int {
        self.spec_header().offset_to_first_record + i * self.spec_record_size()
    }

    /// The record of index `i`: its values by field name, or why it could
    /// not be read (the table too short to hold it, or a field that failed).
    /// The values of the fields of the record `i`, in order, or why they
    /// cannot be read.
    pub open spec fn spec_record_values(&self, i: int) -> Result<Seq<(Seq<char>, ValueModel)>, ReadFailure> {
        let start = self.spec_record_start(i);
        let size = self.spec_record_size();
        if start + size > self.spec_source().len() {
            Err(ReadFailure::UnexpectedEof)
        } else {
            match spec_read_values(
                self.spec_encoding(),
                self.spec_source().subrange(start + 1, start + size),
                self.spec_fields(),
                self.spec_options().character_trim,
                self.spec_memo(),
                self.spec_fields().len() as int,
            ) {
                Ok(s) => Ok(s),
                Err(f) => Err(f.1),
            }
        }
    }

    pub open spec fn spec_record(&self, i: int) -> Result<Seq<(Seq<char>, ValueModel)>, ReadFailure> {
        let start = self.spec_record_start(i);
        let size = self.spec_record_size();
        if start + size > self.spec_source().len() {
            Err(ReadFailure::UnexpectedEof)
        } else {
            match spec_read_values(
                self.spec_encoding(),
                self.spec_source().subrange(start + 1, start + size),
                self.spec_fields(),
                self.spec_options().character_trim,
                self.spec_memo(),
                self.spec_fields().len() as int,
            ) {
                Ok(s) => Ok(spec_record_of(s)),
                Err(f) => Err(f.1),
            }
        }
    }

    /// Creates a new reader from the bytes of a table.
    ///
    /// Reads the header and fields information as soon as its created.
    pub fn new(source: Vec<u8>) -> (r: Result<Self, Error>)
        ensures
            r matches Err(e) ==> e.record_context is None,
            source@.len() < 32 ==> (r matches Err(e) && e.kind == ErrorKind::UnexpectedEof),
            source@.len() >= 32 && spec_num_fields(spec_parse_header(source@)) is None ==> (r matches Err(
                e,
            ) && e.kind is InvalidFile),
            source@.len() >= 32 ==> (spec_num_fields(spec_parse_header(source@)) matches Some(n) ==> {
                &&& r is Ok <==> descriptors_readable(source@, n) && source@.len() > 32 + 32 * n
                &&& descriptors_readable(source@, n) && source@.len() <= 32 + 32 * n ==> (r matches Err(e)
                    && e.kind == ErrorKind::UnexpectedEof)
                &&& r matches Ok(reader) ==> {
                    &&& reader.spec_source() == source@
                    &&& reader.spec_header() == spec_parse_header(source@)
                    &&& reader.spec_fields().len() == n
                    &&& forall|i: int|
                        0 <= i < n ==> parsed_field_info(Ascii, source@, 32 + 32 * i, #[trigger] reader.spec_fields()[i])
                    &&& reader.spec_encoding() == DynEncoding::UnicodeLossy(UnicodeLossy)
                    &&& reader.spec_memo() is None
                    &&& reader.spec_options().character_trim == TrimOption::BeginEnd
                }
            }),
    {
        let header = match Header::read_from(source.as_slice()) {
            Ok(h) => h,
            Err(kind) => return Err(Error::header(kind)),
        };
        let num_fields = match num_fields_of(&header) {
            Some(n) => n,
            None => return Err(Error::header(ErrorKind::InvalidFile("the offset to the first record is too small"))),
        };
        let fields_info = match FieldsInfo::read_from(source.as_slice(), Header::SIZE, num_fields) {
            Ok(f) => f,
            Err(kind) => return Err(Error::header(kind)),
        };
        // The terminator byte follows the field descriptors.
        if source.len() <= Header::SIZE + num_fields * FieldInfo::SIZE {
            return Err(Error::header(ErrorKind::UnexpectedEof));
        }
        let encoding = match header.code_page_mark.to_encoding() {
            Some(e) => e,
            None => return Err(Error::header(ErrorKind::UnsupportedCodePage(header.code_page_mark))),
        };
        Ok(Self {
            source,
            memo_reader: None,
            header,
            fields_info: fields_info.inner,
            encoding,
            options: ReadingOptions::default_options(),
        })
    }

    /// Returns the header of the file
    pub fn header(&self) -> (r: &Header)
        ensures
            *r == self.spec_header(),
    {
        &self.header
    }

    /// Returns the information about fields present in the records
    pub fn fields(&self) -> (r: &[FieldInfo])
        ensures
            r@ == self.spec_fields(),
    {
        self.fields_info.as_slice()
    }

    /// Sets the options used to read the records.
    pub fn set_options(&mut self, options: ReadingOptions)
        ensures
            final(self).spec_options() == options,
            final(self).spec_source() == old(self).spec_source(),
            final(self).spec_header() == old(self).spec_header(),
            final(self).spec_fields() == old(self).spec_fields(),
            final(self).spec_encoding() == old(self).spec_encoding(),
            final(self).spec_memo() == old(self).spec_memo(),
    {
        proof {
            use_type_invariant(&*self);
        }
        self.options = options;
    }

    /// The type of the memo file the records need: `Some` when a field is a
    /// memo field and the version of the table has memo files.
    pub fn memo_file_type(&self) -> (r: Option<MemoFileType>)
        ensures
            r is Some <==> (exists|i: int|
                0 <= i < self.spec_fields().len() && #[trigger] self.spec_fields()[i].field_type
                    == FieldType::Memo) && spec_supported_memo_type(self.spec_header().file_type) is Some,
            r is Some ==> r == spec_supported_memo_type(self.spec_header().file_type),
    {
        let mut i: usize = 0;
        let mut has_memo = false;
        while i < self.fields_info.len()
            invariant
                0 <= i <= self.fields_info@.len(),
                has_memo == exists|k: int| 0 <= k < i && #[trigger] self.fields_info@[k].field_type == FieldType::Memo,
            decreases self.fields_info@.len() - i,
        {
            if self.fields_info[i].field_type == FieldType::Memo {
                has_memo = true;
            }
            i = i + 1;
        }
        if has_memo {
            self.header.file_type.supported_memo_type()
        } else {
            None
        }
    }

    /// Gives the reader the bytes of the memo file of the table.
    pub fn set_memo_source(&mut self, memo_type: MemoFileType, memo_source: Vec<u8>) -> (r: Result<(), Error>)
        ensures
            r is Ok <==> spec_memo_header(memo_source@, memo_type) is Some,
            r matches Err(e) ==> e.kind == ErrorKind::UnexpectedEof && e.record_context is None
                && *final(self) == *old(self),
            r is Ok ==> (final(self).spec_memo() matches Some(m) && m.memo_file_type == memo_type
                && Some(m.header) == spec_memo_header(memo_source@, memo_type) && m.source@ == memo_source@),
            final(self).spec_options() == old(self).spec_options(),
            final(self).spec_source() == old(self).spec_source(),
            final(self).spec_header() == old(self).spec_header(),
            final(self).spec_fields() == old(self).spec_fields(),
            final(self).spec_encoding() == old(self).spec_encoding(),
    {
        proof {
            use_type_invariant(&*self);
        }
        match MemoReader::new(memo_type, memo_source) {
            Ok(m) => {
                self.memo_reader = Some(m);
                Ok(())
            },
            Err(kind) => Err(Error::header(kind)),
        }
    }

    /// Size of a record, deletion flag included.
    fn record_size(&self) -> (r: usize)
        ensures
            r == self.spec_record_size(),
            1 <= r <= 1 + 255 * MAX_NUM_FIELDS,
    {
        proof {
            use_type_invariant(self);
            crate::field::lemma_sum_lengths_bound(self.fields_info@, self.fields_info@.len() as int);
        }
        let mut sum: usize = 0;
        let mut i: usize = 0;
        while i < self.fields_info.len()
            invariant
                0 <= i <= self.fields_info@.len() <= MAX_NUM_FIELDS,
                sum == sum_lengths(self.fields_info@, i as int),
            decreases self.fields_info@.len() - i,
        {
            proof {
                crate::field::lemma_sum_lengths_bound(self.fields_info@, i + 1);
            }
            sum = sum + self.fields_info[i].field_length as usize;
            i = i + 1;
        }
        DELETION_FLAG_SIZE + sum
    }

    /// The bytes of the record of index `index` (deletion flag included),
    /// `None` when the table is too short to hold them.
    fn record_bytes(&self, index: u32) -> (r: Option<&[u8]>)
        ensures
            r is None <==> self.spec_record_start(index as int) + self.spec_record_size() > self.spec_source().len(),
            r matches Some(b) ==> b@.len() == self.spec_record_size() && self.spec_record_size() >= 1,
            r matches Some(b) ==> b@ == self.spec_source().subrange(
                self.spec_record_start(index as int),
                self.spec_record_start(index as int) + self.spec_record_size(),
            ),
    {
        let size = self.record_size();
        assert(index as u64 * size as u64 <= 0xffff_ffff * 600_000) by (nonlinear_arith)
            requires
                size <= 600_000,
        ;
        let start: u64 = self.header.offset_to_first_record as u64 + index as u64 * size as u64;
        let len = self.source.len();
        if start > len as u64 || (len as u64 - start) < size as u64 {
            return None;
        }
        let start = start as usize;
        Some(vstd::slice::slice_subrange(self.source.as_slice(), start, start + size))
    }

    /// Reads the record of index `index` into the requested type.
    pub fn read_record_as<R: ReadableRecord>(&self, index: u32) -> (r: Result<R, Error>)
        ensures
            self.spec_record_start(index as int) + self.spec_record_size() > self.spec_source().len()
                ==> (r matches Err(e) && e.kind == ErrorKind::UnexpectedEof
                && e.record_context == Some(RecordContext { index: RecordIndex(index as usize), field: None })),
            r matches Err(e) ==> e.record_context matches Some(c) && c.index == RecordIndex(index as usize),
            self.spec_record_values(index as int) matches Ok(s) ==> R::spec_read(s, match r {
                Ok(v) => Some(v),
                Err(_) => None,
            }),
    {
        proof {
            use_type_invariant(self);
        }
        let bytes = match self.record_bytes(index) {
            Some(b) => b,
            None => return Err(Error::record(RecordIndex(index as usize), ErrorKind::UnexpectedEof)),
        };
        let fields_bytes = vstd::slice::slice_subrange(bytes, DELETION_FLAG_SIZE, bytes.len());
        let mut field_iterator = FieldIterator::new(
            fields_bytes,
            self.fields_info.as_slice(),
            &self.memo_reader,
            &self.encoding,
            self.options,
        );
        proof {
            let start = self.spec_record_start(index as int);
            let size = self.spec_record_size();
            assert(fields_bytes@ =~= self.spec_source().subrange(start + 1, start + size));
        }
        match R::read_using(&mut field_iterator) {
            Ok(record) => Ok(record),
            Err(e) => Err(Error::from_field_error(RecordIndex(index as usize), e)),
        }
    }

    /// Reads the record of index `index`.
    pub fn read_record(&self, index: u32) -> (r: Result<Record, Error>)
        ensures
            r matches Ok(rec) ==> self.spec_record(index as int) == Ok::<Seq<(Seq<char>, ValueModel)>, ReadFailure>(rec@),
            r matches Err(e) ==> self.spec_record(index as int) == Err::<Seq<(Seq<char>, ValueModel)>, ReadFailure>(failure_of(e.kind))
                && (e.record_context matches Some(c) && c.index == RecordIndex(index as usize)),
            r is Ok <==> self.spec_record(index as int) is Ok,
    {
        proof {
            use_type_invariant(self);
        }
        let bytes = match self.record_bytes(index) {
            Some(b) => b,
            None => return Err(Error::record(RecordIndex(index as usize), ErrorKind::UnexpectedEof)),
        };
        let fields_bytes = vstd::slice::slice_subrange(bytes, DELETION_FLAG_SIZE, bytes.len());
        let mut field_iterator = FieldIterator::new(
            fields_bytes,
            self.fields_info.as_slice(),
            &self.memo_reader,
            &self.encoding,
            self.options,
        );
        proof {
            let start = self.spec_record_start(index as int);
            let size = self.spec_record_size();
            assert(fields_bytes@ =~= self.spec_source().subrange(start + 1, start + size));
        }
        match Record::read_using(&mut field_iterator) {
            Ok(record) => Ok(record),
            Err(e) => Err(Error::from_field_error(RecordIndex(index as usize), e)),
        }
    }

    /// Reads all the records into the requested type, stopping at the first error.
    pub fn read_as<R: ReadableRecord>(&self) -> (r: Result<Vec<R>, Error>)
        ensures
            r matches Ok(v) ==> v@.len() == self.spec_header().num_records,
            r matches Err(e) ==> e.record_context matches Some(c) && c.index.0 < self.spec_header().num_records,
            r matches Ok(v) ==> forall|k: int|
                0 <= k < v@.len() ==> (#[trigger] self.spec_record_values(k) matches Ok(s) ==> R::spec_read(
                    s,
                    Some(v@[k]),
                )),
            (forall|k: int|
                0 <= k < self.spec_header().num_records ==> (#[trigger] self.spec_record_values(k) matches Ok(s)
                    && !R::spec_read(s, None))) ==> r is Ok,
    {
        let n = self.header.num_records;
        let mut records: Vec<R> = Vec::new();
        let mut i: u32 = 0;
        while i < n
            invariant
                0 <= i <= n,
                n == self.spec_header().num_records,
                records@.len() == i,
                forall|k: int|
                    0 <= k < i ==> (#[trigger] self.spec_record_values(k) matches Ok(s) ==> R::spec_read(
                        s,
                        Some(records@[k]),
                    )),
            decreases n - i,
        {
            match self.read_record_as::<R>(i) {
                Ok(rec) => {
                    let ghost old_records = records@;
                    records.push(rec);
                    proof {
                        assert forall|k: int|
                            0 <= k < i + 1 implies (#[trigger] self.spec_record_values(k) matches Ok(s)
                            ==> R::spec_read(s, Some(records@[k]))) by {
                            if k < i {
                                assert(records@[k] == old_records[k]);
                            }
                        }
                    }
                },
                Err(e) => {
                    proof {
                        assert(self.spec_record_values(i as int) is Ok ==> R::spec_read(
                            self.spec_record_values(i as int)->Ok_0,
                            None,
                        ));
                    }
                    return Err(e);
                },
            }
            i = i + 1;
        }
        Ok(records)
    }

    /// Reads all the records, stopping at the first error.
    pub fn read(&self) -> (r: Result<Vec<Record>, Error>)
        ensures
            r is Ok <==> forall|i: int| 0 <= i < self.spec_header().num_records ==> #[trigger] self.spec_record(i) is Ok,
            r matches Ok(v) ==> v@.len() == self.spec_header().num_records && forall|i: int|
                0 <= i < v@.len() ==> self.spec_record(i) == Ok::<Seq<(Seq<char>, ValueModel)>, ReadFailure>(#[trigger] v@[i]@),
            r matches Err(e) ==> e.record_context matches Some(c) && {
                let i = c.index.0 as int;
                &&& 0 <= i < self.spec_header().num_records
                &&& forall|j: int| 0 <= j < i ==> #[trigger] self.spec_record(j) is Ok
                &&& self.spec_record(i) == Err::<Seq<(Seq<char>, ValueModel)>, ReadFailure>(failure_of(e.kind))
            },
    {
        let n = self.header.num_records;
        let mut records: Vec<Record> = Vec::new();
        let mut i: u32 = 0;
        while i < n
            invariant
                0 <= i <= n,
                n == self.spec_header().num_records,
                records@.len() == i,
                forall|j: int| 0 <= j < i ==> self.spec_record(j) == Ok::<Seq<(Seq<char>, ValueModel)>, ReadFailure>(#[trigger] records@[j]@),
            decreases n - i,
        {
            match self.read_record(i) {
                Ok(rec) => records.push(rec),
                Err(e) => {
                    proof {
                        assert forall|j: int| 0 <= j < i implies #[trigger] self.spec_record(j) is Ok by {
                            assert(self.spec_record(j) == Ok::<Seq<(Seq<char>, ValueModel)>, ReadFailure>(records@[j]@));
                        }
                    }
                    return Err(e);
                },
            }
            i = i + 1;
        }
        proof {
            assert forall|j: int| 0 <= j < n implies #[trigger] self.spec_record(j) is Ok by {
                assert(self.spec_record(j) == Ok::<Seq<(Seq<char>, ValueModel)>, ReadFailure>(records@[j]@));
            }
        }
        Ok(records)
    }

    /// Creates an iterator over the records, read into the requested type.
    pub fn iter_records_as<R: ReadableRecord>(&self) -> (r: RecordIterator<'_, R>)
        ensures
            r.spec_current() == 0,
            r.spec_reader() == *self,
    {
        RecordIterator { reader: self, current_record: 0, record_type: core::marker::PhantomData }
    }

    /// Creates an iterator over the records, read by field name.
    pub fn iter_records(&self) -> (r: RecordIterator<'_, Record>)
        ensures
            r.spec_current() == 0,
            r.spec_reader() == *self,
    {
        self.iter_records_as::<Record>()
    }

    /// The layout of the table: header, fields and encoding.
    pub fn into_table_info(self) -> (r: TableInfo)
        ensures
            r.header == self.spec_header(),
            r.fields_info@ == self.spec_fields(),
            r.encoding == self.spec_encoding(),
    {
        TableInfo { header: self.header, fields_info: self.fields_info, encoding: self.encoding }
    }
}

/// Iterator over the records of a table, each read into the type `R`.
pub struct RecordIterator<'a, R> {
    reader: &'a Reader,
    current_record: u32,
    record_type: core::marker::PhantomData<R>,
}

impl<'a, R: ReadableRecord> RecordIterator<'a, R> {
    /// Index of the next record.
    pub closed spec fn spec_current(&self) -> int {
        self.current_record as int
    }

    /// The reader the records come from.
    pub closed spec fn spec_reader(&self) -> Reader {
        *self.reader
    }

    /// Reads the next record, `None` once every record was read.
    pub fn next(&mut self) -> (r: Option<Result<R, Error>>)
        ensures
            final(self).spec_reader() == old(self).spec_reader(),
            old(self).spec_current() >= old(self).spec_reader().spec_header().num_records ==> r is None
                && final(self).spec_current() == old(self).spec_current(),
            old(self).spec_current() < old(self).spec_reader().spec_header().num_records ==> r is Some
                && final(self).spec_current() == old(self).spec_current() + 1,
            r matches Some(res) ==> (old(self).spec_reader().spec_record_values(old(self).spec_current())
                matches Ok(s) ==> R::spec_read(s, match res {
                Ok(v) => Some(v),
                Err(_) => None,
            })),
    {
        if self.current_record >= self.reader.header.num_records {
            return None;
        }
        let index = self.current_record;
        let record = self.reader.read_record_as::<R>(index);
        self.current_record = index + 1;
        Some(record)
    }
}

} // verus!
