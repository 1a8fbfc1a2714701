//! Field names, field descriptors and the deletion flag of records.

use crate::encoding::{Ascii, Encoding, all_ascii, ascii_chars, first_zero_from, spec_ascii_decode};
use crate::error::ErrorKind;
use crate::types::{spec_field_type_code, spec_field_type_from_code, FieldType};
use vstd::prelude::*;

verus! {

/// Size of the deletion flag at the start of each record, in bytes.
pub const DELETION_FLAG_SIZE: usize = 1;

/// Maximum size of a field name, in bytes.
pub const FIELD_NAME_LENGTH: usize = 11;

/// Size of a field descriptor, in bytes.
pub const FIELD_INFO_SIZE: usize = 32;

/// Wrapping struct to create a FieldName from a String.
///
/// FieldNames in the dBase format cannot exceed 11 bytes (not char).
#[derive(Debug)]
pub struct FieldName(String);

impl View for FieldName {
    type V = Seq<char>;

    closed spec fn view(&self) -> Seq<char> {
        self.0@
    }
}

impl FieldName {
    /// The name of a field, if its UTF-8 form has at most 11 bytes.
    pub fn new(name: &str) -> (r: Result<Self, &'static str>)
        ensures
            r is Ok <==> vstd::utf8::encode_utf8(name@).len() <= 11,
            r matches Ok(n) ==> n@ == name@,
            r matches Err(m) ==> m@ == "FieldName byte representation cannot exceed 11 bytes"@,
    {
        let bytes = crate::encoding::utf8_bytes(name);
        if bytes.len() > FIELD_NAME_LENGTH {
            Err("FieldName byte representation cannot exceed 11 bytes")
        } else {
            Ok(Self(name.to_owned()))
        }
    }

    /// The name as a string.
    pub fn as_str(&self) -> (r: &str)
        ensures
            r@ == self@,
    {
        self.0.as_str()
    }
}

impl<'a> TryFrom<&'a str> for FieldName {
    type Error = &'static str;

    fn try_from(name: &'a str) -> (r: Result<Self, Self::Error>)
        ensures
            r is Ok <==> vstd::utf8::encode_utf8(name@).len() <= 11,
            r matches Ok(n) ==> n@ == name@,
            r matches Err(m) ==> m@ == "FieldName byte representation cannot exceed 11 bytes"@,
    {
        FieldName::new(name)
    }
}

impl<'a> vstd::std_specs::convert::TryFromSpecImpl<&'a str> for FieldName {
    open spec fn obeys_try_from_spec() -> bool {
        false
    }

    open spec fn try_from_spec(name: &'a str) -> Result<Self, &'static str> {
        arbitrary()
    }
}

/// Flags describing a field
#[derive(Debug, Copy, Clone, PartialEq, Eq, Structural)]
pub struct FieldFlags(pub u8);

impl FieldFlags {
    /// No flag set.
    pub fn new() -> (r: Self)
        ensures
            r.0 == 0,
    {
        Self(0)
    }

    /// Bit 0: the field is a system column.
    pub fn system_column(self) -> (r: bool)
        ensures
            r == (self.0 % 2 == 1),
    {
        let b = self.0;
        assert((b & 0x01) != 0 <==> b % 2 == 1) by (bit_vector);
        (b & 0x01) != 0
    }

    /// Bit 1: the field can store null values.
    pub fn can_store_null(self) -> (r: bool)
        ensures
            r == (self.0 / 2 % 2 == 1),
    {
        let b = self.0;
        assert((b & 0x02) != 0 <==> b / 2 % 2 == 1) by (bit_vector);
        (b & 0x02) != 0
    }

    /// Bit 2: the field holds binary data.
    pub fn is_binary(self) -> (r: bool)
        ensures
            r == (self.0 / 4 % 2 == 1),
    {
        let b = self.0;
        assert((b & 0x04) != 0 <==> b / 4 % 2 == 1) by (bit_vector);
        (b & 0x04) != 0
    }

    /// Bits 2 or 3: the field is auto incrementing.
    pub fn is_auto_incrementing(self) -> (r: bool)
        ensures
            r == (self.0 / 4 % 4 != 0),
    {
        let b = self.0;
        assert((b & 0x0C) != 0 <==> b / 4 % 4 != 0) by (bit_vector);
        (b & 0x0C) != 0
    }
}

/// Struct giving the info for a record field
#[derive(Debug, PartialEq, Clone)]
pub struct FieldInfo {
    /// The name of the field
    pub name: String,
    /// The field type
    pub field_type: FieldType,
    pub displacement_field: [u8; 4],
    pub field_length: u8,
    pub num_decimal_places: u8,
    pub flags: FieldFlags,
    pub autoincrement_next_val: [u8; 5],
    pub autoincrement_step: u8,
}

/// Index of the first non zero byte of `b` at or after `i`, or its length.
pub open spec fn first_nonzero_from(b: Seq<u8>, i: int) -> int
    decreases b.len() - i,
{
    if i >= b.len() {
        b.len() as int
    } else if b[i] != 0 {
        i
    } else {
        first_nonzero_from(b, i + 1)
    }
}

/// One past the index of the last non zero byte of `b` before `j`, or 0.
pub open spec fn end_nonzero_before(b: Seq<u8>, j: int) -> int
    decreases j,
{
    if j <= 0 {
        0
    } else if b[j - 1] != 0 {
        j
    } else {
        end_nonzero_before(b, j - 1)
    }
}

/// `b` without its leading and trailing zero bytes.
pub open spec fn trim_zero_bytes(b: Seq<u8>) -> Seq<u8> {
    let start = first_nonzero_from(b, 0);
    if start >= b.len() {
        Seq::empty()
    } else {
        b.subrange(start, end_nonzero_before(b, b.len() as int))
    }
}

/// `info` is the field descriptor stored in the 32 bytes of `s` at `pos`,
/// its name decoded with `enc`.
pub open spec fn parsed_field_info<E: Encoding>(
    enc: E,
    s: Seq<u8>,
    pos: int,
    info: FieldInfo,
) -> bool {
    &&& enc.spec_decode(trim_zero_bytes(s.subrange(pos, pos + 11))) == Some(info.name@)
    &&& spec_field_type_from_code(s[pos + 11] as char) == Some(info.field_type)
    &&& info.displacement_field@ == s.subrange(pos + 12, pos + 16)
    &&& info.field_length == s[pos + 16]
    &&& info.num_decimal_places == s[pos + 17]
    &&& info.flags == FieldFlags(s[pos + 18])
    &&& info.autoincrement_next_val@ == s.subrange(pos + 19, pos + 24)
    &&& info.autoincrement_step == s[pos + 24]
}

/// The 11 name bytes of a descriptor: the first 11 encoded bytes, zero padded.
pub open spec fn name_field_bytes(encoded: Seq<u8>) -> Seq<u8> {
    if encoded.len() >= 11 {
        encoded.subrange(0, 11)
    } else {
        encoded + Seq::new((11 - encoded.len()) as nat, |i: int| 0u8)
    }
}

/// The 32 bytes of a field descriptor whose name is encoded as `encoded`.
pub open spec fn spec_field_info_bytes(info: FieldInfo, encoded: Seq<u8>) -> Seq<u8> {
    name_field_bytes(encoded) + seq![spec_field_type_code(info.field_type) as u8]
        + info.displacement_field@ + seq![
        info.field_length,
        info.num_decimal_places,
        info.flags.0,
    ] + info.autoincrement_next_val@ + seq![info.autoincrement_step] + Seq::new(
        7,
        |i: int| 0u8,
    )
}

/// The field type whose code is the byte `b`.
fn field_type_of_byte(b: u8) -> (r: Result<FieldType, ErrorKind>)
    ensures
        r matches Ok(t) ==> spec_field_type_from_code(b as char) == Some(t),
        r is Err ==> spec_field_type_from_code(b as char) is None && r == Err::<FieldType, ErrorKind>(
            ErrorKind::InvalidFieldType(b as char),
        ),
{
    let c = b as char;
    match FieldType::from(c) {
        Some(t) => Ok(t),
        None => Err(ErrorKind::InvalidFieldType(c)),
    }
}

/// `b` without its leading and trailing zero bytes.
pub fn trim_zeros(b: &[u8]) -> (r: Vec<u8>)
    ensures
        r@ == trim_zero_bytes(b@),
{
    let mut start: usize = 0;
    while start < b.len() && b[start] == 0
        invariant
            0 <= start <= b@.len(),
            first_nonzero_from(b@, 0) == first_nonzero_from(b@, start as int),
        decreases b@.len() - start,
    {
        start = start + 1;
    }
    assert(start == first_nonzero_from(b@, start as int));
    if start >= b.len() {
        return Vec::new();
    }
    let mut end: usize = b.len();
    while end > 0 && b[end - 1] == 0
        invariant
            0 <= end <= b@.len(),
            end_nonzero_before(b@, b@.len() as int) == end_nonzero_before(b@, end as int),
            forall|j: int| end <= j < b@.len() ==> b@[j] == 0,
        decreases end,
    {
        end = end - 1;
    }
    assert(end == end_nonzero_before(b@, end as int));
    assert(end > start) by {
        lemma_end_after_start(b@, start as int, end as int);
    }
    let mut r: Vec<u8> = Vec::new();
    let mut i = start;
    while i < end
        invariant
            start <= i <= end <= b@.len(),
            r@ == b@.subrange(start as int, i as int),
        decreases end - i,
    {
        r.push(b[i]);
        assert(r@ =~= b@.subrange(start as int, i + 1));
        i = i + 1;
    }
    r
}

/// Name of the field descriptor that stands for the deletion flag.
pub open spec fn deletion_flag_name() -> Seq<char> {
    seq!['D', 'e', 'l', 'e', 't', 'i', 'o', 'n', 'F', 'l', 'a', 'g']
}

/// Whether two strings are equal, compared by their UTF-8 bytes.
pub fn str_eq(a: &str, b: &str) -> (r: bool)
    ensures
        r == (a@ == b@),
{
    let x = crate::encoding::utf8_bytes(a);
    let y = crate::encoding::utf8_bytes(b);
    proof {
        vstd::utf8::encode_utf8_decode_utf8(a@);
        vstd::utf8::encode_utf8_decode_utf8(b@);
    }
    if x.len() != y.len() {
        return false;
    }
    let mut i: usize = 0;
    while i < x.len()
        invariant
            x@.len() == y@.len(),
            x@ == vstd::utf8::encode_utf8(a@),
            y@ == vstd::utf8::encode_utf8(b@),
            vstd::utf8::decode_utf8(x@) == a@,
            vstd::utf8::decode_utf8(y@) == b@,
            0 <= i <= x@.len(),
            x@.subrange(0, i as int) == y@.subrange(0, i as int),
        decreases x@.len() - i,
    {
        if x[i] != y[i] {
            return false;
        }
        assert(x@.subrange(0, i + 1) =~= x@.subrange(0, i as int).push(x@[i as int]));
        assert(y@.subrange(0, i + 1) =~= y@.subrange(0, i as int).push(y@[i as int]));
        i = i + 1;
    }
    assert(x@ =~= y@.subrange(0, i as int));
    assert(y@ =~= y@.subrange(0, i as int));
    true
}

impl FieldInfo {
    /// Size of a field descriptor, in bytes.
    pub const SIZE: usize = 32;

    /// Returns the name of the field
    pub fn name(&self) -> (r: &str)
        ensures
            r@ == self.name@,
    {
        self.name.as_str()
    }

    /// Returns the type of the field
    pub fn field_type(&self) -> (r: FieldType)
        ensures
            r == self.field_type,
    {
        self.field_type
    }

    /// Returns the length (in bytes) of the field in each record
    pub fn length(&self) -> (r: u8)
        ensures
            r == self.field_length,
    {
        self.field_length
    }

    /// A field of the given name, type and length; every other part is zero.
    pub fn new(name: FieldName, field_type: FieldType, length: u8) -> (r: Self)
        ensures
            r.name@ == name@,
            r.field_type == field_type,
            r.displacement_field@ == seq![0u8, 0u8, 0u8, 0u8],
            r.field_length == length,
            r.num_decimal_places == 0,
            r.flags == FieldFlags(0),
            r.autoincrement_next_val@ == seq![0u8, 0u8, 0u8, 0u8, 0u8],
            r.autoincrement_step == 0,
    {
        let r = Self {
            name: name.0,
            field_type,
            displacement_field: [0u8; 4],
            field_length: length,
            num_decimal_places: 0,
            flags: FieldFlags(0),
            autoincrement_next_val: [0u8; 5],
            autoincrement_step: 0u8,
        };
        assert(r.displacement_field@ =~= seq![0u8, 0u8, 0u8, 0u8]);
        assert(r.autoincrement_next_val@ =~= seq![0u8, 0u8, 0u8, 0u8, 0u8]);
        r
    }

    /// Reads the field descriptor at `pos` in `source`, its name read as ASCII.
    pub fn read_from(source: &[u8], pos: usize) -> (r: Result<Self, ErrorKind>)
        ensures
            pos + 32 > source@.len() ==> r matches Err(ErrorKind::UnexpectedEof),
            r matches Ok(info) ==> parsed_field_info(Ascii, source@, pos as int, info),
            pos + 32 <= source@.len() ==> (r is Ok <==> (Ascii.spec_decode(
                trim_zero_bytes(source@.subrange(pos as int, pos + 11)),
            ) is Some && spec_field_type_from_code(source@[pos + 11] as char) is Some)),
    {
        Self::read_with_encoding(source, pos, &Ascii)
    }

    /// Reads the field descriptor at `pos` in `source`, its name decoded with `encoding`.
    pub fn read_with_encoding<E: Encoding>(source: &[u8], pos: usize, encoding: &E) -> (r: Result<
        Self,
        ErrorKind,
    >)
        ensures
            pos + 32 > source@.len() ==> r matches Err(ErrorKind::UnexpectedEof),
            r matches Ok(info) ==> parsed_field_info(*encoding, source@, pos as int, info),
            pos + 32 <= source@.len() ==> (r is Ok <==> (encoding.spec_decode(
                trim_zero_bytes(source@.subrange(pos as int, pos + 11)),
            ) is Some && spec_field_type_from_code(source@[pos + 11] as char) is Some)),
            pos + 32 <= source@.len() && encoding.spec_decode(
                trim_zero_bytes(source@.subrange(pos as int, pos + 11)),
            ) is None ==> r matches Err(ErrorKind::StringDecodeError(_)),
            pos + 32 <= source@.len() && encoding.spec_decode(
                trim_zero_bytes(source@.subrange(pos as int, pos + 11)),
            ) is Some && spec_field_type_from_code(source@[pos + 11] as char) is None ==> r
                == Err::<FieldInfo, ErrorKind>(ErrorKind::InvalidFieldType(source@[pos + 11] as char)),
    {
        if pos > source.len() || source.len() - pos < Self::SIZE {
            return Err(ErrorKind::UnexpectedEof);
        }
        let name_bytes = trim_zeros(vstd::slice::slice_subrange(source, pos, pos + 11));
        let name = match encoding.decode(name_bytes.as_slice()) {
            Ok(n) => n,
            Err(e) => return Err(ErrorKind::StringDecodeError(e)),
        };
        let field_type = match field_type_of_byte(source[pos + 11]) {
            Ok(t) => t,
            Err(e) => return Err(e),
        };
        let displacement_field = [source[pos + 12], source[pos + 13], source[pos + 14], source[pos + 15]];
        let autoincrement_next_val = [
            source[pos + 19],
            source[pos + 20],
            source[pos + 21],
            source[pos + 22],
            source[pos + 23],
        ];
        let r = Self {
            name,
            field_type,
            displacement_field,
            field_length: source[pos + 16],
            num_decimal_places: source[pos + 17],
            flags: FieldFlags(source[pos + 18]),
            autoincrement_next_val,
            autoincrement_step: source[pos + 24],
        };
        assert(r.displacement_field@ =~= source@.subrange(pos + 12, pos + 16));
        assert(r.autoincrement_next_val@ =~= source@.subrange(pos + 19, pos + 24));
        Ok(r)
    }

    /// Appends the 32 bytes of this field descriptor to `dest`, its name
    /// encoded with `encoding` (cut to 11 bytes).
    pub fn write_to<E: Encoding>(&self, dest: &mut Vec<u8>, encoding: &E) -> (r: Result<(), ErrorKind>)
        ensures
            r is Ok <==> encoding.spec_encode(self.name@) is Some,
            r is Err ==> final(dest)@ == old(dest)@ && r matches Err(ErrorKind::StringEncodeError(_)),
            r is Ok ==> final(dest)@ == old(dest)@ + spec_field_info_bytes(
                *self,
                encoding.spec_encode(self.name@).unwrap(),
            ),
    {
        let encoded = match encoding.encode(self.name.as_str()) {
            Ok(e) => e,
            Err(e) => return Err(ErrorKind::StringEncodeError(e)),
        };
        let ghost start = dest@;
        let mut i: usize = 0;
        while i < 11
            invariant
                0 <= i <= 11,
                dest@ == start + name_field_bytes(encoded@).subrange(0, i as int),
            decreases 11 - i,
        {
            let b = if i < encoded.len() { encoded[i] } else { 0u8 };
            assert(b == name_field_bytes(encoded@)[i as int]);
            dest.push(b);
            assert(name_field_bytes(encoded@).subrange(0, i + 1) =~= name_field_bytes(encoded@).subrange(0, i as int).push(b));
            i = i + 1;
        }
        assert(name_field_bytes(encoded@).subrange(0, 11) =~= name_field_bytes(encoded@));
        dest.push(u8::from(self.field_type));
        let mut k: usize = 0;
        while k < 4
            invariant
                0 <= k <= 4,
                dest@ == start + name_field_bytes(encoded@) + seq![spec_field_type_code(self.field_type) as u8]
                    + self.displacement_field@.subrange(0, k as int),
            decreases 4 - k,
        {
            dest.push(self.displacement_field[k]);
            assert(self.displacement_field@.subrange(0, k + 1) =~= self.displacement_field@.subrange(0, k as int).push(self.displacement_field@[k as int]));
            k = k + 1;
        }
        assert(self.displacement_field@.subrange(0, 4) =~= self.displacement_field@);
        dest.push(self.field_length);
        dest.push(self.num_decimal_places);
        dest.push(self.flags.0);
        let ghost mid = dest@;
        let mut k: usize = 0;
        while k < 5
            invariant
                0 <= k <= 5,
                dest@ == mid + self.autoincrement_next_val@.subrange(0, k as int),
            decreases 5 - k,
        {
            dest.push(self.autoincrement_next_val[k]);
            assert(self.autoincrement_next_val@.subrange(0, k + 1) =~= self.autoincrement_next_val@.subrange(0, k as int).push(self.autoincrement_next_val@[k as int]));
            k = k + 1;
        }
        assert(self.autoincrement_next_val@.subrange(0, 5) =~= self.autoincrement_next_val@);
        dest.push(self.autoincrement_step);
        let ghost before_reserved = dest@;
        let mut k: usize = 0;
        while k < 7
            invariant
                0 <= k <= 7,
                dest@ == before_reserved + Seq::new(k as nat, |j: int| 0u8),
            decreases 7 - k,
        {
            dest.push(0u8);
            assert(Seq::new(k as nat, |j: int| 0u8).push(0u8) =~= Seq::new((k + 1) as nat, |j: int| 0u8));
            k = k + 1;
        }
        assert(dest@ =~= start + spec_field_info_bytes(*self, encoded@));
        Ok(())
    }

    /// The descriptor that stands for the deletion flag of records.
    pub fn new_deletion_flag() -> (r: Self)
        ensures
            r.name@ == deletion_flag_name(),
            r.field_type == FieldType::Character,
            r.field_length == 1,
    {
        let name = String::from_str("DeletionFlag");
        proof {
            reveal_strlit("DeletionFlag");
            assert("DeletionFlag"@ =~= deletion_flag_name());
        }
        Self {
            name,
            field_type: FieldType::Character,
            displacement_field: [0u8; 4],
            field_length: 1,
            num_decimal_places: 0,
            flags: FieldFlags(0u8),
            autoincrement_next_val: [0u8; 5],
            autoincrement_step: 0u8,
        }
    }

    /// Whether this descriptor stands for the deletion flag.
    pub fn is_deletion_flag(&self) -> (r: bool)
        ensures
            r == (self.name@ == deletion_flag_name()),
    {
        proof {
            reveal_strlit("DeletionFlag");
        }
        assert("DeletionFlag"@ =~= deletion_flag_name());
        str_eq(self.name.as_str(), "DeletionFlag")
    }
}

/// Sum of the lengths of the first `n` fields.
pub open spec fn sum_lengths(fields: Seq<FieldInfo>, n: int) -> int
    decreases n,
{
    if n <= 0 {
        0
    } else {
        sum_lengths(fields, n - 1) + fields[n - 1].field_length
    }
}

/// The sum of the lengths of `n` fields is at most `255 * n`.
pub proof fn lemma_sum_lengths_bound(fields: Seq<FieldInfo>, n: int)
    requires
        0 <= n,
    ensures
        0 <= sum_lengths(fields, n) <= 255 * n,
    decreases n,
{
    if n > 0 {
        lemma_sum_lengths_bound(fields, n - 1);
    }
}

/// The sums of lengths grow with the number of fields.
pub proof fn lemma_sum_lengths_monotonic(fields: Seq<FieldInfo>, m: int, n: int)
    requires
        0 <= m <= n,
    ensures
        sum_lengths(fields, m) <= sum_lengths(fields, n),
    decreases n,
{
    if m < n {
        lemma_sum_lengths_monotonic(fields, m, n - 1);
    }
}

/// Whether a field descriptor can be read at `pos` in `s`: its 32 bytes are
/// there, its name decodes and its type code is known.
pub open spec fn descriptor_readable<E: Encoding>(enc: E, s: Seq<u8>, pos: int) -> bool {
    &&& pos + 32 <= s.len()
    &&& enc.spec_decode(trim_zero_bytes(s.subrange(pos, pos + 11))) is Some
    &&& spec_field_type_from_code(s[pos + 11] as char) is Some
}

/// Largest number of fields of a table: the offset of the first record,
/// a 16 bit value, has room for no more descriptors.
pub const MAX_NUM_FIELDS: usize = 2046;

/// The field descriptors of a table, in order.
#[derive(Debug, Clone)]
pub struct FieldsInfo {
    pub inner: Vec<FieldInfo>,
}

impl FieldsInfo {
    /// Reads `num_fields` field descriptors from `pos` on, names read as ASCII.
    pub fn read_from(source: &[u8], pos: usize, num_fields: usize) -> (r: Result<Self, ErrorKind>)
        ensures
            r matches Ok(f) ==> f.inner@.len() == num_fields && forall|i: int|
                0 <= i < num_fields ==> parsed_field_info(
                    Ascii,
                    source@,
                    pos + 32 * i,
                    #[trigger] f.inner@[i],
                ),
            r is Ok <==> forall|i: int|
                0 <= i < num_fields ==> #[trigger] descriptor_readable(Ascii, source@, pos + 32 * i),
    {
        Self::read_with_encoding(source, pos, num_fields, &Ascii)
    }

    /// Reads `num_fields` field descriptors from `pos` on, names decoded with `encoding`.
    pub fn read_with_encoding<E: Encoding>(
        source: &[u8],
        pos: usize,
        num_fields: usize,
        encoding: &E,
    ) -> (r: Result<Self, ErrorKind>)
        ensures
            r matches Ok(f) ==> f.inner@.len() == num_fields && forall|i: int|
                0 <= i < num_fields ==> parsed_field_info(
                    *encoding,
                    source@,
                    pos + 32 * i,
                    #[trigger] f.inner@[i],
                ),
            r is Ok <==> forall|i: int|
                0 <= i < num_fields ==> #[trigger] descriptor_readable(*encoding, source@, pos + 32 * i),
    {
        let mut fields_info: Vec<FieldInfo> = Vec::new();
        let mut i: usize = 0;
        let mut p: usize = pos;
        let total = source.len();
        while i < num_fields
            invariant
                total == source@.len(),
                0 <= i <= num_fields,
                p == pos + 32 * i,
                fields_info@.len() == i,
                forall|k: int| 0 <= k < i ==> #[trigger] descriptor_readable(*encoding, source@, pos + 32 * k),
                forall|k: int|
                    0 <= k < i ==> parsed_field_info(
                        *encoding,
                        source@,
                        pos + 32 * k,
                        #[trigger] fields_info@[k],
                    ),
            decreases num_fields - i,
        {
            let res = FieldInfo::read_with_encoding(source, p, encoding);
            let info = match res {
                Ok(info) => info,
                Err(e) => {
                    assert(!descriptor_readable(*encoding, source@, pos + 32 * i));
                    return Err(e);
                },
            };
            assert(p + 32 <= source@.len());
            assert(descriptor_readable(*encoding, source@, pos + 32 * i));
            fields_info.push(info);
            i = i + 1;
            p = p + 32;
        }
        Ok(Self { inner: fields_info })
    }

    /// Position of the field of index `index` in a record (after the
    /// deletion flag), `None` if there are fewer fields.
    pub fn field_position_in_record(&self, index: usize) -> (r: Option<usize>)
        requires
            self.inner@.len() <= MAX_NUM_FIELDS,
        ensures
            index > self.inner@.len() ==> r is None,
            index <= self.inner@.len() ==> r == Some((sum_lengths(self.inner@, index as int) + 1) as usize),
    {
        if index > self.inner.len() {
            return None;
        }
        let mut sum: usize = 0;
        let mut i: usize = 0;
        while i < index
            invariant
                0 <= i <= index <= self.inner@.len() <= MAX_NUM_FIELDS,
                sum == sum_lengths(self.inner@, i as int),
            decreases index - i,
        {
            proof {
                lemma_sum_lengths_bound(self.inner@, i + 1);
            }
            sum = sum + self.inner[i].field_length as usize;
            i = i + 1;
        }
        proof {
            lemma_sum_lengths_bound(self.inner@, index as int);
        }
        Some(sum + DELETION_FLAG_SIZE)
    }

    /// Sum of the lengths of all the fields.
    pub fn size_of_all_fields(&self) -> (r: usize)
        requires
            self.inner@.len() <= MAX_NUM_FIELDS,
        ensures
            r == sum_lengths(self.inner@, self.inner@.len() as int),
    {
        let mut sum: usize = 0;
        let mut i: usize = 0;
        while i < self.inner.len()
            invariant
                0 <= i <= self.inner@.len() <= MAX_NUM_FIELDS,
                sum == sum_lengths(self.inner@, i as int),
            decreases self.inner@.len() - i,
        {
            proof {
                lemma_sum_lengths_bound(self.inner@, i + 1);
            }
            sum = sum + self.inner[i].field_length as usize;
            i = i + 1;
        }
        sum
    }

    /// Whether one of the fields is a memo field.
    pub fn at_least_one_field_is_memo(&self) -> (r: bool)
        ensures
            r == exists|i: int|
                0 <= i < self.inner@.len() && #[trigger] self.inner@[i].field_type == FieldType::Memo,
    {
        let mut i: usize = 0;
        while i < self.inner.len()
            invariant
                0 <= i <= self.inner@.len(),
                forall|k: int| 0 <= k < i ==> #[trigger] self.inner@[k].field_type != FieldType::Memo,
            decreases self.inner@.len() - i,
        {
            if self.inner[i].field_type == FieldType::Memo {
                return true;
            }
            i = i + 1;
        }
        false
    }

    /// Number of fields.
    pub fn len(&self) -> (r: usize)
        ensures
            r == self.inner@.len(),
    {
        self.inner.len()
    }

    /// The field descriptors, in order.
    pub fn as_slice(&self) -> (r: &[FieldInfo])
        ensures
            r@ == self.inner@,
    {
        self.inner.as_slice()
    }

    /// Iterator over the field descriptors, in order.
    pub fn iter(&self) -> (r: std::slice::Iter<'_, FieldInfo>)
        ensures
            vstd::std_specs::slice::into_iter_elts(r) == self.inner@,
    {
        broadcast use vstd::std_specs::slice::axiom_spec_slice_iter;
        let r = self.inner.as_slice().iter();
        assert(vstd::std_specs::iter::IteratorSpec::remaining(&r).unref() =~= self.inner@);
        r
    }
}

/// Value of the deletion flag of a record.
#[derive(Copy, Clone, PartialEq, Eq, Debug, Structural)]
pub enum DeletionFlag {
    NotDeleted,
    Deleted,
}

impl DeletionFlag {
    /// The byte of the flag: a space, or `*` for a deleted record.
    pub fn to_byte(self) -> (r: u8)
        ensures
            r == (match self {
                DeletionFlag::NotDeleted => 0x20u8,
                DeletionFlag::Deleted => 0x2Au8,
            }),
    {
        match self {
            Self::NotDeleted => 0x20,
            Self::Deleted => 0x2A,
        }
    }

    /// The flag of a byte: `*` marks a deleted record, any other byte does not.
    pub fn from_byte(byte: u8) -> (r: Self)
        ensures
            r == (if byte == 0x2A { DeletionFlag::Deleted } else { DeletionFlag::NotDeleted }),
    {
        match byte {
            0x20 => Self::NotDeleted,
            0x2A => Self::Deleted,
            // Silently consider other values as not deleted
            _ => Self::NotDeleted,
        }
    }
}


/// Reading the byte of a deletion flag gives the flag back.
pub proof fn lemma_deletion_flag_roundtrip(flag: DeletionFlag)
    ensures
        (if (match flag {
            DeletionFlag::NotDeleted => 0x20u8,
            DeletionFlag::Deleted => 0x2Au8,
        }) == 0x2A {
            DeletionFlag::Deleted
        } else {
            DeletionFlag::NotDeleted
        }) == flag,
{
}

/// No zero byte at or after `i`: the first zero is at the end.
pub proof fn lemma_first_zero_none(b: Seq<u8>, i: int)
    requires
        0 <= i <= b.len(),
        forall|j: int| i <= j < b.len() ==> b[j] != 0,
    ensures
        first_zero_from(b, i) == b.len(),
    decreases b.len() - i,
{
    if i < b.len() {
        lemma_first_zero_none(b, i + 1);
    }
}

/// Only zeros between `k` and `j`, and a non zero byte before `k`: the last
/// non zero byte before `j` ends at `k`.
pub proof fn lemma_end_nonzero_at(b: Seq<u8>, j: int, k: int)
    requires
        0 < k <= j <= b.len(),
        b[k - 1] != 0,
        forall|m: int| k <= m < j ==> b[m] == 0,
    ensures
        end_nonzero_before(b, j) == k,
    decreases j,
{
    if j > k {
        lemma_end_nonzero_at(b, j - 1, k);
    }
}

/// A name made of ASCII characters other than NUL.
pub open spec fn is_plain_ascii_name(name: Seq<char>) -> bool {
    forall|i: int| 0 <= i < name.len() ==> '\0' < #[trigger] name[i] <= '\u{7f}'
}

/// Writing a field descriptor with a plain ASCII name of at most 11
/// characters, then reading it back as ASCII, gives the same descriptor.
pub proof fn lemma_field_info_write_read(info: FieldInfo)
    requires
        is_plain_ascii_name(info.name@),
        info.name@.len() <= 11,
    ensures
        parsed_field_info(
            Ascii,
            spec_field_info_bytes(info, vstd::utf8::encode_utf8(info.name@)),
            0,
            info,
        ),
{
    let name = info.name@;
    let enc = vstd::utf8::encode_utf8(name);
    assert(vstd::utf8::is_ascii_chars(name));
    vstd::utf8::is_ascii_chars_encode_utf8(name);
    assert(enc.len() == name.len());
    assert forall|i: int| 0 <= i < enc.len() implies enc[i] != 0 && enc[i] < 128 by {
        assert(name[i] as u8 == enc[i]);
    }
    let s = spec_field_info_bytes(info, enc);
    let nb = name_field_bytes(enc);
    assert(s.subrange(0, 11) =~= nb);
    assert(nb.subrange(0, enc.len() as int) =~= enc);
    if enc.len() == 0 {
        assert(first_nonzero_from(nb, 0) >= nb.len()) by {
            lemma_all_zero_first_nonzero(nb, 0);
        }
        assert(trim_zero_bytes(nb) =~= enc);
    } else {
        assert(first_nonzero_from(nb, 0) == 0);
        lemma_end_nonzero_at(nb, 11, enc.len() as int);
        assert(trim_zero_bytes(nb) =~= enc);
    }
    lemma_first_zero_none(enc, 0);
    assert(enc.subrange(0, enc.len() as int) =~= enc);
    assert(all_ascii(enc));
    assert(ascii_chars(enc) =~= name) by {
        assert forall|i: int| 0 <= i < name.len() implies ascii_chars(enc)[i] == name[i] by {
            assert(name[i] as u8 == enc[i]);
            vstd::utf8::char_is_scalar(name[i]);
        }
    }
    assert(spec_ascii_decode(enc) == Some(name));
    crate::types::lemma_field_type_code_roundtrip(info.field_type);
    assert(s.subrange(12, 16) =~= info.displacement_field@);
    assert(s.subrange(19, 24) =~= info.autoincrement_next_val@);
}

/// All zeros from `i` on: there is no non zero byte there.
pub proof fn lemma_all_zero_first_nonzero(b: Seq<u8>, i: int)
    requires
        0 <= i <= b.len(),
        forall|j: int| i <= j < b.len() ==> b[j] == 0,
    ensures
        first_nonzero_from(b, i) == b.len(),
    decreases b.len() - i,
{
    if i < b.len() {
        lemma_all_zero_first_nonzero(b, i + 1);
    }
}

proof fn lemma_end_after_start(b: Seq<u8>, start: int, end: int)
    requires
        0 <= start < b.len(),
        b[start] != 0,
        0 <= end <= b.len(),
        end == end_nonzero_before(b, b.len() as int),
        end == end_nonzero_before(b, end),
        forall|j: int| end <= j < b.len() ==> b[j] == 0,
    ensures
        end > start,
{
}

} // verus!
