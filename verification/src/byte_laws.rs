//! What the bytes of a table and of a memo file mean, stated over the bytes
//! themselves: the header and the field descriptors, version, code page and
//! field type bytes, the bytes of logical, integer, currency, double,
//! date-time and character fields, how a value fills a field, and the
//! header and blocks of memo files.

use crate::encoding::Encoding;
use crate::header::{spec_code_page_mark, spec_parse_header, spec_version, CodePageMark, Version};
use crate::le::{le16, le32, le_bytes32, lemma_le32_encode_decode, lemma_le32_roundtrip, signed32, unsigned32};
use crate::field::{spec_field_info_bytes, FieldInfo};
use crate::memo::{first_index_of, spec_memo_data, spec_memo_header, trim_trailing_zeros, until_byte, MemoFileType, MemoHeader, MemoReader};
use crate::reading::{spec_num_fields, FromFieldValue};
use crate::types::{DateTime, spec_field_type_code, spec_field_type_from_code, FieldType};
use crate::value::{spec_trim_field_data, spec_read_field, ReadFailure, TrimOption, ValueModel};
use crate::writing::{spec_add_decimals, spec_field_bytes};
use vstd::prelude::*;

verus! {

/// The version a header's first byte stands for: `0x02` is FoxBase;
/// `0x03` and `0x83` are dBase III, with memo fields when the high bit is
/// set; `0x30` to `0x32` are Visual FoxPro; `0x43` and `0x63` are dBase IV
/// without memo fields, `0x8b` and `0xcb` with them; `0xfb` is FoxPro 2
/// without memo fields and `0xf5` with them; every other byte is unknown and
/// kept as it is.
pub proof fn lemma_version_bytes(b: u8)
    ensures
        (spec_version(b) == Version::FoxBase) <==> b == 2,
        (spec_version(b) == Version::VisualFoxPro) <==> 48 <= b <= 50,
        (spec_version(b) is DBase3) <==> (b == 3 || b == 3 + 128),
        spec_version(b) matches Version::DBase3 { supports_memo } ==> supports_memo == (b >= 128),
        (spec_version(b) == Version::DBase4 { supports_memo: true }) <==> (b == 139 || b == 139 + 64),
        (spec_version(b) == Version::DBase4 { supports_memo: false }) <==> (b == 67 || b == 67 + 32),
        (spec_version(b) == Version::FoxPro2 { supports_memo: false }) <==> b == 251,
        (spec_version(b) == Version::FoxPro2 { supports_memo: true }) <==> b == 245,
        spec_version(b) matches Version::Unknown(x) ==> x == b,
        !(b == 2 || 48 <= b <= 50 || b == 3 || b == 131 || b == 139 || b == 203 || b == 67
            || b == 99 || b == 251 || b == 245) ==> spec_version(b) == Version::Unknown(b),
{
}

/// The field descriptors of a Visual FoxPro table are followed by the 263
/// bytes of the backlink, which are not descriptors: the descriptors
/// announced by a header of 32 or more bytes are those that fit between the
/// header and the offset of the first record (stored little endian in bytes
/// 8 and 9) less the terminator byte, and less the backlink for a first byte
/// from `0x30` to `0x32`.
pub proof fn lemma_descriptor_count(s: Seq<u8>)
    requires
        s.len() >= 32,
    ensures
        ({
            let offset = s[8] + 256 * s[9];
            let room = if 48 <= s[0] <= 50 { offset - 263 - 33 } else { offset - 33 };
            &&& room < 0 ==> spec_num_fields(spec_parse_header(s)) is None
            &&& room >= 0 ==> spec_num_fields(spec_parse_header(s)) == Some(room / 32)
        }),
{
    lemma_version_bytes(s[0]);
}

/// A logical field is read from its first byte: a space or `?` is no value;
/// `T`, `t`, `Y`, `y` (and `1`, `0`) are true; `F`, `f`, `N`, `n` are false;
/// any other byte, or an empty field, is no value.
pub proof fn lemma_logical_bytes<E: Encoding>(enc: E, b: Seq<u8>, len: u8, trim: TrimOption, memo: Option<MemoReader>)
    ensures
        b.len() == 0 ==> spec_read_field(enc, b, FieldType::Logical, len, trim, memo)
            == Ok::<ValueModel, ReadFailure>(ValueModel::Logical(None)),
        b.len() > 0 && (b[0] == ' ' as u8 || b[0] == '?' as u8) ==> spec_read_field(
            enc,
            b,
            FieldType::Logical,
            len,
            trim,
            memo,
        ) == Ok::<ValueModel, ReadFailure>(ValueModel::Logical(None)),
        b.len() > 0 && (b[0] == 'T' as u8 || b[0] == 't' as u8 || b[0] == 'Y' as u8 || b[0] == 'y' as u8
            || b[0] == '1' as u8 || b[0] == '0' as u8) ==> spec_read_field(
            enc,
            b,
            FieldType::Logical,
            len,
            trim,
            memo,
        ) == Ok::<ValueModel, ReadFailure>(ValueModel::Logical(Some(true))),
        b.len() > 0 && (b[0] == 'F' as u8 || b[0] == 'f' as u8 || b[0] == 'N' as u8 || b[0] == 'n' as u8)
            ==> spec_read_field(enc, b, FieldType::Logical, len, trim, memo)
            == Ok::<ValueModel, ReadFailure>(ValueModel::Logical(Some(false))),
        spec_read_field(enc, b, FieldType::Logical, len, trim, memo) matches Ok(ValueModel::Logical(Some(x)))
            ==> b.len() > 0 && (x <==> !(b[0] == 'F' as u8 || b[0] == 'f' as u8 || b[0] == 'N' as u8
            || b[0] == 'n' as u8)),
{
}

/// An integer field holds the four little endian bytes of the two's
/// complement form of its value: four bytes or more read as the one `i32`
/// whose bytes they start with, and the bytes of any `i32` read as it.
pub proof fn lemma_integer_bytes<E: Encoding>(
    enc: E,
    b: Seq<u8>,
    len: u8,
    trim: TrimOption,
    memo: Option<MemoReader>,
    v: i32,
)
    ensures
        b.len() >= 4 ==> (spec_read_field(enc, b, FieldType::Integer, len, trim, memo) matches Ok(
            ValueModel::Integer(x),
        ) && le_bytes32(unsigned32(x as int)) == b.subrange(0, 4)),
        b.len() < 4 ==> spec_read_field(enc, b, FieldType::Integer, len, trim, memo)
            == Err::<ValueModel, ReadFailure>(ReadFailure::UnexpectedEof),
        spec_read_field(enc, le_bytes32(unsigned32(v as int)), FieldType::Integer, len, trim, memo)
            == Ok::<ValueModel, ReadFailure>(ValueModel::Integer(v)),
{
    if b.len() >= 4 {
        lemma_le32_encode_decode(b, 0);
        let u = le32(b, 0);
        assert(unsigned32(signed32(u)) == u);
        assert(signed32(u) as i32 == signed32(u));
    }
    let u = unsigned32(v as int) as u32;
    let s = le_bytes32(unsigned32(v as int));
    assert(s.subrange(0, 4) =~= s);
    lemma_le32_roundtrip(u, s, 0);
    assert(signed32(u as int) == v);
}

/// An `i32` read from an integer field is the number whose four little
/// endian bytes start the field: a read that converts to `v` saw exactly the
/// bytes of `v`, and a field that starts with the bytes of `v` converts to
/// `v`.
pub proof fn lemma_integer_field_as_i32<E: Encoding>(
    enc: E,
    b: Seq<u8>,
    len: u8,
    trim: TrimOption,
    memo: Option<MemoReader>,
    v: i32,
)
    ensures
        spec_read_field(enc, b, FieldType::Integer, len, trim, memo) matches Ok(m)
            && <i32 as FromFieldValue>::spec_converts(m, v) ==> b.len() >= 4 && b.subrange(0, 4)
            == le_bytes32(unsigned32(v as int)),
        b.len() >= 4 && b.subrange(0, 4) == le_bytes32(unsigned32(v as int)) ==> (spec_read_field(
            enc,
            b,
            FieldType::Integer,
            len,
            trim,
            memo,
        ) matches Ok(m) && <i32 as FromFieldValue>::spec_accepts(m)
            && <i32 as FromFieldValue>::spec_converts(m, v)),
{
    lemma_integer_bytes(enc, b, len, trim, memo, v);
    if b.len() >= 4 {
        let s = le_bytes32(unsigned32(v as int));
        lemma_integer_bytes(enc, s, len, trim, memo, v);
        assert(s.subrange(0, 4) =~= s);
        if let Ok(ValueModel::Integer(x)) = spec_read_field(enc, b, FieldType::Integer, len, trim, memo) {
            if b.subrange(0, 4) == s {
                lemma_integer_bytes(enc, s, len, trim, memo, x);
                assert(le_bytes32(unsigned32(x as int)).subrange(0, 4) =~= le_bytes32(unsigned32(x as int)));
            }
        }
    }
}

/// A `bool` read from a logical field is false exactly when its first byte
/// is `F`, `f`, `N` or `n`, and true when it is `T`, `t`, `Y`, `y`, `1` or
/// `0`; a field whose byte is a space, `?` or any other byte has no `bool`.
pub proof fn lemma_logical_field_as_bool<E: Encoding>(
    enc: E,
    b: Seq<u8>,
    len: u8,
    trim: TrimOption,
    memo: Option<MemoReader>,
    v: bool,
)
    ensures
        spec_read_field(enc, b, FieldType::Logical, len, trim, memo) matches Ok(m)
            && <bool as FromFieldValue>::spec_converts(m, v) ==> b.len() > 0 && (v <==> !(b[0] == 'F' as u8
            || b[0] == 'f' as u8 || b[0] == 'N' as u8 || b[0] == 'n' as u8)),
        spec_read_field(enc, b, FieldType::Logical, len, trim, memo) matches Ok(m) ==> (
        <bool as FromFieldValue>::spec_accepts(m) <==> (b.len() > 0 && (b[0] == 'T' as u8 || b[0] == 't' as u8
            || b[0] == 'Y' as u8 || b[0] == 'y' as u8 || b[0] == '1' as u8 || b[0] == '0' as u8
            || b[0] == 'F' as u8 || b[0] == 'f' as u8 || b[0] == 'N' as u8 || b[0] == 'n' as u8))),
{
    lemma_logical_bytes(enc, b, len, trim, memo);
}

/// The letter that stands for each field type in a field descriptor: `C`
/// character, `D` date, `F` float, `N` numeric, `L` logical, `Y` currency,
/// `T` date and time, `I` integer, `B` double, `M` memo; no other letter
/// names a type, and each type is written as its letter.
pub proof fn lemma_field_type_codes(c: char, t: FieldType)
    ensures
        (spec_field_type_from_code(c) == Some(FieldType::Character)) <==> c == 'C',
        (spec_field_type_from_code(c) == Some(FieldType::Date)) <==> c == 'D',
        (spec_field_type_from_code(c) == Some(FieldType::Float)) <==> c == 'F',
        (spec_field_type_from_code(c) == Some(FieldType::Numeric)) <==> c == 'N',
        (spec_field_type_from_code(c) == Some(FieldType::Logical)) <==> c == 'L',
        (spec_field_type_from_code(c) == Some(FieldType::Currency)) <==> c == 'Y',
        (spec_field_type_from_code(c) == Some(FieldType::DateTime)) <==> c == 'T',
        (spec_field_type_from_code(c) == Some(FieldType::Integer)) <==> c == 'I',
        (spec_field_type_from_code(c) == Some(FieldType::Double)) <==> c == 'B',
        (spec_field_type_from_code(c) == Some(FieldType::Memo)) <==> c == 'M',
        spec_field_type_from_code(c) is None <==> !(c == 'C' || c == 'D' || c == 'F' || c == 'N' || c == 'L' || c == 'Y' || c == 'T' || c == 'I' || c == 'B' || c == 'M'),
        spec_field_type_from_code(spec_field_type_code(t)) == Some(t),
{
}

/// The code page mark each value of byte 29 of a header stands for; every
/// byte that is not listed is an invalid mark.
pub proof fn lemma_code_page_mark_bytes(b: u8)
    ensures
        (spec_code_page_mark(b) == CodePageMark::Undefined) <==> b == 0x00,
        (spec_code_page_mark(b) == CodePageMark::CP437) <==> b == 0x01,
        (spec_code_page_mark(b) == CodePageMark::CP850) <==> b == 0x02,
        (spec_code_page_mark(b) == CodePageMark::CP1252) <==> b == 0x03,
        (spec_code_page_mark(b) == CodePageMark::CP852) <==> b == 0x64,
        (spec_code_page_mark(b) == CodePageMark::CP866) <==> b == 0x65,
        (spec_code_page_mark(b) == CodePageMark::CP865) <==> b == 0x66,
        (spec_code_page_mark(b) == CodePageMark::CP861) <==> b == 0x67,
        (spec_code_page_mark(b) == CodePageMark::CP895) <==> b == 0x68,
        (spec_code_page_mark(b) == CodePageMark::CP620) <==> b == 0x69,
        (spec_code_page_mark(b) == CodePageMark::CP737) <==> b == 0x6A,
        (spec_code_page_mark(b) == CodePageMark::CP857) <==> b == 0x6B,
        (spec_code_page_mark(b) == CodePageMark::CP950) <==> b == 0x78,
        (spec_code_page_mark(b) == CodePageMark::CP949) <==> b == 0x79,
        (spec_code_page_mark(b) == CodePageMark::CP936) <==> b == 0x7A,
        (spec_code_page_mark(b) == CodePageMark::CP932) <==> b == 0x7B,
        (spec_code_page_mark(b) == CodePageMark::CP874) <==> b == 0x7C,
        (spec_code_page_mark(b) == CodePageMark::CP1255) <==> b == 0x7D,
        (spec_code_page_mark(b) == CodePageMark::CP1256) <==> b == 0x7E,
        (spec_code_page_mark(b) == CodePageMark::CP1250) <==> b == 0xC8,
        (spec_code_page_mark(b) == CodePageMark::CP1251) <==> b == 0xC9,
        (spec_code_page_mark(b) == CodePageMark::CP1254) <==> b == 0xCA,
        (spec_code_page_mark(b) == CodePageMark::CP1253) <==> b == 0xCB,
        (spec_code_page_mark(b) == CodePageMark::Utf8) <==> b == 0xF0,
        (spec_code_page_mark(b) == CodePageMark::Invalid) <==> !(b == 0x00 || b == 0x01 || b == 0x02 || b == 0x03 || b == 0x64 || b == 0x65 || b == 0x66 || b == 0x67 || b == 0x68 || b == 0x69 || b == 0x6A || b == 0x6B || b == 0x78 || b == 0x79 || b == 0x7A || b == 0x7B || b == 0x7C || b == 0x7D || b == 0x7E || b == 0xC8 || b == 0xC9 || b == 0xCA || b == 0xCB || b == 0xF0),
{
}

/// Where the parts of a header stand in its 32 bytes: the version in byte 0;
/// the date of the last update as the year less 1900, the month and the day
/// in bytes 1 to 3; the number of records, little endian, in bytes 4 to 7;
/// the offset of the first record in bytes 8 and 9 and the size of a record
/// in bytes 10 and 11, both little endian; whether a transaction is
/// incomplete in byte 14 (any byte but zero); the encryption flag in byte
/// 15; the table flags in byte 28; the code page mark in byte 29.
pub proof fn lemma_header_layout(s: Seq<u8>)
    requires
        s.len() >= 32,
    ensures
        ({
            let h = spec_parse_header(s);
            &&& h.file_type == spec_version(s[0])
            &&& h.last_update.year == 1900 + s[1]
            &&& h.last_update.month == s[2]
            &&& h.last_update.day == s[3]
            &&& h.num_records == s[4] + 256 * s[5] + 65536 * s[6] + 16777216 * s[7]
            &&& h.offset_to_first_record == s[8] + 256 * s[9]
            &&& h.size_of_record == s[10] + 256 * s[11]
            &&& h.is_transaction_incomplete == (s[14] != 0)
            &&& h.encryption_flag == s[15]
            &&& h.table_flags.0 == s[28]
            &&& h.code_page_mark == spec_code_page_mark(s[29])
        }),
{
}

/// Where the parts of a field descriptor stand in its 32 written bytes: the
/// name in bytes 0 to 10, padded with zeros; the letter of the type in byte
/// 11; the length in byte 16 and the number of decimal places in byte 17;
/// the last seven bytes are zero.
pub proof fn lemma_descriptor_layout(info: FieldInfo, encoded: Seq<u8>)
    ensures
        ({
            let s = spec_field_info_bytes(info, encoded);
            &&& s.len() == 32
            &&& forall|i: int| 0 <= i < 11 && i < encoded.len() ==> s[i] == encoded[i]
            &&& forall|i: int| encoded.len() <= i < 11 ==> s[i] == 0
            &&& s[11] == spec_field_type_code(info.field_type) as u8
            &&& s[16] == info.field_length
            &&& s[17] == info.num_decimal_places
            &&& forall|i: int| 25 <= i < 32 ==> s[i] == 0
        }),
{
    let s = spec_field_info_bytes(info, encoded);
    assert(s.len() == 32);
    assert forall|i: int| 0 <= i < 11 && i < encoded.len() implies s[i] == encoded[i] by {}
    assert forall|i: int| encoded.len() <= i < 11 implies s[i] == 0 by {}
}

/// `trim_trailing_zeros(b)` is `b` less the zero bytes at its end: a prefix
/// of `b`, followed in `b` by zeros only, that is empty or ends in a byte
/// that is not zero.
proof fn lemma_trim_trailing_zeros(b: Seq<u8>)
    ensures
        trim_trailing_zeros(b).len() <= b.len(),
        trim_trailing_zeros(b) == b.subrange(0, trim_trailing_zeros(b).len() as int),
        forall|i: int| trim_trailing_zeros(b).len() <= i < b.len() ==> b[i] == 0,
        trim_trailing_zeros(b).len() == 0 || trim_trailing_zeros(b).last() != 0,
    decreases b.len(),
{
    if b.len() > 0 && b.last() == 0 {
        lemma_trim_trailing_zeros(b.drop_last());
        let t = trim_trailing_zeros(b.drop_last());
        assert(t == b.drop_last().subrange(0, t.len() as int));
        assert(t =~= b.subrange(0, t.len() as int));
        assert forall|i: int| t.len() <= i < b.len() implies b[i] == 0 by {
            if i < b.len() - 1 {
                assert(b.drop_last()[i] == b[i]);
            }
        }
    } else {
        assert(b =~= b.subrange(0, b.len() as int));
    }
}

/// `until_byte(b, x)` is the prefix of `b` before its first byte `x`, or
/// all of `b`.
proof fn lemma_until_byte(b: Seq<u8>, x: u8)
    ensures
        until_byte(b, x).len() <= b.len(),
        until_byte(b, x) == b.subrange(0, until_byte(b, x).len() as int),
        forall|i: int| 0 <= i < until_byte(b, x).len() ==> b[i] != x,
        until_byte(b, x).len() == b.len() || b[until_byte(b, x).len() as int] == x,
{
    lemma_first_index_of(b, x, 0);
}

proof fn lemma_first_index_of(b: Seq<u8>, x: u8, i: int)
    requires
        0 <= i <= b.len(),
    ensures
        i <= first_index_of(b, x, i) <= b.len(),
        forall|j: int| i <= j < first_index_of(b, x, i) ==> b[j] != x,
        first_index_of(b, x, i) == b.len() || b[first_index_of(b, x, i)] == x,
    decreases b.len() - i,
{
    if i < b.len() && b[i] != x {
        lemma_first_index_of(b, x, i + 1);
    }
}

/// Where the text of a memo stands in a memo file `s`: the block of index
/// `index` starts at `index` times the block size. A FoxPro memo holds
/// there a type and a length, both big endian, then that many bytes, whose
/// trailing zero bytes are not part of the text; a dBase IV memo holds a
/// type and a length, both little endian, then that many bytes, cut before
/// the first `0x1F`; a dBase III memo is the block (as much of it as the
/// file holds) cut before the first `0x1A`. The text is missing where the
/// file is too short for what it announces.
pub proof fn lemma_memo_data_bytes(memo_type: MemoFileType, header: MemoHeader, s: Seq<u8>, index: u32)
    ensures
        ({
            let o = index * header.block_size;
            let d = spec_memo_data(memo_type, header, s, index);
            &&& memo_type == MemoFileType::FoxBaseMemo ==> ({
                let n = 16777216 * s[o + 4] + 65536 * s[o + 5] + 256 * s[o + 6] + s[o + 7];
                &&& (d is None <==> (o + 8 > s.len() || o + 8 + n > s.len()))
                &&& d matches Some(t) ==> {
                    &&& t.len() <= n
                    &&& t == s.subrange(o + 8, o + 8 + t.len())
                    &&& forall|i: int| o + 8 + t.len() <= i < o + 8 + n ==> s[i] == 0
                    &&& (t.len() == 0 || t.last() != 0)
                }
            })
            &&& memo_type == MemoFileType::DbaseMemo4 ==> ({
                let n = s[o + 4] + 256 * s[o + 5] + 65536 * s[o + 6] + 16777216 * s[o + 7];
                &&& (d is None <==> (o + 8 > s.len() || o + 8 + n > s.len()))
                &&& d matches Some(t) ==> {
                    &&& t.len() <= n
                    &&& t == s.subrange(o + 8, o + 8 + t.len())
                    &&& (forall|i: int| 0 <= i < t.len() ==> t[i] != 0x1F)
                    &&& (t.len() == n || s[o + 8 + t.len()] == 0x1F)
                }
            })
            &&& memo_type == MemoFileType::DbaseMemo ==> ({
                let end = if o + header.block_size > s.len() { s.len() as int } else { o + header.block_size };
                &&& (d is None <==> o > s.len())
                &&& d matches Some(t) ==> {
                    &&& o + t.len() <= end
                    &&& t == s.subrange(o, o + t.len())
                    &&& (forall|i: int| 0 <= i < t.len() ==> t[i] != 0x1A)
                    &&& (o + t.len() == end || s[o + t.len()] == 0x1A)
                }
            })
        }),
{
    let o = index * header.block_size;
    match memo_type {
        MemoFileType::FoxBaseMemo => {
            if o + 8 <= s.len() {
                let n = 16777216 * s[o + 4] + 65536 * s[o + 5] + 256 * s[o + 6] + s[o + 7];
                if o + 8 + n <= s.len() {
                    let b = s.subrange(o + 8, o + 8 + n);
                    lemma_trim_trailing_zeros(b);
                    let t = trim_trailing_zeros(b);
                    assert(t =~= s.subrange(o + 8, o + 8 + t.len()));
                    assert forall|i: int| o + 8 + t.len() <= i < o + 8 + n implies s[i] == 0 by {
                        assert(b[i - o - 8] == s[i]);
                    }
                }
            }
        },
        MemoFileType::DbaseMemo4 => {
            if o + 8 <= s.len() {
                let n = s[o + 4] + 256 * s[o + 5] + 65536 * s[o + 6] + 16777216 * s[o + 7];
                if o + 8 + n <= s.len() {
                    let b = s.subrange(o + 8, o + 8 + n);
                    lemma_until_byte(b, 0x1F);
                    let t = until_byte(b, 0x1F);
                    assert(t =~= s.subrange(o + 8, o + 8 + t.len()));
                    if t.len() < n {
                        assert(b[t.len() as int] == s[o + 8 + t.len()]);
                    }
                }
            }
        },
        MemoFileType::DbaseMemo => {
            if o <= s.len() {
                let end = if o + header.block_size > s.len() { s.len() as int } else { o + header.block_size };
                let b = s.subrange(o, end);
                lemma_until_byte(b, 0x1A);
                let t = until_byte(b, 0x1A);
                assert(t =~= s.subrange(o, o + t.len()));
                if o + t.len() < end {
                    assert(b[t.len() as int] == s[o + t.len()]);
                }
            }
        },
    }
}

/// What a field holds once a value written as `w` is stored in it: exactly
/// the field length; the first bytes of `w` when `w` is as long as the
/// field or longer; else `w` followed by spaces, where a number (numeric
/// or float) first gets a `.`, when it has none, and zeros after it.
pub proof fn lemma_field_bytes_layout(w: Seq<u8>, info: FieldInfo)
    ensures
        ({
            let r = spec_field_bytes(w, info);
            let len = info.field_length as int;
            let number = info.field_type == FieldType::Numeric || info.field_type == FieldType::Float;
            &&& r.len() == len
            &&& w.len() >= len ==> r == w.subrange(0, len)
            &&& w.len() < len ==> r.subrange(0, w.len() as int) == w
            &&& (w.len() < len && !number) ==> forall|i: int| w.len() <= i < len ==> r[i] == ' ' as u8
            &&& (w.len() < len && number) ==> forall|i: int| w.len() <= i < len ==> (r[i] == ' ' as u8
                || r[i] == '0' as u8 || (r[i] == '.' as u8 && i == w.len() && forall|j: int| 0 <= j < w.len() ==> w[j] != '.' as u8))
            &&& (w.len() < len && number) ==> forall|i: int, k: int| w.len() <= i < k < len && r[i] == ' ' as u8 ==> r[k] == ' ' as u8
        }),
{
    let len = info.field_length as int;
    let number = info.field_type == FieldType::Numeric || info.field_type == FieldType::Float;
    let r = spec_field_bytes(w, info);
    if w.len() < len {
        let v = if number { spec_add_decimals(w, info.num_decimal_places) } else { w };
        lemma_first_index_of(w, 46, 0);
        // v is w followed by an optional `.` and zeros
        assert(v.len() >= w.len());
        assert(v.subrange(0, w.len() as int) =~= w);
        assert forall|i: int| w.len() <= i < v.len() implies (v[i] == '0' as u8 || (v[i] == '.' as u8 && i == w.len()
            && forall|j: int| 0 <= j < w.len() ==> w[j] != '.' as u8)) by {}
        if v.len() >= len {
            assert(r =~= v.subrange(0, len));
        } else {
            assert(r =~= v + Seq::new((len - v.len()) as nat, |i: int| 32u8));
        }
        assert(r.subrange(0, w.len() as int) =~= w);
    } else {
        assert(r =~= w.subrange(0, len));
    }
}

/// Currency and double fields hold the eight little endian bytes of their
/// 64 bit value; a date-time field holds two little endian 32 bit words,
/// the Julian day number and then the milliseconds since midnight, both
/// read in two's complement. Fewer than eight bytes cannot be read.
pub proof fn lemma_eight_byte_fields<E: Encoding>(
    enc: E,
    b: Seq<u8>,
    len: u8,
    trim: TrimOption,
    memo: Option<MemoReader>,
)
    ensures
        ({
            let low = b[0] + 256 * b[1] + 65536 * b[2] + 16777216 * b[3];
            let high = b[4] + 256 * b[5] + 65536 * b[6] + 16777216 * b[7];
            let word = |u: int| if u < 0x8000_0000 { u } else { u - 0x1_0000_0000 };
            &&& b.len() >= 8 ==> spec_read_field(enc, b, FieldType::Currency, len, trim, memo)
                == Ok::<ValueModel, ReadFailure>(ValueModel::Currency((low + 4294967296 * high) as u64))
            &&& b.len() >= 8 ==> spec_read_field(enc, b, FieldType::Double, len, trim, memo)
                == Ok::<ValueModel, ReadFailure>(ValueModel::Double((low + 4294967296 * high) as u64))
            &&& b.len() >= 8 ==> (spec_read_field(enc, b, FieldType::DateTime, len, trim, memo) is Ok
                <==> DateTime::spec_from_words(word(low), word(high)) is Ok)
            &&& b.len() >= 8 ==> (DateTime::spec_from_words(word(low), word(high)) matches Ok(dt) ==>
                spec_read_field(enc, b, FieldType::DateTime, len, trim, memo)
                == Ok::<ValueModel, ReadFailure>(ValueModel::DateTime(dt)))
            &&& b.len() < 8 ==> spec_read_field(enc, b, FieldType::Currency, len, trim, memo)
                == Err::<ValueModel, ReadFailure>(ReadFailure::UnexpectedEof)
            &&& b.len() < 8 ==> spec_read_field(enc, b, FieldType::Double, len, trim, memo)
                == Err::<ValueModel, ReadFailure>(ReadFailure::UnexpectedEof)
            &&& b.len() < 8 ==> spec_read_field(enc, b, FieldType::DateTime, len, trim, memo)
                == Err::<ValueModel, ReadFailure>(ReadFailure::UnexpectedEof)
        }),
{
}

/// A `String` read from a character field is the decoded text of the
/// field's trimmed bytes; a field that trims to nothing has no `String`,
/// and is `None` as an `Option<String>`.
pub proof fn lemma_character_field_as_string<E: Encoding>(
    enc: E,
    b: Seq<u8>,
    len: u8,
    trim: TrimOption,
    memo: Option<MemoReader>,
    v: String,
)
    ensures
        ({
            let t = spec_trim_field_data(b, trim);
            let r = spec_read_field(enc, b, FieldType::Character, len, trim, memo);
            &&& r matches Ok(m) ==> ((<String as FromFieldValue>::spec_converts(m, v)) ==> t.len() > 0
                && enc.spec_decode(t) == Some(v@))
            &&& (t.len() > 0 && enc.spec_decode(t) == Some(v@)) ==> (r matches Ok(m)
                && (<String as FromFieldValue>::spec_accepts(m)) && (<String as FromFieldValue>::spec_converts(m, v)))
            &&& t.len() == 0 ==> (r matches Ok(m) && !(<String as FromFieldValue>::spec_accepts(m))
                && (<Option<String> as FromFieldValue>::spec_converts(m, None)))
        }),
{
}

/// The header of a memo file: the index of the next free block is the
/// little endian number in bytes 0 to 3; a FoxPro memo file (`.fpt`) has its
/// block size as the big endian number in bytes 6 and 7; a dBase memo file
/// (`.dbt`) has it as the little endian number in bytes 4 and 5, 512 when
/// that is zero.
pub proof fn lemma_memo_header_bytes(s: Seq<u8>)
    ensures
        s.len() < 8 <==> spec_memo_header(s, MemoFileType::FoxBaseMemo) is None,
        s.len() < 6 <==> spec_memo_header(s, MemoFileType::DbaseMemo) is None,
        s.len() < 6 <==> spec_memo_header(s, MemoFileType::DbaseMemo4) is None,
        spec_memo_header(s, MemoFileType::FoxBaseMemo) matches Some(h) ==> h.block_size == 256 * s[6]
            + s[7] && h.next_available_block_index == s[0] + 256 * s[1] + 65536 * s[2] + 16777216
            * s[3],
        spec_memo_header(s, MemoFileType::DbaseMemo) matches Some(h) ==> h.block_size == (if s[4] == 0
            && s[5] == 0 {
            512
        } else {
            s[4] + 256 * s[5]
        }) && h.next_available_block_index == s[0] + 256 * s[1] + 65536 * s[2] + 16777216 * s[3],
        spec_memo_header(s, MemoFileType::DbaseMemo4) == spec_memo_header(s, MemoFileType::DbaseMemo),
{
}

} // verus!
