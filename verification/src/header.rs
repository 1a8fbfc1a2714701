//! The 32 byte header at the beginning of each dBase file.

use crate::le::{
    le16, le32, le_bytes16, le_bytes32, lemma_le16_encode_decode, lemma_le16_roundtrip,
    lemma_le32_encode_decode, lemma_le32_roundtrip, push_u16_le, push_u32_le, read_u16_le,
    read_u32_le,
};
use crate::error::ErrorKind;
use crate::memo::MemoFileType;
use crate::types::Date;
use vstd::prelude::*;

verus! {

/// Code page mark of a dBase file (byte 29 of the header).
#[derive(Copy, Clone, Debug, PartialEq, Eq, Structural)]
pub enum CodePageMark {
    Undefined,
    // OEM United States
    CP437,
    // OEM Multilingual Latin 1; Western European (DOS
    CP850,
    // ANSI Latin 1; Western European (Windows)
    CP1252,
    // OEM Latin 2; Central European (DOS)
    CP852,
    // OEM Russian; Cyrillic (DOS)
    CP866,
    // OEM Nordic; Nordic (DOS)
    CP865,
    // OEM Icelandic; Icelandic (DOS)
    CP861,
    CP895,
    CP620,
    CP737,
    CP857,
    CP950,
    CP949,
    CP936,
    CP932,
    // Thai (Windows)
    CP874,
    // ANSI Hebrew; Hebrew (Windows)
    CP1255,
    // ANSI Arabic; Arabic (Windows)
    CP1256,
    // ANSI Central European; Central European (Windows)
    CP1250,
    // ANSI Cyrillic; Cyrillic (Windows)
    CP1251,
    // ANSI Turkish; Turkish (Windows)
    CP1254,
    // ANSI Greek; Greek (Windows)
    CP1253,
    Utf8,
    Invalid,
}

/// The code page mark a byte of the header stands for.
pub open spec fn spec_code_page_mark(code: u8) -> CodePageMark {
    if code == 0x00 {
        CodePageMark::Undefined
    } else if code == 0x01 {
        CodePageMark::CP437
    } else if code == 0x02 {
        CodePageMark::CP850
    } else if code == 0x03 {
        CodePageMark::CP1252
    } else if code == 0x64 {
        CodePageMark::CP852
    } else if code == 0x65 {
        CodePageMark::CP866
    } else if code == 0x66 {
        CodePageMark::CP865
    } else if code == 0x67 {
        CodePageMark::CP861
    } else if code == 0x68 {
        CodePageMark::CP895
    } else if code == 0x69 {
        CodePageMark::CP620
    } else if code == 0x6A {
        CodePageMark::CP737
    } else if code == 0x6B {
        CodePageMark::CP857
    } else if code == 0x78 {
        CodePageMark::CP950
    } else if code == 0x79 {
        CodePageMark::CP949
    } else if code == 0x7A {
        CodePageMark::CP936
    } else if code == 0x7B {
        CodePageMark::CP932
    } else if code == 0x7C {
        CodePageMark::CP874
    } else if code == 0x7D {
        CodePageMark::CP1255
    } else if code == 0x7E {
        CodePageMark::CP1256
    } else if code == 0xC8 {
        CodePageMark::CP1250
    } else if code == 0xC9 {
        CodePageMark::CP1251
    } else if code == 0xCA {
        CodePageMark::CP1254
    } else if code == 0xCB {
        CodePageMark::CP1253
    } else if code == 0xF0 {
        CodePageMark::Utf8
    } else {
        CodePageMark::Invalid
    }
}

/// The header byte that stands for a code page mark (`Invalid` is written as 0).
pub open spec fn spec_code_page_byte(mark: CodePageMark) -> u8 {
    match mark {
        CodePageMark::Undefined => 0x00,
        CodePageMark::CP437 => 0x01,
        CodePageMark::CP850 => 0x02,
        CodePageMark::CP1252 => 0x03,
        CodePageMark::CP852 => 0x64,
        CodePageMark::CP866 => 0x65,
        CodePageMark::CP865 => 0x66,
        CodePageMark::CP861 => 0x67,
        CodePageMark::CP895 => 0x68,
        CodePageMark::CP620 => 0x69,
        CodePageMark::CP737 => 0x6A,
        CodePageMark::CP857 => 0x6B,
        CodePageMark::CP950 => 0x78,
        CodePageMark::CP949 => 0x79,
        CodePageMark::CP936 => 0x7A,
        CodePageMark::CP932 => 0x7B,
        CodePageMark::CP874 => 0x7C,
        CodePageMark::CP1255 => 0x7D,
        CodePageMark::CP1256 => 0x7E,
        CodePageMark::CP1250 => 0xC8,
        CodePageMark::CP1251 => 0xC9,
        CodePageMark::CP1254 => 0xCA,
        CodePageMark::CP1253 => 0xCB,
        CodePageMark::Utf8 => 0xF0,
        CodePageMark::Invalid => 0x00,
    }
}

impl From<u8> for CodePageMark {
    fn from(code: u8) -> (r: Self) {
        match code {
            0x00 => Self::Undefined,
            0x01 => Self::CP437,
            0x02 => Self::CP850,
            0x03 => Self::CP1252,
            0x64 => Self::CP852,
            0x65 => Self::CP866,
            0x66 => Self::CP865,
            0x67 => Self::CP861,
            0x68 => Self::CP895,
            0x69 => Self::CP620,
            0x6A => Self::CP737,
            0x6B => Self::CP857,
            0x78 => Self::CP950,
            0x79 => Self::CP949,
            0x7A => Self::CP936,
            0x7B => Self::CP932,
            0x7C => Self::CP874,
            0x7D => Self::CP1255,
            0x7E => Self::CP1256,
            0xC8 => Self::CP1250,
            0xC9 => Self::CP1251,
            0xCA => Self::CP1254,
            0xCB => Self::CP1253,
            0xf0 => Self::Utf8,
            _ => Self::Invalid,
        }
    }
}

impl vstd::std_specs::convert::FromSpecImpl<u8> for CodePageMark {
    open spec fn obeys_from_spec() -> bool {
        true
    }

    open spec fn from_spec(code: u8) -> CodePageMark {
        spec_code_page_mark(code)
    }
}

impl From<CodePageMark> for u8 {
    fn from(code: CodePageMark) -> (r: Self) {
        match code {
            CodePageMark::Undefined => 0x00,
            CodePageMark::CP437 => 0x01,
            CodePageMark::CP850 => 0x02,
            CodePageMark::CP1252 => 0x03,
            CodePageMark::CP852 => 0x64,
            CodePageMark::CP866 => 0x65,
            CodePageMark::CP865 => 0x66,
            CodePageMark::CP861 => 0x67,
            CodePageMark::CP895 => 0x68,
            CodePageMark::CP620 => 0x69,
            CodePageMark::CP737 => 0x6A,
            CodePageMark::CP857 => 0x6B,
            CodePageMark::CP950 => 0x78,
            CodePageMark::CP949 => 0x79,
            CodePageMark::CP936 => 0x7A,
            CodePageMark::CP932 => 0x7B,
            CodePageMark::CP874 => 0x7C,
            CodePageMark::CP1255 => 0x7D,
            CodePageMark::CP1256 => 0x7E,
            CodePageMark::CP1250 => 0xC8,
            CodePageMark::CP1251 => 0xC9,
            CodePageMark::CP1254 => 0xCA,
            CodePageMark::CP1253 => 0xCB,
            CodePageMark::Utf8 => 0xf0,
            CodePageMark::Invalid => 0,
        }
    }
}

impl vstd::std_specs::convert::FromSpecImpl<CodePageMark> for u8 {
    open spec fn obeys_from_spec() -> bool {
        true
    }

    open spec fn from_spec(code: CodePageMark) -> u8 {
        spec_code_page_byte(code)
    }
}

/// A code page mark other than `Invalid` is written as the byte it is read from.
pub proof fn lemma_code_page_mark_roundtrip(mark: CodePageMark)
    requires
        mark != CodePageMark::Invalid,
    ensures
        spec_code_page_mark(spec_code_page_byte(mark)) == mark,
{
}

/// A byte that stands for a known code page mark is written back as itself.
pub proof fn lemma_code_page_byte_roundtrip(code: u8)
    requires
        spec_code_page_mark(code) != CodePageMark::Invalid,
    ensures
        spec_code_page_byte(spec_code_page_mark(code)) == code,
{
}

/// Known version of dBase files
#[derive(Debug, Copy, Clone, PartialEq, Eq, Structural)]
pub enum Version {
    FoxBase,
    DBase3 { supports_memo: bool },
    VisualFoxPro,
    DBase4 { supports_memo: bool },
    FoxPro2 { supports_memo: bool },
    Unknown(u8),
}

/// The version a header's first byte stands for.
pub open spec fn spec_version(b: u8) -> Version {
    if b == 0x02 {
        Version::FoxBase
    } else if b == 0x03 {
        Version::DBase3 { supports_memo: false }
    } else if b == 0x83 {
        Version::DBase3 { supports_memo: true }
    } else if b == 0x30 || b == 0x31 || b == 0x32 {
        Version::VisualFoxPro
    } else if b == 0x8b || b == 0xcb {
        Version::DBase4 { supports_memo: true }
    } else if b == 0x43 || b == 0x63 {
        Version::DBase4 { supports_memo: false }
    } else if b == 0xfb {
        Version::FoxPro2 { supports_memo: false }
    } else if b == 0xf5 {
        Version::FoxPro2 { supports_memo: true }
    } else {
        Version::Unknown(b)
    }
}

/// The byte a version is written as.
pub open spec fn spec_version_byte(v: Version) -> u8 {
    match v {
        Version::FoxBase => 0x02,
        Version::DBase3 { supports_memo } => if supports_memo { 0x83 } else { 0x03 },
        Version::VisualFoxPro => 0x30,
        Version::DBase4 { supports_memo } => if supports_memo { 0x8b } else { 0x43 },
        Version::FoxPro2 { supports_memo } => if supports_memo { 0xf5 } else { 0xfb },
        Version::Unknown(b) => b,
    }
}

/// A version that is read back as itself once written: every version
/// but `Unknown` of a byte that stands for a known version.
pub open spec fn version_is_canonical(v: Version) -> bool {
    match v {
        Version::Unknown(b) => spec_version(b) == Version::Unknown(b),
        _ => true,
    }
}

/// The byte of each version is read back as that version.
pub proof fn lemma_version_roundtrip(v: Version)
    requires
        version_is_canonical(v),
    ensures
        spec_version(spec_version_byte(v)) == v,
{
}

/// The memo file type that goes with a version, if any.
pub open spec fn spec_supported_memo_type(v: Version) -> Option<MemoFileType> {
    match v {
        Version::FoxBase => Some(MemoFileType::FoxBaseMemo),
        Version::DBase3 { supports_memo } => if supports_memo {
            Some(MemoFileType::DbaseMemo)
        } else {
            None
        },
        Version::VisualFoxPro => Some(MemoFileType::FoxBaseMemo),
        Version::DBase4 { supports_memo } => if supports_memo {
            Some(MemoFileType::DbaseMemo4)
        } else {
            None
        },
        Version::FoxPro2 { supports_memo } => if supports_memo {
            Some(MemoFileType::FoxBaseMemo)
        } else {
            None
        },
        Version::Unknown(_) => None,
    }
}

impl Version {
    /// The memo file type that goes with this version, if any.
    pub fn supported_memo_type(self) -> (r: Option<MemoFileType>)
        ensures
            r == spec_supported_memo_type(self),
    {
        match self {
            Version::FoxBase => Some(MemoFileType::FoxBaseMemo),
            Version::DBase3 { supports_memo: true } => Some(MemoFileType::DbaseMemo),
            Version::DBase3 { supports_memo: false } => None,
            Version::VisualFoxPro => Some(MemoFileType::FoxBaseMemo),
            Version::DBase4 { supports_memo: true } => Some(MemoFileType::DbaseMemo4),
            Version::DBase4 { supports_memo: false } => None,
            Version::FoxPro2 { supports_memo: false } => None,
            Version::FoxPro2 { supports_memo: true } => Some(MemoFileType::FoxBaseMemo),
            _ => None,
        }
    }

    /// Whether this is a Visual FoxPro file.
    pub fn is_visual_fox_pro(self) -> (r: bool)
        ensures
            r == (self == Version::VisualFoxPro),
    {
        matches!(self, Version::VisualFoxPro)
    }
}

impl From<Version> for u8 {
    fn from(v: Version) -> (r: u8) {
        match v {
            Version::FoxBase => 0x02,
            Version::DBase3 { supports_memo: false } => 0x03,
            Version::DBase3 { supports_memo: true } => 0x83,
            Version::VisualFoxPro => 0x30,
            Version::DBase4 { supports_memo: true } => 0x8b,
            Version::DBase4 { supports_memo: false } => 0x43,
            Version::FoxPro2 { supports_memo: false } => 0xfb,
            Version::FoxPro2 { supports_memo: true } => 0xf5,
            Version::Unknown(v) => v,
        }
    }
}

impl vstd::std_specs::convert::FromSpecImpl<Version> for u8 {
    open spec fn obeys_from_spec() -> bool {
        true
    }

    open spec fn from_spec(v: Version) -> u8 {
        spec_version_byte(v)
    }
}

impl From<u8> for Version {
    fn from(b: u8) -> (r: Self) {
        match b {
            0x02 => Version::FoxBase,
            0x03 => Version::DBase3 { supports_memo: false },
            0x83 => Version::DBase3 { supports_memo: true },
            // Each version has different feature (varchar / autoincrement)
            // but we don't support that for now
            0x30 | 0x31 | 0x32 => Version::VisualFoxPro,
            // Same here these different version num means that some features are different
            0x8b | 0xcb => Version::DBase4 { supports_memo: true },
            0x43 | 0x63 => Version::DBase4 { supports_memo: false },
            0xfb => Version::FoxPro2 { supports_memo: false },
            0xf5 => Version::FoxPro2 { supports_memo: true },
            b => Version::Unknown(b),
        }
    }
}

impl vstd::std_specs::convert::FromSpecImpl<u8> for Version {
    open spec fn obeys_from_spec() -> bool {
        true
    }

    open spec fn from_spec(b: u8) -> Version {
        spec_version(b)
    }
}

/// Table flags of the header (byte 28).
#[derive(Debug, Copy, Clone, PartialEq, Eq, Structural)]
pub struct TableFlags(pub u8);

impl TableFlags {
    /// Bit 0: the table has a structural .cdx index.
    pub fn has_structural_cdx(&self) -> (r: bool)
        ensures
            r == (self.0 % 2 == 1),
    {
        let b = self.0;
        assert((b & 0x01) == b % 2) by (bit_vector);
        (b & 0x01) == 1
    }

    /// Bit 1: the table has a memo field.
    pub fn has_memo_field(&self) -> (r: bool)
        ensures
            r == (self.0 / 2 % 2 == 1),
    {
        let b = self.0;
        assert((b & 0x02) == 2 <==> b / 2 % 2 == 1) by (bit_vector);
        (b & 0x02) == 2
    }

    /// Bits 0 and 1 are `1` and `0`: the table is a database.
    pub fn is_a_database(&self) -> (r: bool)
        ensures
            r == (self.0 % 4 == 1),
    {
        let b = self.0;
        assert((b & 0x03) == b % 4) by (bit_vector);
        (b & 0x03) == 1
    }
}

/// Size of the header, in bytes.
pub const HEADER_SIZE: usize = 32;

/// Definition of the header struct stored at the beginning
/// of each dBase file
#[derive(Debug, Copy, Clone, PartialEq, Eq, Structural)]
pub struct Header {
    pub file_type: Version,
    pub last_update: Date,
    pub num_records: u32,
    pub offset_to_first_record: u16,
    pub size_of_record: u16,
    pub is_transaction_incomplete: bool,
    pub encryption_flag: u8,
    pub table_flags: TableFlags,
    pub code_page_mark: CodePageMark,
}

/// The header that 32 bytes stand for.
pub open spec fn spec_parse_header(s: Seq<u8>) -> Header {
    Header {
        file_type: spec_version(s[0]),
        last_update: Date { year: (1900 + s[1]) as u32, month: s[2] as u32, day: s[3] as u32 },
        num_records: le32(s, 4) as u32,
        offset_to_first_record: le16(s, 8) as u16,
        size_of_record: le16(s, 10) as u16,
        is_transaction_incomplete: s[14] != 0,
        encryption_flag: s[15],
        table_flags: TableFlags(s[28]),
        code_page_mark: spec_code_page_mark(s[29]),
    }
}

/// Twelve zero bytes.
pub open spec fn zeros12() -> Seq<u8> {
    Seq::new(12, |i: int| 0u8)
}

/// The 32 bytes a header is written as. The reserved bytes are zero.
pub open spec fn spec_header_bytes(h: Header) -> Seq<u8> {
    seq![
        spec_version_byte(h.file_type),
        ((h.last_update.year - 1900) % 256) as u8,
        (h.last_update.month % 256) as u8,
        (h.last_update.day % 256) as u8,
    ] + le_bytes32(h.num_records as int) + le_bytes16(h.offset_to_first_record as int)
        + le_bytes16(h.size_of_record as int) + seq![0u8, 0u8]
        + seq![if h.is_transaction_incomplete { 1u8 } else { 0u8 }, h.encryption_flag] + zeros12()
        + seq![h.table_flags.0, spec_code_page_byte(h.code_page_mark), 0u8, 0u8]
}

/// A header that is read back as itself once written: its version and code
/// page mark are canonical and its date fits the three date bytes.
pub open spec fn header_is_canonical(h: Header) -> bool {
    &&& version_is_canonical(h.file_type)
    &&& h.code_page_mark != CodePageMark::Invalid
    &&& 1900 <= h.last_update.year <= 2155
    &&& h.last_update.month <= 255
    &&& h.last_update.day <= 255
}

/// The date of today, in UTC, as (year, month, day).
///
/// Calls `time::OffsetDateTime::now_utc` from the `time` crate; the month
/// and day of a `time::Date` are always those of a valid calendar date. What
/// the year is depends on the clock and is not stated.
#[verifier::external_body]
fn today_utc() -> (r: (i32, u8, u8))
    ensures
        1 <= r.1 <= 12,
        1 <= r.2 <= 31,
{
    let d = time::OffsetDateTime::now_utc().date();
    (d.year(), u8::from(d.month()), d.day())
}

impl Header {
    /// Size of the header, in bytes.
    pub const SIZE: usize = 32;

    /// A dBase III header (no memo) updated today, with the given counts.
    pub fn new(num_records: u32, offset: u16, size_of_records: u16) -> (h: Self)
        ensures
            h.file_type == (Version::DBase3 { supports_memo: false }),
            h.num_records == num_records,
            h.offset_to_first_record == offset,
            h.size_of_record == size_of_records,
            !h.is_transaction_incomplete,
            h.encryption_flag == 0,
            h.table_flags == TableFlags(0),
            h.code_page_mark == CodePageMark::Undefined,
            header_is_canonical(h),
    {
        let current_date = Self::get_today_date();
        Self {
            file_type: Version::DBase3 { supports_memo: false },
            last_update: current_date,
            num_records,
            offset_to_first_record: offset,
            size_of_record: size_of_records,
            is_transaction_incomplete: false,
            encryption_flag: 0,
            table_flags: TableFlags(0),
            code_page_mark: CodePageMark::Undefined,
        }
    }

    /// The date of today, as stored in a header (whose year is an offset
    /// from 1900 held in one byte).
    ///
    /// The header cannot hold a year outside 1900..=2155: for such a clock
    /// reading the earliest date it holds, 1900-01-01, is returned.
    pub fn get_today_date() -> (d: Date)
        ensures
            1900 <= d.year <= 2155,
            1 <= d.month <= 12,
            1 <= d.day <= 31,
    {
        let (year, month, day) = today_utc();
        if year < 1900 || year > 2155 {
            Date { year: 1900, month: 1, day: 1 }
        } else {
            Date { year: year as u32, month: month as u32, day: day as u32 }
        }
    }

    /// Sets the date of last update to today.
    pub fn update_date(&mut self)
        ensures
            *final(self) == (Header { last_update: final(self).last_update, ..*old(self) }),
            1900 <= final(self).last_update.year <= 2155,
            1 <= final(self).last_update.month <= 12,
            1 <= final(self).last_update.day <= 31,
    {
        self.last_update = Self::get_today_date();
    }

    /// Reads the header from the first 32 bytes of `source`.
    pub fn read_from(source: &[u8]) -> (r: Result<Self, ErrorKind>)
        ensures
            source@.len() < 32 ==> r == Err::<Header, ErrorKind>(ErrorKind::UnexpectedEof),
            source@.len() >= 32 ==> r == Ok::<Header, ErrorKind>(spec_parse_header(source@)),
    {
        if source.len() < Self::SIZE {
            return Err(ErrorKind::UnexpectedEof);
        }
        let file_type = Version::from(source[0]);
        let last_update = Date {
            year: 1900u32 + source[1] as u32,
            month: source[2] as u32,
            day: source[3] as u32,
        };
        let num_records = read_u32_le(source, 4);
        let offset_to_first_record = read_u16_le(source, 8);
        let size_of_record = read_u16_le(source, 10);
        let is_transaction_incomplete = source[14] != 0;
        let encryption_flag = source[15];
        let table_flags = TableFlags(source[28]);
        let code_page_mark = CodePageMark::from(source[29]);
        Ok(Self {
            file_type,
            last_update,
            num_records,
            offset_to_first_record,
            size_of_record,
            is_transaction_incomplete,
            encryption_flag,
            table_flags,
            code_page_mark,
        })
    }

    /// Appends the 32 bytes of the header to `dest`.
    pub fn write_to(&self, dest: &mut Vec<u8>)
        requires
            self.last_update.year >= 1900,
        ensures
            final(dest)@ == old(dest)@ + spec_header_bytes(*self),
    {
        let ghost start = dest@;
        dest.push(u8::from(self.file_type));
        dest.push(((self.last_update.year - 1900) % 256) as u8);
        dest.push((self.last_update.month % 256) as u8);
        dest.push((self.last_update.day % 256) as u8);
        push_u32_le(dest, self.num_records);
        push_u16_le(dest, self.offset_to_first_record);
        push_u16_le(dest, self.size_of_record);
        // Reserved
        push_u16_le(dest, 0);
        dest.push(if self.is_transaction_incomplete { 1u8 } else { 0u8 });
        dest.push(self.encryption_flag);
        let mut i: usize = 0;
        while i < 12
            invariant
                0 <= i <= 12,
                dest@ == start + seq![
                    spec_version_byte(self.file_type),
                    ((self.last_update.year - 1900) % 256) as u8,
                    (self.last_update.month % 256) as u8,
                    (self.last_update.day % 256) as u8,
                ] + le_bytes32(self.num_records as int) + le_bytes16(
                    self.offset_to_first_record as int,
                ) + le_bytes16(self.size_of_record as int) + le_bytes16(0)
                    + seq![if self.is_transaction_incomplete { 1u8 } else { 0u8 }, self.encryption_flag]
                    + Seq::new(i as nat, |k: int| 0u8),
            decreases 12 - i,
        {
            dest.push(0u8);
            proof {
                assert(Seq::new(i as nat, |k: int| 0u8).push(0u8) =~= Seq::new((i + 1) as nat, |k: int| 0u8));
            }
            i = i + 1;
        }
        dest.push(self.table_flags.0);
        dest.push(u8::from(self.code_page_mark));
        // Reserved
        dest.push(0u8);
        dest.push(0u8);
        assert(le_bytes16(0) =~= seq![0u8, 0u8]);
        assert(dest@ =~= start + spec_header_bytes(*self));
    }

    /// Position (in bytes, from the start of the file) of the record of index
    /// `index`, if the file has such a record.
    pub fn record_position(&self, index: usize) -> (r: Option<usize>)
        requires
            self.offset_to_first_record + index * self.size_of_record <= usize::MAX,
        ensures
            index >= self.num_records ==> r is None,
            index < self.num_records ==> r == Some(
                (self.offset_to_first_record + index * self.size_of_record) as usize,
            ),
    {
        if index >= self.num_records as usize {
            None
        } else {
            let offset = self.offset_to_first_record as usize + (index * self.size_of_record as usize);
            Some(offset)
        }
    }
}

/// Writing a canonical header and reading the 32 bytes back gives the same header.
pub proof fn lemma_header_write_read(h: Header)
    requires
        header_is_canonical(h),
    ensures
        spec_header_bytes(h).len() == 32,
        spec_parse_header(spec_header_bytes(h)) == h,
{
    let s = spec_header_bytes(h);
    assert(s.subrange(4, 8) =~= le_bytes32(h.num_records as int));
    assert(s.subrange(8, 10) =~= le_bytes16(h.offset_to_first_record as int));
    assert(s.subrange(10, 12) =~= le_bytes16(h.size_of_record as int));
    lemma_le32_roundtrip(h.num_records, s, 4);
    lemma_le16_roundtrip(h.offset_to_first_record, s, 8);
    lemma_le16_roundtrip(h.size_of_record, s, 10);
    lemma_version_roundtrip(h.file_type);
    lemma_code_page_mark_roundtrip(h.code_page_mark);
    let p = spec_parse_header(s);
    assert(p.last_update == h.last_update);
    assert(p == h);
}

/// 32 bytes that are written back as themselves once read: the reserved
/// bytes are zero, the version and code page bytes are the canonical ones of
/// what they stand for, and the transaction flag is 0 or 1.
pub open spec fn header_bytes_are_canonical(s: Seq<u8>) -> bool {
    &&& s.len() == 32
    &&& spec_version_byte(spec_version(s[0])) == s[0]
    &&& s[12] == 0 && s[13] == 0
    &&& (s[14] == 0 || s[14] == 1)
    &&& forall|i: int| 16 <= i < 28 ==> s[i] == 0
    &&& spec_code_page_byte(spec_code_page_mark(s[29])) == s[29]
    &&& s[30] == 0 && s[31] == 0
}

/// Reading canonical header bytes and writing the header gives the same bytes.
pub proof fn lemma_header_read_write(s: Seq<u8>)
    requires
        header_bytes_are_canonical(s),
    ensures
        spec_header_bytes(spec_parse_header(s)) == s,
{
    let h = spec_parse_header(s);
    lemma_le32_encode_decode(s, 4);
    lemma_le16_encode_decode(s, 8);
    lemma_le16_encode_decode(s, 10);
    let w = spec_header_bytes(h);
    assert(w.subrange(4, 8) =~= le_bytes32(h.num_records as int));
    assert(w.subrange(8, 10) =~= le_bytes16(h.offset_to_first_record as int));
    assert(w.subrange(10, 12) =~= le_bytes16(h.size_of_record as int));
    assert(s.subrange(4, 8) =~= w.subrange(4, 8));
    assert(s.subrange(8, 10) =~= w.subrange(8, 10));
    assert(s.subrange(10, 12) =~= w.subrange(10, 12));
    assert forall|i: int| 0 <= i < 32 implies w[i] == s[i] by {
        if 4 <= i < 8 {
            assert(w[i] == w.subrange(4, 8)[i - 4]);
            assert(s[i] == s.subrange(4, 8)[i - 4]);
        } else if 8 <= i < 10 {
            assert(w[i] == w.subrange(8, 10)[i - 8]);
            assert(s[i] == s.subrange(8, 10)[i - 8]);
        } else if 10 <= i < 12 {
            assert(w[i] == w.subrange(10, 12)[i - 10]);
            assert(s[i] == s.subrange(10, 12)[i - 10]);
        }
    }
    assert(w =~= s);
}

} // verus!
