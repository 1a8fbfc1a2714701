//! Memo files: the side files (.dbt / .fpt) holding the text of memo fields.

use crate::error::ErrorKind;
use crate::le::{be16, be32, le16, le32, read_u16_be, read_u16_le, read_u32_be, read_u32_le};
use vstd::prelude::*;

verus! {

/// The different types of Memo file structure there seem to exist
#[derive(Debug, PartialEq, Eq, Copy, Clone, Structural)]
pub enum MemoFileType {
    DbaseMemo,
    DbaseMemo4,
    FoxBaseMemo,
}

impl MemoFileType {
    /// Extension of the memo files of this type.
    pub fn extension(self) -> (r: &'static str)
        ensures
            r@ == (match self {
                MemoFileType::FoxBaseMemo => "fpt"@,
                _ => "dbt"@,
            }),
    {
        match self {
            MemoFileType::DbaseMemo | MemoFileType::DbaseMemo4 => "dbt",
            MemoFileType::FoxBaseMemo => "fpt",
        }
    }
}

/// Although there are different memo file type with each a different
/// header organisation, we use the same struct internally
#[derive(Debug, Copy, Clone, PartialEq, Eq, Structural)]
pub struct MemoHeader {
    pub next_available_block_index: u32,
    pub block_size: u32,
}

/// The header at the start of a memo file of the given type, if the file is
/// long enough to hold one.
pub open spec fn spec_memo_header(s: Seq<u8>, memo_type: MemoFileType) -> Option<MemoHeader> {
    match memo_type {
        MemoFileType::DbaseMemo | MemoFileType::DbaseMemo4 => if s.len() < 6 {
            None
        } else {
            Some(
                MemoHeader {
                    next_available_block_index: le32(s, 0) as u32,
                    block_size: if le16(s, 4) == 0 { 512 } else { le16(s, 4) as u32 },
                },
            )
        },
        MemoFileType::FoxBaseMemo => if s.len() < 8 {
            None
        } else {
            Some(
                MemoHeader {
                    next_available_block_index: le32(s, 0) as u32,
                    block_size: be16(s, 6) as u32,
                },
            )
        },
    }
}

impl MemoHeader {
    /// Reads the header at the start of a memo file of the given type.
    pub fn read_from(src: &[u8], memo_type: MemoFileType) -> (r: Result<Self, ErrorKind>)
        ensures
            r is Ok <==> spec_memo_header(src@, memo_type) is Some,
            r matches Ok(h) ==> spec_memo_header(src@, memo_type) == Some(h),
            r is Err ==> r matches Err(ErrorKind::UnexpectedEof),
    {
        if src.len() < 4 {
            return Err(ErrorKind::UnexpectedEof);
        }
        let next_available_block_index = read_u32_le(src, 0);
        let block_size = match memo_type {
            MemoFileType::DbaseMemo | MemoFileType::DbaseMemo4 => {
                if src.len() < 6 {
                    return Err(ErrorKind::UnexpectedEof);
                }
                match read_u16_le(src, 4) {
                    0 => 512,
                    v => v as u32,
                }
            },
            MemoFileType::FoxBaseMemo => {
                if src.len() < 8 {
                    return Err(ErrorKind::UnexpectedEof);
                }
                read_u16_be(src, 6) as u32
            },
        };
        Ok(Self { next_available_block_index, block_size })
    }
}

/// `b` without its trailing zero bytes.
pub open spec fn trim_trailing_zeros(b: Seq<u8>) -> Seq<u8>
    decreases b.len(),
{
    if b.len() == 0 {
        b
    } else if b.last() != 0 {
        b
    } else {
        trim_trailing_zeros(b.drop_last())
    }
}

/// Index of the first byte `x` in `b` at or after `i`, or the length of `b`.
pub open spec fn first_index_of(b: Seq<u8>, x: u8, i: int) -> int
    decreases b.len() - i,
{
    if i >= b.len() {
        b.len() as int
    } else if b[i] == x {
        i
    } else {
        first_index_of(b, x, i + 1)
    }
}

/// `b` up to (without) the first byte `x`, or all of `b`.
pub open spec fn until_byte(b: Seq<u8>, x: u8) -> Seq<u8> {
    b.subrange(0, first_index_of(b, x, 0))
}

/// Reads a memo file held in memory.
#[derive(Debug, Clone)]
pub struct MemoReader {
    pub memo_file_type: MemoFileType,
    pub header: MemoHeader,
    pub source: Vec<u8>,
}

/// The data of the memo block of index `index`, `None` where the memo file
/// is too short to hold it.
///
/// - FoxPro: a big endian type and length, then `length` bytes, whose trailing
///   zero bytes are dropped.
/// - dBase IV: a little endian type and length, then `length` bytes, cut at the
///   first 0x1F byte.
/// - dBase III: the block (or what of it the file holds), cut at the first
///   0x1A byte.
pub open spec fn spec_memo_data(
    memo_type: MemoFileType,
    header: MemoHeader,
    s: Seq<u8>,
    index: u32,
) -> Option<Seq<u8>> {
    let offset = index * header.block_size;
    match memo_type {
        MemoFileType::FoxBaseMemo => if offset + 8 > s.len() {
            None
        } else {
            let length = be32(s, offset + 4);
            if offset + 8 + length > s.len() {
                None
            } else {
                Some(trim_trailing_zeros(s.subrange(offset + 8, offset + 8 + length)))
            }
        },
        MemoFileType::DbaseMemo4 => if offset + 8 > s.len() {
            None
        } else {
            let length = le32(s, offset + 4);
            if offset + 8 + length > s.len() {
                None
            } else {
                Some(until_byte(s.subrange(offset + 8, offset + 8 + length), 0x1F))
            }
        },
        MemoFileType::DbaseMemo => if offset > s.len() {
            None
        } else {
            let end = if offset + header.block_size > s.len() {
                s.len() as int
            } else {
                offset + header.block_size
            };
            Some(until_byte(s.subrange(offset, end), 0x1A))
        },
    }
}

/// The bytes of `s` from `start` to `end`.
fn copy_range(s: &[u8], start: usize, end: usize) -> (r: Vec<u8>)
    requires
        start <= end <= s@.len(),
    ensures
        r@ == s@.subrange(start as int, end as int),
{
    let mut r: Vec<u8> = Vec::new();
    let mut i = start;
    while i < end
        invariant
            start <= i <= end <= s@.len(),
            r@ == s@.subrange(start as int, i as int),
        decreases end - i,
    {
        r.push(s[i]);
        assert(r@ =~= s@.subrange(start as int, i + 1));
        i = i + 1;
    }
    r
}

/// The bytes of `b` up to (without) the first byte `x`.
fn cut_at(b: Vec<u8>, x: u8) -> (r: Vec<u8>)
    ensures
        r@ == until_byte(b@, x),
{
    let mut i: usize = 0;
    while i < b.len() && b[i] != x
        invariant
            0 <= i <= b@.len(),
            first_index_of(b@, x, 0) == first_index_of(b@, x, i as int),
        decreases b@.len() - i,
    {
        i = i + 1;
    }
    assert(i == first_index_of(b@, x, i as int));
    copy_range(b.as_slice(), 0, i)
}

/// The bytes of `b` without its trailing zero bytes.
fn drop_trailing_zeros(b: Vec<u8>) -> (r: Vec<u8>)
    ensures
        r@ == trim_trailing_zeros(b@),
{
    let ghost initial = b@;
    let mut b = b;
    while b.len() > 0 && b[b.len() - 1] == 0
        invariant
            trim_trailing_zeros(b@) == trim_trailing_zeros(initial),
        decreases b@.len(),
    {
        let ghost before = b@;
        b.pop();
        assert(b@ =~= before.drop_last());
    }
    b
}

impl MemoReader {
    /// A reader of the memo file held in `src`, of the given type.
    pub fn new(memo_type: MemoFileType, src: Vec<u8>) -> (r: Result<Self, ErrorKind>)
        ensures
            r is Ok <==> spec_memo_header(src@, memo_type) is Some,
            r matches Ok(m) ==> m.memo_file_type == memo_type && Some(m.header) == spec_memo_header(
                src@,
                memo_type,
            ) && m.source@ == src@,
            r is Err ==> r matches Err(ErrorKind::UnexpectedEof),
    {
        let header = match MemoHeader::read_from(src.as_slice(), memo_type) {
            Ok(h) => h,
            Err(e) => return Err(e),
        };
        Ok(Self { memo_file_type: memo_type, header, source: src })
    }

    /// The data of the memo block of index `index`.
    pub fn read_data_at(&self, index: u32) -> (r: Result<Vec<u8>, ErrorKind>)
        ensures
            r is Ok <==> spec_memo_data(
                self.memo_file_type,
                self.header,
                self.source@,
                index,
            ) is Some,
            r matches Ok(d) ==> Some(d@) == spec_memo_data(
                self.memo_file_type,
                self.header,
                self.source@,
                index,
            ),
            r is Err ==> r matches Err(ErrorKind::UnexpectedEof),
    {
        let len = self.source.len();
        let bs = self.header.block_size;
        assert((index as int) * (bs as int) <= 0xffff_ffff * 0xffff_ffff) by (nonlinear_arith)
            requires
                index <= 0xffff_ffff,
                bs <= 0xffff_ffff,
        ;
        let offset: u64 = index as u64 * bs as u64;
        assert(offset == index * self.header.block_size);
        let s = self.source.as_slice();
        match self.memo_file_type {
            MemoFileType::FoxBaseMemo => {
                if offset + 8 > len as u64 {
                    return Err(ErrorKind::UnexpectedEof);
                }
                let o = offset as usize;
                let length = read_u32_be(s, o + 4);
                if (length as u64) > (len - (o + 8)) as u64 {
                    return Err(ErrorKind::UnexpectedEof);
                }
                let data = copy_range(s, o + 8, o + 8 + length as usize);
                Ok(drop_trailing_zeros(data))
            },
            MemoFileType::DbaseMemo4 => {
                if offset + 8 > len as u64 {
                    return Err(ErrorKind::UnexpectedEof);
                }
                let o = offset as usize;
                let length = read_u32_le(s, o + 4);
                if (length as u64) > (len - (o + 8)) as u64 {
                    return Err(ErrorKind::UnexpectedEof);
                }
                let data = copy_range(s, o + 8, o + 8 + length as usize);
                Ok(cut_at(data, 0x1F))
            },
            MemoFileType::DbaseMemo => {
                if offset > len as u64 {
                    return Err(ErrorKind::UnexpectedEof);
                }
                let o = offset as usize;
                let end = if (self.header.block_size as u64) > (len - o) as u64 {
                    len
                } else {
                    o + self.header.block_size as usize
                };
                let data = copy_range(s, o, end);
                Ok(cut_at(data, 0x1A))
            },
        }
    }
}

} // verus!
