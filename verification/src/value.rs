//! Field values: how each field type is read from, and written to, the
//! bytes of a record.

use crate::encoding::{first_zero_from, Encoding};
use crate::error::{DateParseError, ErrorKind, IntErrorKind, TimeError};
use crate::field::FieldInfo;
use crate::le::{
    le32, le64, le_bytes32, le_bytes64, push_i32_le, push_u64_le, read_i32_le, read_u32_le,
    read_u64_le, signed32, unsigned32,
};
use crate::types::spec_julian_day_number;
use crate::memo::{spec_memo_data, MemoReader};
use crate::types::{Date, DateTime, FieldType};
use vstd::prelude::*;

verus! {

/// How the spaces around the text of a character field are trimmed.
#[derive(Copy, Clone, Debug, PartialEq, Eq, Structural)]
pub enum TrimOption {
    Begin,
    End,
    BeginEnd,
}

/// Index of the first byte that is not a space in `b[i..z]`, or `z`.
pub open spec fn first_nonspace(b: Seq<u8>, i: int, z: int) -> int
    decreases z - i,
{
    if i >= z {
        z
    } else if b[i] != 32 {
        i
    } else {
        first_nonspace(b, i + 1, z)
    }
}

/// One past the index of the last byte that is not a space in `b[..j]`, or 0.
pub open spec fn end_nonspace(b: Seq<u8>, j: int) -> int
    decreases j,
{
    if j <= 0 {
        0
    } else if b[j - 1] != 32 {
        j
    } else {
        end_nonspace(b, j - 1)
    }
}

/// The data of a field without the spaces around it.
///
/// Only the bytes before the first zero byte count: when they are all
/// spaces the result is empty. Otherwise `Begin` drops the leading spaces
/// (and keeps everything after them), `End` keeps the bytes up to the last
/// one that is not a space, and `BeginEnd` does both.
pub open spec fn spec_trim_field_data(b: Seq<u8>, option: TrimOption) -> Seq<u8> {
    let z = first_zero_from(b, 0);
    let first = first_nonspace(b, 0, z);
    let end = end_nonspace(b, z);
    if first >= z {
        Seq::empty()
    } else {
        match option {
            TrimOption::Begin => b.subrange(first, b.len() as int),
            TrimOption::End => b.subrange(0, end),
            TrimOption::BeginEnd => b.subrange(first, end),
        }
    }
}

proof fn lemma_first_nonspace_bounds(b: Seq<u8>, i: int, z: int)
    requires
        0 <= i <= z <= b.len(),
    ensures
        i <= first_nonspace(b, i, z) <= z,
        first_nonspace(b, i, z) < z ==> b[first_nonspace(b, i, z)] != 32,
        forall|k: int| i <= k < first_nonspace(b, i, z) ==> b[k] == 32,
    decreases z - i,
{
    if i < z && b[i] == 32 {
        lemma_first_nonspace_bounds(b, i + 1, z);
    }
}

proof fn lemma_end_nonspace_bounds(b: Seq<u8>, j: int)
    requires
        0 <= j <= b.len(),
    ensures
        0 <= end_nonspace(b, j) <= j,
        end_nonspace(b, j) > 0 ==> b[end_nonspace(b, j) - 1] != 32,
        forall|k: int| end_nonspace(b, j) <= k < j ==> b[k] == 32,
    decreases j,
{
    if j > 0 && b[j - 1] == 32 {
        lemma_end_nonspace_bounds(b, j - 1);
    }
}

/// The first zero byte is within the bytes.
pub proof fn lemma_first_zero_bounds(b: Seq<u8>, i: int)
    requires
        0 <= i <= b.len(),
    ensures
        i <= first_zero_from(b, i) <= b.len(),
        first_zero_from(b, i) < b.len() ==> b[first_zero_from(b, i)] == 0,
        forall|k: int| i <= k < first_zero_from(b, i) ==> b[k] != 0,
    decreases b.len() - i,
{
    if i < b.len() && b[i] != 0 {
        lemma_first_zero_bounds(b, i + 1);
    }
}

/// Trimming a field keeps the bytes before its first zero byte, less the
/// spaces around them: with `z` the index of the first zero byte (or the
/// length), a field whose first `z` bytes are all spaces trims to nothing;
/// otherwise there are `i < j <= z` such that the bytes before `i` and
/// those from `j` to `z` are spaces, the bytes at `i` and `j - 1` are not,
/// and `BeginEnd` keeps the bytes from `i` to `j`, `Begin` those from `i`
/// on, `End` those before `j`.
pub proof fn lemma_trim_field_data_layout(b: Seq<u8>, z: int)
    requires
        0 <= z <= b.len(),
        forall|k: int| 0 <= k < z ==> b[k] != 0,
        z == b.len() || b[z] == 0,
    ensures
        (forall|k: int| 0 <= k < z ==> b[k] == 32) ==> spec_trim_field_data(b, TrimOption::BeginEnd).len() == 0
            && spec_trim_field_data(b, TrimOption::Begin).len() == 0
            && spec_trim_field_data(b, TrimOption::End).len() == 0,
        !(forall|k: int| 0 <= k < z ==> b[k] == 32) ==> exists|i: int, j: int|
            0 <= i < j <= z && b[i] != 32 && b[j - 1] != 32
            && (forall|k: int| 0 <= k < i ==> b[k] == 32)
            && (forall|k: int| j <= k < z ==> b[k] == 32)
            && spec_trim_field_data(b, TrimOption::BeginEnd) == #[trigger] b.subrange(i, j)
            && spec_trim_field_data(b, TrimOption::Begin) == b.subrange(i, b.len() as int)
            && spec_trim_field_data(b, TrimOption::End) == b.subrange(0, j),
{
    lemma_first_zero_bounds(b, 0);
    let z0 = first_zero_from(b, 0);
    if z0 < z {
        assert(b[z0] == 0);
    }
    if z < z0 {
        assert(b[z] != 0);
    }
    assert(z0 == z);
    lemma_first_nonspace_bounds(b, 0, z);
    lemma_end_nonspace_bounds(b, z);
    let i = first_nonspace(b, 0, z);
    let j = end_nonspace(b, z);
    if !(forall|k: int| 0 <= k < z ==> b[k] == 32) {
        assert(i < z);
        assert(i < j) by {
            if j <= i {
                assert(b[i] == 32);
            }
        }
        assert(spec_trim_field_data(b, TrimOption::BeginEnd) == b.subrange(i, j));
        assert(spec_trim_field_data(b, TrimOption::End) == b.subrange(0, j));
        assert(spec_trim_field_data(b, TrimOption::Begin) == b.subrange(i, b.len() as int));
        assert(b[j - 1] != 32);
    } else {
        if i < z {
            assert(b[i] == 32);
        }
    }
}

/// The data of a field without the spaces around it (see [`spec_trim_field_data`]).
pub fn trim_field_data(bytes: &[u8], option: TrimOption) -> (r: &[u8])
    ensures
        r@ == spec_trim_field_data(bytes@, option),
{
    let mut z: usize = 0;
    while z < bytes.len() && bytes[z] != 0
        invariant
            0 <= z <= bytes@.len(),
            first_zero_from(bytes@, 0) == first_zero_from(bytes@, z as int),
        decreases bytes@.len() - z,
    {
        z = z + 1;
    }
    assert(z == first_zero_from(bytes@, z as int));
    let mut first: usize = 0;
    while first < z && bytes[first] == 32
        invariant
            0 <= first <= z <= bytes@.len(),
            first_nonspace(bytes@, 0, z as int) == first_nonspace(bytes@, first as int, z as int),
        decreases z - first,
    {
        first = first + 1;
    }
    assert(first == first_nonspace(bytes@, first as int, z as int));
    if first >= z {
        return vstd::slice::slice_subrange(bytes, 0, 0);
    }
    let mut end: usize = z;
    while end > 0 && bytes[end - 1] == 32
        invariant
            0 <= end <= z <= bytes@.len(),
            end_nonspace(bytes@, z as int) == end_nonspace(bytes@, end as int),
        decreases end,
    {
        end = end - 1;
    }
    assert(end == end_nonspace(bytes@, end as int));
    proof {
        lemma_end_nonspace_bounds(bytes@, z as int);
        lemma_first_nonspace_bounds(bytes@, 0, z as int);
        assert(bytes@[first as int] != 32);
        assert(first < end);
    }
    match option {
        TrimOption::Begin => vstd::slice::slice_subrange(bytes, first, bytes.len()),
        TrimOption::End => vstd::slice::slice_subrange(bytes, 0, end),
        TrimOption::BeginEnd => vstd::slice::slice_subrange(bytes, first, end),
    }
}

/// Whether a byte is an ASCII decimal digit.
pub open spec fn is_digit(b: u8) -> bool {
    48 <= b <= 57
}

/// Reading the digits of `s` from `i` on, after the value `acc` of those
/// before, as `u32::from_str` does: the first byte that is not a digit is an
/// `InvalidDigit`, a value above `u32::MAX` is a `PosOverflow`.
pub open spec fn scan_u32(s: Seq<u8>, i: int, acc: int) -> Result<u32, IntErrorKind>
    decreases s.len() - i,
{
    if i >= s.len() {
        Ok(acc as u32)
    } else if !is_digit(s[i]) {
        Err(IntErrorKind::InvalidDigit)
    } else if acc * 10 + (s[i] - 48) > u32::MAX {
        Err(IntErrorKind::PosOverflow)
    } else {
        scan_u32(s, i + 1, acc * 10 + (s[i] - 48))
    }
}

/// What `u32::from_str` gives for the text `s`: an optional `+` and then at
/// least one decimal digit.
pub open spec fn spec_parse_u32(s: Seq<u8>) -> Result<u32, IntErrorKind> {
    if s.len() == 0 {
        Err(IntErrorKind::Empty)
    } else if s[0] == 43 {
        if s.len() == 1 {
            Err(IntErrorKind::InvalidDigit)
        } else {
            scan_u32(s, 1, 0)
        }
    } else {
        scan_u32(s, 0, 0)
    }
}

/// Reads a decimal `u32` as `u32::from_str` does (see [`spec_parse_u32`]).
pub fn parse_u32(s: &[u8]) -> (r: Result<u32, IntErrorKind>)
    ensures
        r == spec_parse_u32(s@),
{
    if s.len() == 0 {
        return Err(IntErrorKind::Empty);
    }
    let mut i: usize = 0;
    if s[0] == 43 {
        if s.len() == 1 {
            return Err(IntErrorKind::InvalidDigit);
        }
        i = 1;
    }
    let ghost start = i;
    let mut acc: u32 = 0;
    while i < s.len()
        invariant
            start <= i <= s@.len(),
            spec_parse_u32(s@) == scan_u32(s@, i as int, acc as int),
        decreases s@.len() - i,
    {
        let b = s[i];
        if b < 48 || b > 57 {
            return Err(IntErrorKind::InvalidDigit);
        }
        let d = (b - 48) as u32;
        if acc > (u32::MAX - d) / 10 {
            return Err(IntErrorKind::PosOverflow);
        }
        acc = acc * 10 + d;
        i = i + 1;
    }
    Ok(acc)
}

/// The text of a date read as `YYYYMMDD` (more bytes after the first 8 are
/// ignored); each part is read as `u32::from_str` does.
pub open spec fn spec_parse_date(s: Seq<u8>) -> Result<Date, DateParseError> {
    if s.len() < 8 {
        Err(DateParseError::TooShort)
    } else {
        match spec_parse_u32(s.subrange(0, 4)) {
            Err(e) => Err(DateParseError::InvalidFormat(e)),
            Ok(year) => match spec_parse_u32(s.subrange(4, 6)) {
                Err(e) => Err(DateParseError::InvalidFormat(e)),
                Ok(month) => match spec_parse_u32(s.subrange(6, 8)) {
                    Err(e) => Err(DateParseError::InvalidFormat(e)),
                    Ok(day) => Ok(Date { year, month, day }),
                },
            },
        }
    }
}

/// Reads the text of a date, `YYYYMMDD` (see [`spec_parse_date`]).
pub fn parse_date(s: &[u8]) -> (r: Result<Date, DateParseError>)
    ensures
        r == spec_parse_date(s@),
{
    if s.len() < 8 {
        return Err(DateParseError::TooShort);
    }
    let year = match parse_u32(vstd::slice::slice_subrange(s, 0, 4)) {
        Ok(v) => v,
        Err(e) => return Err(DateParseError::InvalidFormat(e)),
    };
    let month = match parse_u32(vstd::slice::slice_subrange(s, 4, 6)) {
        Ok(v) => v,
        Err(e) => return Err(DateParseError::InvalidFormat(e)),
    };
    let day = match parse_u32(vstd::slice::slice_subrange(s, 6, 8)) {
        Ok(v) => v,
        Err(e) => return Err(DateParseError::InvalidFormat(e)),
    };
    Ok(Date { year, month, day })
}

/// The decimal digits of `n`, most significant first, without leading zeros.
pub open spec fn decimal_digits(n: nat) -> Seq<u8>
    decreases n,
{
    if n < 10 {
        seq![(48 + n) as u8]
    } else {
        decimal_digits(n / 10).push((48 + n % 10) as u8)
    }
}

/// The decimal digits of `n`, left padded with zeros to `width` digits.
pub open spec fn padded_decimal(n: nat, width: nat) -> Seq<u8> {
    let d = decimal_digits(n);
    if d.len() >= width {
        d
    } else {
        Seq::new((width - d.len()) as nat, |i: int| 48u8) + d
    }
}

/// The text of a date: `{:04}{:02}{:02}` of its year, month and day.
pub open spec fn spec_date_text(d: Date) -> Seq<u8> {
    padded_decimal(d.year as nat, 4) + padded_decimal(d.month as nat, 2) + padded_decimal(
        d.day as nat,
        2,
    )
}

proof fn lemma_decimal_digits_len(n: nat)
    ensures
        1 <= decimal_digits(n).len(),
        forall|i: int| 0 <= i < decimal_digits(n).len() ==> is_digit(#[trigger] decimal_digits(n)[i]),
    decreases n,
{
    if n >= 10 {
        lemma_decimal_digits_len(n / 10);
    }
}

/// Appends the decimal digits of `n`, most significant first.
fn push_decimal(dest: &mut Vec<u8>, n: u32)
    ensures
        final(dest)@ == old(dest)@ + decimal_digits(n as nat),
    decreases n,
{
    if n >= 10 {
        push_decimal(dest, n / 10);
        dest.push((48 + n % 10) as u8);
    } else {
        dest.push((48 + n) as u8);
    }
}

/// Appends the decimal digits of `n`, left padded with zeros to `width` digits.
pub fn push_padded_decimal(dest: &mut Vec<u8>, n: u32, width: usize)
    ensures
        final(dest)@ == old(dest)@ + padded_decimal(n as nat, width as nat),
{
    let mut digits: Vec<u8> = Vec::new();
    push_decimal(&mut digits, n);
    assert(digits@ =~= decimal_digits(n as nat));
    let ghost start = dest@;
    if digits.len() < width {
        let pad = width - digits.len();
        let mut i: usize = 0;
        while i < pad
            invariant
                0 <= i <= pad,
                dest@ == start + Seq::new(i as nat, |k: int| 48u8),
            decreases pad - i,
        {
            dest.push(48u8);
            assert(Seq::new(i as nat, |k: int| 48u8).push(48u8) =~= Seq::new((i + 1) as nat, |k: int| 48u8));
            i = i + 1;
        }
    }
    let ghost mid = dest@;
    let mut j: usize = 0;
    while j < digits.len()
        invariant
            0 <= j <= digits@.len(),
            dest@ == mid + digits@.subrange(0, j as int),
        decreases digits@.len() - j,
    {
        dest.push(digits[j]);
        assert(digits@.subrange(0, j + 1) =~= digits@.subrange(0, j as int).push(digits@[j as int]));
        j = j + 1;
    }
    assert(digits@.subrange(0, digits@.len() as int) =~= digits@);
    assert(dest@ =~= start + padded_decimal(n as nat, width as nat));
}

impl Date {
    /// Appends the text of the date, `YYYYMMDD` (see [`spec_date_text`]).
    pub fn write_text(&self, dest: &mut Vec<u8>)
        ensures
            final(dest)@ == old(dest)@ + spec_date_text(*self),
    {
        push_padded_decimal(dest, self.year, 4);
        push_padded_decimal(dest, self.month, 2);
        push_padded_decimal(dest, self.day, 2);
        assert(dest@ =~= old(dest)@ + spec_date_text(*self));
    }

    /// The date of the text `YYYYMMDD` (see [`spec_parse_date`]).
    pub fn from_str(s: &str) -> (r: Result<Date, DateParseError>)
        ensures
            r == spec_parse_date(vstd::utf8::encode_utf8(s@)),
    {
        let bytes = crate::encoding::utf8_bytes(s);
        parse_date(bytes.as_slice())
    }
}

/// Enum where each variant stores the record value
///
/// The numbers stored as text (`Numeric`, `Float`) hold that text, trimmed;
/// the 8 byte floating point numbers (`Currency`, `Double`) hold the bits of
/// their IEEE 754 value.
#[derive(Debug, Clone, PartialEq)]
pub enum FieldValue {
    // dBase III fields
    // Stored as strings, fully padded (ie only space char) strings
    // are interpreted as None
    /// dBase String type
    ///
    /// A string full of 'pad bytes' is considered `None`
    Character(Option<String>),
    /// dBase type to represent numbers, stored as String in the file
    Numeric(Option<String>),
    /// dBase type for boolean values, stored as a character in the file
    Logical(Option<bool>),
    /// dBase type for dates, stored as a string in the file
    Date(Option<Date>),
    /// Another dBase type to represent numbers, stored as String in the file
    Float(Option<String>),
    //Visual FoxPro fields
    Integer(i32),
    Currency(u64),
    DateTime(DateTime),
    Double(u64),
    /// Memo is a dBase type that allows to store Strings
    /// that are longer than 255 bytes.
    /// These strings are stored in an external file
    /// called the `Memo file`
    Memo(String),
}

/// A field value, its strings taken as character sequences.
pub ghost enum ValueModel {
    Character(Option<Seq<char>>),
    Numeric(Option<Seq<char>>),
    Logical(Option<bool>),
    Date(Option<Date>),
    Float(Option<Seq<char>>),
    Integer(i32),
    Currency(u64),
    DateTime(DateTime),
    Double(u64),
    Memo(Seq<char>),
}

/// The character sequence of an optional string.
pub open spec fn opt_chars(s: Option<String>) -> Option<Seq<char>> {
    match s {
        Some(s) => Some(s@),
        None => None,
    }
}

impl View for FieldValue {
    type V = ValueModel;

    open spec fn view(&self) -> ValueModel {
        match self {
            FieldValue::Character(s) => ValueModel::Character(opt_chars(*s)),
            FieldValue::Numeric(s) => ValueModel::Numeric(opt_chars(*s)),
            FieldValue::Logical(b) => ValueModel::Logical(*b),
            FieldValue::Date(d) => ValueModel::Date(*d),
            FieldValue::Float(s) => ValueModel::Float(opt_chars(*s)),
            FieldValue::Integer(i) => ValueModel::Integer(*i),
            FieldValue::Currency(c) => ValueModel::Currency(*c),
            FieldValue::DateTime(dt) => ValueModel::DateTime(*dt),
            FieldValue::Double(d) => ValueModel::Double(*d),
            FieldValue::Memo(s) => ValueModel::Memo(s@),
        }
    }
}

/// The field type of a field value.
pub open spec fn spec_value_type(v: ValueModel) -> FieldType {
    match v {
        ValueModel::Character(_) => FieldType::Character,
        ValueModel::Numeric(_) => FieldType::Numeric,
        ValueModel::Logical(_) => FieldType::Logical,
        ValueModel::Date(_) => FieldType::Date,
        ValueModel::Float(_) => FieldType::Float,
        ValueModel::Integer(_) => FieldType::Integer,
        ValueModel::Currency(_) => FieldType::Currency,
        ValueModel::DateTime(_) => FieldType::DateTime,
        ValueModel::Double(_) => FieldType::Double,
        ValueModel::Memo(_) => FieldType::Memo,
    }
}

/// Why a field could not be read.
pub ghost enum ReadFailure {
    UnexpectedEof,
    Decode,
    ParseInt(IntErrorKind),
    ParseFloat,
    Date(DateParseError),
    Time(TimeError),
    MissingMemoFile,
    Other,
}

/// The failure an error stands for.
pub open spec fn failure_of(e: ErrorKind) -> ReadFailure {
    match e {
        ErrorKind::UnexpectedEof => ReadFailure::UnexpectedEof,
        ErrorKind::StringDecodeError(_) => ReadFailure::Decode,
        ErrorKind::ParseIntError(k) => ReadFailure::ParseInt(k),
        ErrorKind::ParseFloatError => ReadFailure::ParseFloat,
        ErrorKind::InvalidDate(d) => ReadFailure::Date(d),
        ErrorKind::InvalidTime(t) => ReadFailure::Time(t),
        ErrorKind::MissingMemoFile => ReadFailure::MissingMemoFile,
        _ => ReadFailure::Other,
    }
}

/// The value of a logical field: a space or `?` is no value, `1 0 T t Y y`
/// are true, `N n F f` are false, any other byte is no value.
pub open spec fn spec_logical(b: Seq<u8>) -> Option<bool> {
    if b.len() == 0 {
        None
    } else {
        let c = b[0];
        if c == 32 || c == 63 {
            None
        } else if c == 49 || c == 48 || c == 84 || c == 116 || c == 89 || c == 121 {
            Some(true)
        } else if c == 78 || c == 110 || c == 70 || c == 102 {
            Some(false)
        } else {
            None
        }
    }
}

/// Whether every byte is a `*` (the filler of an overflowed number).
pub open spec fn all_stars(b: Seq<u8>) -> bool {
    forall|i: int| 0 <= i < b.len() ==> b[i] == 42
}

/// The text of a numeric or float field: `None` when the trimmed data is
/// empty or all `*`, the decoded text otherwise.
pub open spec fn spec_number_text<E: Encoding>(enc: E, b: Seq<u8>) -> Result<Option<Seq<char>>, ReadFailure> {
    let v = spec_trim_field_data(b, TrimOption::BeginEnd);
    if v.len() == 0 || all_stars(v) {
        Ok(None)
    } else {
        match enc.spec_decode(v) {
            None => Err(ReadFailure::Decode),
            Some(text) => if is_float_text(text) {
                Ok(Some(text))
            } else {
                Err(ReadFailure::ParseFloat)
            },
        }
    }
}

/// The ASCII lower case of a character; other characters stay.
pub open spec fn ascii_lower(c: char) -> char {
    if 'A' <= c && c <= 'Z' {
        ((c as u8) + 32) as u8 as char
    } else {
        c
    }
}

/// The first index at or after `i` whose character is not a decimal digit,
/// or the length.
pub open spec fn digits_end(s: Seq<char>, i: int) -> int
    decreases s.len() - i,
{
    if i < 0 || i >= s.len() || !('0' <= s[i] && s[i] <= '9') {
        i
    } else {
        digits_end(s, i + 1)
    }
}

/// Whether lower-case characters are a decimal number: digits with at most
/// one `.` (and a digit on at least one side of it), then possibly `e`, a
/// sign and digits.
pub open spec fn is_decimal_number(l: Seq<char>) -> bool {
    let d1 = digits_end(l, 0);
    let (mantissa, rest) = if d1 < l.len() && l[d1] == '.' {
        let d2 = digits_end(l, d1 + 1);
        (d1 > 0 || d2 > d1 + 1, d2)
    } else {
        (d1 > 0, d1)
    };
    mantissa && (rest == l.len() || (l[rest] == 'e' && {
        let p = if rest + 1 < l.len() && (l[rest + 1] == '+' || l[rest + 1] == '-') {
            rest + 2
        } else {
            rest + 1
        };
        let d3 = digits_end(l, p);
        d3 > p && d3 == l.len()
    }))
}

/// Whether a text is a floating point number as `f64::from_str` (std)
/// documents its syntax: once in lower case, an optional sign, then `inf`,
/// `infinity`, `nan` or a decimal number.
pub open spec fn is_float_text(t: Seq<char>) -> bool {
    let s = if t.len() > 0 && (t[0] == '+' || t[0] == '-') {
        t.subrange(1, t.len() as int)
    } else {
        t
    };
    let l = s.map_values(|c: char| ascii_lower(c));
    l == "inf"@ || l == "infinity"@ || l == "nan"@ || is_decimal_number(l)
}

/// Whether every character is a decimal digit.
pub open spec fn all_digit_chars(d: Seq<char>) -> bool {
    forall|i: int| 0 <= i < d.len() ==> '0' <= #[trigger] d[i] && d[i] <= '9'
}

proof fn lemma_digits_end_run(s: Seq<char>, i: int, j: int)
    requires
        0 <= i <= j <= s.len(),
        forall|k: int| i <= k < j ==> '0' <= #[trigger] s[k] && s[k] <= '9',
        j == s.len() || !('0' <= s[j] && s[j] <= '9'),
    ensures
        digits_end(s, i) == j,
    decreases j - i,
{
    if i < j {
        lemma_digits_end_run(s, i + 1, j);
    }
}

proof fn lemma_lower_digits(t: Seq<char>)
    requires
        forall|i: int| 0 <= i < t.len() ==> ('0' <= #[trigger] t[i] && t[i] <= '9') || t[i] == '.',
    ensures
        t.map_values(|c: char| ascii_lower(c)) == t,
{
    assert(t.map_values(|c: char| ascii_lower(c)) =~= t);
}

/// Numbers as fields hold them are number texts: digits, with an optional
/// sign in front and an optional `.` followed by more digits (a digit on
/// at least one side of the `.`). A decimal comma makes no number.
pub proof fn lemma_number_texts(a: Seq<char>, b: Seq<char>)
    requires
        all_digit_chars(a),
        all_digit_chars(b),
    ensures
        a.len() > 0 ==> is_float_text(a) && is_float_text(seq!['-'] + a) && is_float_text(seq!['+'] + a),
        a.len() + b.len() > 0 ==> is_float_text(a + seq!['.'] + b) && is_float_text(seq!['-'] + a + seq!['.'] + b),
        (a.len() > 0 && b.len() > 0) ==> !is_float_text(a + seq![','] + b),
{
    let t = a + seq!['.'] + b;
    assert forall|i: int| 0 <= i < t.len() implies ('0' <= #[trigger] t[i] && t[i] <= '9') || t[i] == '.' by {
        if i < a.len() {
            assert(t[i] == a[i]);
        } else if i > a.len() {
            assert(t[i] == b[i - a.len() - 1]);
        }
    }
    lemma_lower_digits(t);
    lemma_lower_digits(a);
    lemma_digits_end_run(a, 0, a.len() as int);
    lemma_digits_end_run(t, 0, a.len() as int);
    lemma_digits_end_run(t, a.len() as int + 1, t.len() as int);
    if a.len() > 0 {
        assert((seq!['-'] + a).subrange(1, a.len() as int + 1) =~= a);
        assert((seq!['+'] + a).subrange(1, a.len() as int + 1) =~= a);
        assert(is_decimal_number(a));
    }
    if a.len() + b.len() > 0 {
        assert((seq!['-'] + a + seq!['.'] + b).subrange(1, t.len() as int + 1) =~= t);
        assert(is_decimal_number(t));
    }
    if a.len() > 0 && b.len() > 0 {
        let u = a + seq![','] + b;
        assert(u[0] == a[0]);
        let l = u.map_values(|c: char| ascii_lower(c));
        assert(l.len() == u.len());
        assert forall|k: int| 0 <= k < a.len() implies '0' <= #[trigger] l[k] && l[k] <= '9' by {
            assert(u[k] == a[k]);
        }
        assert(l[a.len() as int] == ',') by {
            assert(u[a.len() as int] == ',');
        }
        lemma_digits_end_run(l, 0, a.len() as int);
        assert(l[0] == a[0]);
        reveal_strlit("inf");
        reveal_strlit("infinity");
        reveal_strlit("nan");
        assert(l != "inf"@ && l != "infinity"@ && l != "nan"@) by {
            assert("inf"@[0] == 'i' && "infinity"@[0] == 'i' && "nan"@[0] == 'n');
        }
    }
}

fn digits_end_of(l: &Vec<char>, i: usize) -> (r: usize)
    requires
        i <= l@.len(),
    ensures
        r == digits_end(l@, i as int),
        i <= r <= l@.len(),
{
    let mut j = i;
    while j < l.len() && '0' <= l[j] && l[j] <= '9'
        invariant
            i <= j <= l@.len(),
            digits_end(l@, j as int) == digits_end(l@, i as int),
        decreases l@.len() - j,
    {
        j = j + 1;
    }
    j
}

/// Whether a text is a floating point number (see [`is_float_text`]).
pub fn float_text_ok(t: &str) -> (r: bool)
    ensures
        r == is_float_text(t@),
{
    let chars = crate::whatwg::str_chars(t);
    let n = chars.len();
    let start: usize = if n > 0 && (chars[0] == '+' || chars[0] == '-') { 1 } else { 0 };
    let ghost s = if t@.len() > 0 && (t@[0] == '+' || t@[0] == '-') {
        t@.subrange(1, t@.len() as int)
    } else {
        t@
    };
    let mut l: Vec<char> = Vec::new();
    let mut i: usize = start;
    while i < n
        invariant
            n == chars@.len(),
            chars@ == t@,
            start <= i <= n,
            s == t@.subrange(start as int, n as int),
            l@ == s.subrange(0, i - start).map_values(|c: char| ascii_lower(c)),
        decreases n - i,
    {
        let c = chars[i];
        let lc = if 'A' <= c && c <= 'Z' { ((c as u8) + 32) as char } else { c };
        l.push(lc);
        assert(l@ =~= s.subrange(0, i + 1 - start).map_values(|c: char| ascii_lower(c)));
        i = i + 1;
    }
    assert(l@ =~= s.map_values(|c: char| ascii_lower(c)));
    if crate::whatwg::chars_eq(&l, "inf") || crate::whatwg::chars_eq(&l, "infinity")
        || crate::whatwg::chars_eq(&l, "nan") {
        return true;
    }
    let m = l.len();
    let d1 = digits_end_of(&l, 0);
    let mantissa: bool;
    let rest: usize;
    if d1 < m && l[d1] == '.' {
        let d2 = digits_end_of(&l, d1 + 1);
        mantissa = d1 > 0 || d2 > d1 + 1;
        rest = d2;
    } else {
        mantissa = d1 > 0;
        rest = d1;
    }
    if !mantissa {
        return false;
    }
    if rest == m {
        return true;
    }
    if l[rest] != 'e' {
        return false;
    }
    let p: usize = if rest + 1 < m && (l[rest + 1] == '+' || l[rest + 1] == '-') { rest + 2 } else { rest + 1 };
    let d3 = digits_end_of(&l, p);
    d3 > p && d3 == m
}

/// The memo index of a memo field: its trimmed text read as a decimal
/// number when the field is longer than 4 bytes (`None` for an empty
/// text), its 4 bytes read as a little endian number otherwise.
pub open spec fn spec_memo_index<E: Encoding>(enc: E, b: Seq<u8>, field_length: u8) -> Result<Option<u32>, ReadFailure> {
    if field_length > 4 {
        let v = spec_trim_field_data(b, TrimOption::End);
        if v.len() == 0 {
            Ok(None)
        } else {
            match enc.spec_decode(v) {
                None => Err(ReadFailure::Decode),
                Some(text) => match spec_parse_u32(vstd::utf8::encode_utf8(text)) {
                    Err(k) => Err(ReadFailure::ParseInt(k)),
                    Ok(i) => Ok(Some(i)),
                },
            }
        }
    } else if b.len() < 4 {
        Err(ReadFailure::UnexpectedEof)
    } else {
        Ok(Some(le32(b, 0) as u32))
    }
}

/// The value stored in the bytes `b` of a field of the given type and length.
pub open spec fn spec_read_field<E: Encoding>(
    enc: E,
    b: Seq<u8>,
    field_type: FieldType,
    field_length: u8,
    trim: TrimOption,
    memo: Option<MemoReader>,
) -> Result<ValueModel, ReadFailure> {
    match field_type {
        FieldType::Logical => Ok(ValueModel::Logical(spec_logical(b))),
        FieldType::Character => {
            let v = spec_trim_field_data(b, trim);
            if v.len() == 0 {
                Ok(ValueModel::Character(None))
            } else {
                match enc.spec_decode(v) {
                    None => Err(ReadFailure::Decode),
                    Some(text) => Ok(ValueModel::Character(Some(text))),
                }
            }
        },
        FieldType::Numeric => match spec_number_text(enc, b) {
            Ok(t) => Ok(ValueModel::Numeric(t)),
            Err(f) => Err(f),
        },
        FieldType::Float => match spec_number_text(enc, b) {
            Ok(t) => Ok(ValueModel::Float(t)),
            Err(f) => Err(f),
        },
        FieldType::Date => {
            let v = spec_trim_field_data(b, TrimOption::BeginEnd);
            if v.len() == 0 {
                Ok(ValueModel::Date(None))
            } else {
                match enc.spec_decode(v) {
                    None => Err(ReadFailure::Decode),
                    Some(text) => match spec_parse_date(vstd::utf8::encode_utf8(text)) {
                        Ok(d) => Ok(ValueModel::Date(Some(d))),
                        Err(e) => Err(ReadFailure::Date(e)),
                    },
                }
            }
        },
        FieldType::Integer => if b.len() < 4 {
            Err(ReadFailure::UnexpectedEof)
        } else {
            Ok(ValueModel::Integer(signed32(le32(b, 0)) as i32))
        },
        FieldType::Double => if b.len() < 8 {
            Err(ReadFailure::UnexpectedEof)
        } else {
            Ok(ValueModel::Double(le64(b, 0) as u64))
        },
        FieldType::Currency => if b.len() < 8 {
            Err(ReadFailure::UnexpectedEof)
        } else {
            Ok(ValueModel::Currency(le64(b, 0) as u64))
        },
        FieldType::DateTime => if b.len() < 8 {
            Err(ReadFailure::UnexpectedEof)
        } else {
            match DateTime::spec_from_words(signed32(le32(b, 0)), signed32(le32(b, 4))) {
                Ok(dt) => Ok(ValueModel::DateTime(dt)),
                Err(e) => Err(failure_of(e)),
            }
        },
        FieldType::Memo => match spec_memo_index(enc, b, field_length) {
            Err(f) => Err(f),
            Ok(None) => Ok(ValueModel::Memo(Seq::empty())),
            Ok(Some(index)) => match memo {
                None => Err(ReadFailure::MissingMemoFile),
                Some(m) => match spec_memo_data(m.memo_file_type, m.header, m.source@, index) {
                    None => Err(ReadFailure::UnexpectedEof),
                    Some(data) => match enc.spec_decode(data) {
                        None => Err(ReadFailure::Decode),
                        Some(text) => Ok(ValueModel::Memo(text)),
                    },
                },
            },
        },
    }
}

/// The text of a numeric or float field (see [`spec_number_text`]).
fn read_number_text<E: Encoding>(field_bytes: &[u8], encoding: &E) -> (r: Result<Option<String>, ErrorKind>)
    ensures
        r matches Ok(t) ==> spec_number_text(*encoding, field_bytes@) == Ok::<Option<Seq<char>>, ReadFailure>(opt_chars(t)),
        r matches Err(e) ==> spec_number_text(*encoding, field_bytes@) == Err::<Option<Seq<char>>, ReadFailure>(failure_of(e)),
{
    let value = trim_field_data(field_bytes, TrimOption::BeginEnd);
    let mut all_star = true;
    let mut i: usize = 0;
    while i < value.len()
        invariant
            0 <= i <= value@.len(),
            all_star == (forall|k: int| 0 <= k < i ==> value@[k] == 42),
        decreases value@.len() - i,
    {
        if value[i] != 42 {
            all_star = false;
        }
        i = i + 1;
    }
    if value.len() == 0 || all_star {
        Ok(None)
    } else {
        match encoding.decode(value) {
            Ok(text) => if float_text_ok(text.as_str()) {
                Ok(Some(text))
            } else {
                Err(ErrorKind::ParseFloatError)
            },
            Err(e) => Err(ErrorKind::StringDecodeError(e)),
        }
    }
}

/// The memo index of a memo field (see [`spec_memo_index`]).
fn read_memo_index<E: Encoding>(field_bytes: &[u8], field_length: u8, encoding: &E) -> (r: Result<Option<u32>, ErrorKind>)
    ensures
        r matches Ok(i) ==> spec_memo_index(*encoding, field_bytes@, field_length) == Ok::<Option<u32>, ReadFailure>(i),
        r matches Err(e) ==> spec_memo_index(*encoding, field_bytes@, field_length) == Err::<Option<u32>, ReadFailure>(failure_of(e)),
{
    if field_length > 4 {
        let trimmed = trim_field_data(field_bytes, TrimOption::End);
        if trimmed.len() == 0 {
            Ok(None)
        } else {
            let text = match encoding.decode(trimmed) {
                Ok(t) => t,
                Err(e) => return Err(ErrorKind::StringDecodeError(e)),
            };
            let bytes = crate::encoding::utf8_bytes(text.as_str());
            match parse_u32(bytes.as_slice()) {
                Ok(i) => Ok(Some(i)),
                Err(k) => Err(ErrorKind::ParseIntError(k)),
            }
        }
    } else if field_bytes.len() < 4 {
        Err(ErrorKind::UnexpectedEof)
    } else {
        Ok(Some(read_u32_le(field_bytes, 0)))
    }
}

impl FieldValue {
    /// Reads the value of a field from its bytes.
    ///
    /// `field_bytes` are the bytes of the field in the record; the memo
    /// reader is needed for memo fields.
    pub fn read_from<E: Encoding>(
        field_bytes: &[u8],
        memo_reader: &Option<MemoReader>,
        field_info: &FieldInfo,
        encoding: &E,
        character_option: TrimOption,
    ) -> (r: Result<Self, ErrorKind>)
        ensures
            r matches Ok(v) ==> spec_read_field(
                *encoding,
                field_bytes@,
                field_info.field_type,
                field_info.field_length,
                character_option,
                *memo_reader,
            ) == Ok::<ValueModel, ReadFailure>(v@),
            r matches Err(e) ==> spec_read_field(
                *encoding,
                field_bytes@,
                field_info.field_type,
                field_info.field_length,
                character_option,
                *memo_reader,
            ) == Err::<ValueModel, ReadFailure>(failure_of(e)),
    {
        match field_info.field_type {
            FieldType::Logical => {
                if field_bytes.len() == 0 {
                    return Ok(FieldValue::Logical(None));
                }
                let c = field_bytes[0];
                let v = if c == 32 || c == 63 {
                    None
                } else if c == 49 || c == 48 || c == 84 || c == 116 || c == 89 || c == 121 {
                    Some(true)
                } else if c == 78 || c == 110 || c == 70 || c == 102 {
                    Some(false)
                } else {
                    None
                };
                Ok(FieldValue::Logical(v))
            },
            FieldType::Character => {
                let value = trim_field_data(field_bytes, character_option);
                if value.len() == 0 {
                    Ok(FieldValue::Character(None))
                } else {
                    match encoding.decode(value) {
                        Ok(text) => Ok(FieldValue::Character(Some(text))),
                        Err(e) => Err(ErrorKind::StringDecodeError(e)),
                    }
                }
            },
            FieldType::Numeric => match read_number_text(field_bytes, encoding) {
                Ok(t) => Ok(FieldValue::Numeric(t)),
                Err(e) => Err(e),
            },
            FieldType::Float => match read_number_text(field_bytes, encoding) {
                Ok(t) => Ok(FieldValue::Float(t)),
                Err(e) => Err(e),
            },
            FieldType::Date => {
                let value = trim_field_data(field_bytes, TrimOption::BeginEnd);
                if value.len() == 0 {
                    Ok(FieldValue::Date(None))
                } else {
                    let text = match encoding.decode(value) {
                        Ok(t) => t,
                        Err(e) => return Err(ErrorKind::StringDecodeError(e)),
                    };
                    match Date::from_str(text.as_str()) {
                        Ok(d) => Ok(FieldValue::Date(Some(d))),
                        Err(e) => Err(ErrorKind::InvalidDate(e)),
                    }
                }
            },
            FieldType::Integer => {
                if field_bytes.len() < 4 {
                    return Err(ErrorKind::UnexpectedEof);
                }
                Ok(FieldValue::Integer(read_i32_le(field_bytes, 0)))
            },
            FieldType::Double => {
                if field_bytes.len() < 8 {
                    return Err(ErrorKind::UnexpectedEof);
                }
                Ok(FieldValue::Double(read_u64_le(field_bytes, 0)))
            },
            FieldType::Currency => {
                if field_bytes.len() < 8 {
                    return Err(ErrorKind::UnexpectedEof);
                }
                Ok(FieldValue::Currency(read_u64_le(field_bytes, 0)))
            },
            FieldType::DateTime => match DateTime::read_from(field_bytes, 0) {
                Ok(dt) => Ok(FieldValue::DateTime(dt)),
                Err(e) => Err(e),
            },
            FieldType::Memo => {
                let index = match read_memo_index(field_bytes, field_info.field_length, encoding) {
                    Ok(Some(i)) => i,
                    Ok(None) => return Ok(FieldValue::Memo(String::new())),
                    Err(e) => return Err(e),
                };
                match memo_reader {
                    None => Err(ErrorKind::MissingMemoFile),
                    Some(m) => {
                        let data = match m.read_data_at(index) {
                            Ok(d) => d,
                            Err(e) => return Err(e),
                        };
                        match encoding.decode(data.as_slice()) {
                            Ok(text) => Ok(FieldValue::Memo(text)),
                            Err(e) => Err(ErrorKind::StringDecodeError(e)),
                        }
                    },
                }
            },
        }
    }

    /// Returns the corresponding field type of the contained value
    pub fn field_type(&self) -> (r: FieldType)
        ensures
            r == spec_value_type(self@),
    {
        match self {
            FieldValue::Character(_) => FieldType::Character,
            FieldValue::Numeric(_) => FieldType::Numeric,
            FieldValue::Logical(_) => FieldType::Logical,
            FieldValue::Integer(_) => FieldType::Integer,
            FieldValue::Float(_) => FieldType::Float,
            FieldValue::Double(_) => FieldType::Double,
            FieldValue::Date(_) => FieldType::Date,
            FieldValue::Memo(_) => FieldType::Memo,
            FieldValue::Currency(_) => FieldType::Currency,
            FieldValue::DateTime(_) => FieldType::DateTime,
        }
    }
}

/// Why a value could not be written to a field.
pub ghost enum WriteFailure {
    /// The value does not fit the type of the field.
    IncompatibleType,
    /// The text could not be encoded.
    Encode,
    /// Memo values cannot be written.
    Memo,
}

/// The failure an error of writing stands for.
pub open spec fn write_failure_of(e: ErrorKind) -> Option<WriteFailure> {
    match e {
        ErrorKind::IncompatibleType => Some(WriteFailure::IncompatibleType),
        ErrorKind::StringEncodeError(_) => Some(WriteFailure::Encode),
        ErrorKind::Message(_) => Some(WriteFailure::Memo),
        _ => None,
    }
}

/// The bytes of an optional text: nothing for `None`, its encoding otherwise.
pub open spec fn spec_written_text<E: Encoding>(enc: E, text: Option<Seq<char>>) -> Result<Seq<u8>, WriteFailure> {
    match text {
        None => Ok(Seq::empty()),
        Some(t) => match enc.spec_encode(t) {
            None => Err(WriteFailure::Encode),
            Some(b) => Ok(b),
        },
    }
}

/// The 8 bytes of a date-time: Julian day number and milliseconds, little endian.
pub open spec fn spec_date_time_bytes(dt: DateTime) -> Seq<u8> {
    le_bytes32(
        unsigned32(
            spec_julian_day_number(
                dt.spec_date().year as int,
                dt.spec_date().month as int,
                dt.spec_date().day as int,
            ),
        ),
    ) + le_bytes32(unsigned32(dt.spec_time().spec_word()))
}

/// The bytes a value is written as, in a field of type `field_type` (before
/// the padding or cutting to the field length).
pub open spec fn spec_written_value<E: Encoding>(enc: E, v: ValueModel, field_type: FieldType) -> Result<Seq<u8>, WriteFailure> {
    if spec_value_type(v) != field_type {
        Err(WriteFailure::IncompatibleType)
    } else {
        match v {
            ValueModel::Character(t) => spec_written_text(enc, t),
            ValueModel::Numeric(t) => spec_written_text(enc, t),
            ValueModel::Float(t) => spec_written_text(enc, t),
            ValueModel::Logical(b) => match b {
                None => Ok(Seq::empty()),
                Some(b) => spec_written_text(enc, Some(if b { seq!['t'] } else { seq!['f'] })),
            },
            ValueModel::Date(d) => match d {
                None => Ok(Seq::new(8, |i: int| 32u8)),
                Some(d) => spec_written_text(enc, Some(crate::encoding::ascii_chars(spec_date_text(d)))),
            },
            ValueModel::Integer(i) => Ok(le_bytes32(unsigned32(i as int))),
            ValueModel::Currency(bits) => Ok(le_bytes64(bits as int)),
            ValueModel::Double(bits) => Ok(le_bytes64(bits as int)),
            ValueModel::DateTime(dt) => Ok(spec_date_time_bytes(dt)),
            ValueModel::Memo(_) => Err(WriteFailure::Memo),
        }
    }
}

/// Appends the encoding of an optional text (nothing for `None`).
fn write_text<E: Encoding>(text: &Option<String>, encoding: &E, dst: &mut Vec<u8>) -> (r: Result<(), ErrorKind>)
    ensures
        r is Ok <==> spec_written_text(*encoding, opt_chars(*text)) is Ok,
        r is Ok ==> final(dst)@ == old(dst)@ + spec_written_text(*encoding, opt_chars(*text))->Ok_0,
        r matches Err(e) ==> final(dst)@ == old(dst)@ && write_failure_of(e) == Some(WriteFailure::Encode),
{
    match text {
        None => {
            assert(dst@ =~= old(dst)@ + Seq::<u8>::empty());
            Ok(())
        },
        Some(s) => match encoding.encode(s.as_str()) {
            Ok(bytes) => {
                dst.extend_from_slice(bytes.as_slice());
                Ok(())
            },
            Err(e) => Err(ErrorKind::StringEncodeError(e)),
        },
    }
}

/// Types whose values can be written in a dBase field.
pub trait WritableAsDbaseField: crate::sealed::Sealed {
    /// The value, as a field value.
    spec fn spec_value(&self) -> ValueModel;

    /// Appends the bytes of the value, in a field described by `field_info`
    /// (see [`spec_written_value`]); nothing is appended on error.
    fn write_as<E: Encoding>(&self, field_info: &FieldInfo, encoding: &E, dst: &mut Vec<u8>) -> (r: Result<(), ErrorKind>)
        ensures
            r is Ok <==> spec_written_value(*encoding, self.spec_value(), field_info.field_type) is Ok,
            r is Ok ==> final(dst)@ == old(dst)@ + spec_written_value(
                *encoding,
                self.spec_value(),
                field_info.field_type,
            )->Ok_0,
            r matches Err(e) ==> final(dst)@ == old(dst)@ && Some(
                spec_written_value(*encoding, self.spec_value(), field_info.field_type)->Err_0,
            ) == write_failure_of(e),
    ;
}

impl WritableAsDbaseField for FieldValue {
    open spec fn spec_value(&self) -> ValueModel {
        self@
    }

    fn write_as<E: Encoding>(&self, field_info: &FieldInfo, encoding: &E, dst: &mut Vec<u8>) -> (r: Result<(), ErrorKind>) {
        if self.field_type() != field_info.field_type {
            return Err(ErrorKind::IncompatibleType);
        }
        match self {
            FieldValue::Character(t) => write_text(t, encoding, dst),
            FieldValue::Numeric(t) => write_text(t, encoding, dst),
            FieldValue::Float(t) => write_text(t, encoding, dst),
            FieldValue::Logical(b) => match b {
                None => {
                    assert(dst@ =~= old(dst)@ + Seq::<u8>::empty());
                    Ok(())
                },
                Some(b) => {
                    let text = if *b { String::from_str("t") } else { String::from_str("f") };
                    proof {
                        reveal_strlit("t");
                        reveal_strlit("f");
                        assert("t"@ =~= seq!['t']);
                        assert("f"@ =~= seq!['f']);
                    }
                    write_text(&Some(text), encoding, dst)
                },
            },
            FieldValue::Date(d) => match d {
                None => {
                    let ghost start = dst@;
                    let mut i: usize = 0;
                    while i < 8
                        invariant
                            0 <= i <= 8,
                            dst@ == start + Seq::new(i as nat, |k: int| 32u8),
                        decreases 8 - i,
                    {
                        dst.push(32u8);
                        assert(Seq::new(i as nat, |k: int| 32u8).push(32u8) =~= Seq::new((i + 1) as nat, |k: int| 32u8));
                        i = i + 1;
                    }
                    Ok(())
                },
                Some(d) => {
                    let mut text_bytes: Vec<u8> = Vec::new();
                    d.write_text(&mut text_bytes);
                    proof {
                        lemma_date_text_ascii(*d);
                        assert(text_bytes@ =~= spec_date_text(*d));
                    }
                    let text = crate::encoding::ascii_string(text_bytes);
                    write_text(&Some(text), encoding, dst)
                },
            },
            FieldValue::Integer(i) => {
                push_i32_le(dst, *i);
                Ok(())
            },
            FieldValue::Currency(bits) => {
                push_u64_le(dst, *bits);
                Ok(())
            },
            FieldValue::Double(bits) => {
                push_u64_le(dst, *bits);
                Ok(())
            },
            FieldValue::DateTime(dt) => {
                dt.write_to(dst);
                Ok(())
            },
            FieldValue::Memo(_) => Err(ErrorKind::Message(String::from_str("Cannot write memo"))),
        }
    }
}


impl WritableAsDbaseField for String {
    open spec fn spec_value(&self) -> ValueModel {
        ValueModel::Character(Some(self@))
    }

    fn write_as<E: Encoding>(&self, field_info: &FieldInfo, encoding: &E, dst: &mut Vec<u8>) -> (r: Result<(), ErrorKind>) {
        FieldValue::Character(Some(self.clone())).write_as(field_info, encoding, dst)
    }
}

impl<'s> WritableAsDbaseField for &'s str {
    open spec fn spec_value(&self) -> ValueModel {
        ValueModel::Character(Some((*self)@))
    }

    fn write_as<E: Encoding>(&self, field_info: &FieldInfo, encoding: &E, dst: &mut Vec<u8>) -> (r: Result<(), ErrorKind>) {
        FieldValue::Character(Some(String::from_str(*self))).write_as(field_info, encoding, dst)
    }
}

impl WritableAsDbaseField for Option<String> {
    open spec fn spec_value(&self) -> ValueModel {
        ValueModel::Character(opt_chars(*self))
    }

    fn write_as<E: Encoding>(&self, field_info: &FieldInfo, encoding: &E, dst: &mut Vec<u8>) -> (r: Result<(), ErrorKind>) {
        let value = match self {
            Some(s) => FieldValue::Character(Some(s.clone())),
            None => FieldValue::Character(None),
        };
        value.write_as(field_info, encoding, dst)
    }
}

impl WritableAsDbaseField for bool {
    open spec fn spec_value(&self) -> ValueModel {
        ValueModel::Logical(Some(*self))
    }

    fn write_as<E: Encoding>(&self, field_info: &FieldInfo, encoding: &E, dst: &mut Vec<u8>) -> (r: Result<(), ErrorKind>) {
        FieldValue::Logical(Some(*self)).write_as(field_info, encoding, dst)
    }
}

impl WritableAsDbaseField for Option<bool> {
    open spec fn spec_value(&self) -> ValueModel {
        ValueModel::Logical(*self)
    }

    fn write_as<E: Encoding>(&self, field_info: &FieldInfo, encoding: &E, dst: &mut Vec<u8>) -> (r: Result<(), ErrorKind>) {
        FieldValue::Logical(*self).write_as(field_info, encoding, dst)
    }
}

impl WritableAsDbaseField for Date {
    open spec fn spec_value(&self) -> ValueModel {
        ValueModel::Date(Some(*self))
    }

    fn write_as<E: Encoding>(&self, field_info: &FieldInfo, encoding: &E, dst: &mut Vec<u8>) -> (r: Result<(), ErrorKind>) {
        FieldValue::Date(Some(*self)).write_as(field_info, encoding, dst)
    }
}

impl WritableAsDbaseField for Option<Date> {
    open spec fn spec_value(&self) -> ValueModel {
        ValueModel::Date(*self)
    }

    fn write_as<E: Encoding>(&self, field_info: &FieldInfo, encoding: &E, dst: &mut Vec<u8>) -> (r: Result<(), ErrorKind>) {
        FieldValue::Date(*self).write_as(field_info, encoding, dst)
    }
}

impl WritableAsDbaseField for i32 {
    open spec fn spec_value(&self) -> ValueModel {
        ValueModel::Integer(*self)
    }

    fn write_as<E: Encoding>(&self, field_info: &FieldInfo, encoding: &E, dst: &mut Vec<u8>) -> (r: Result<(), ErrorKind>) {
        FieldValue::Integer(*self).write_as(field_info, encoding, dst)
    }
}

impl WritableAsDbaseField for DateTime {
    open spec fn spec_value(&self) -> ValueModel {
        ValueModel::DateTime(*self)
    }

    fn write_as<E: Encoding>(&self, field_info: &FieldInfo, encoding: &E, dst: &mut Vec<u8>) -> (r: Result<(), ErrorKind>) {
        FieldValue::DateTime(*self).write_as(field_info, encoding, dst)
    }
}


impl From<String> for FieldValue {
    fn from(v: String) -> (r: Self) {
        FieldValue::Character(Some(v))
    }
}

impl vstd::std_specs::convert::FromSpecImpl<String> for FieldValue {
    open spec fn obeys_from_spec() -> bool {
        true
    }

    open spec fn from_spec(v: String) -> FieldValue {
        FieldValue::Character(Some(v))
    }
}

impl From<Option<String>> for FieldValue {
    fn from(v: Option<String>) -> (r: Self) {
        FieldValue::Character(v)
    }
}

impl vstd::std_specs::convert::FromSpecImpl<Option<String>> for FieldValue {
    open spec fn obeys_from_spec() -> bool {
        true
    }

    open spec fn from_spec(v: Option<String>) -> FieldValue {
        FieldValue::Character(v)
    }
}

impl From<bool> for FieldValue {
    fn from(v: bool) -> (r: Self) {
        FieldValue::Logical(Some(v))
    }
}

impl vstd::std_specs::convert::FromSpecImpl<bool> for FieldValue {
    open spec fn obeys_from_spec() -> bool {
        true
    }

    open spec fn from_spec(v: bool) -> FieldValue {
        FieldValue::Logical(Some(v))
    }
}

impl From<Option<bool>> for FieldValue {
    fn from(v: Option<bool>) -> (r: Self) {
        FieldValue::Logical(v)
    }
}

impl vstd::std_specs::convert::FromSpecImpl<Option<bool>> for FieldValue {
    open spec fn obeys_from_spec() -> bool {
        true
    }

    open spec fn from_spec(v: Option<bool>) -> FieldValue {
        FieldValue::Logical(v)
    }
}

impl From<Date> for FieldValue {
    fn from(v: Date) -> (r: Self) {
        FieldValue::Date(Some(v))
    }
}

impl vstd::std_specs::convert::FromSpecImpl<Date> for FieldValue {
    open spec fn obeys_from_spec() -> bool {
        true
    }

    open spec fn from_spec(v: Date) -> FieldValue {
        FieldValue::Date(Some(v))
    }
}

impl From<Option<Date>> for FieldValue {
    fn from(v: Option<Date>) -> (r: Self) {
        FieldValue::Date(v)
    }
}

impl vstd::std_specs::convert::FromSpecImpl<Option<Date>> for FieldValue {
    open spec fn obeys_from_spec() -> bool {
        true
    }

    open spec fn from_spec(v: Option<Date>) -> FieldValue {
        FieldValue::Date(v)
    }
}

impl From<DateTime> for FieldValue {
    fn from(v: DateTime) -> (r: Self) {
        FieldValue::DateTime(v)
    }
}

impl vstd::std_specs::convert::FromSpecImpl<DateTime> for FieldValue {
    open spec fn obeys_from_spec() -> bool {
        true
    }

    open spec fn from_spec(v: DateTime) -> FieldValue {
        FieldValue::DateTime(v)
    }
}

impl From<i32> for FieldValue {
    fn from(v: i32) -> (r: Self) {
        FieldValue::Integer(v)
    }
}

impl vstd::std_specs::convert::FromSpecImpl<i32> for FieldValue {
    open spec fn obeys_from_spec() -> bool {
        true
    }

    open spec fn from_spec(v: i32) -> FieldValue {
        FieldValue::Integer(v)
    }
}

impl Date {
    /// The text of the date, `YYYYMMDD` (see [`spec_date_text`]).
    pub fn to_string(&self) -> (r: String)
        ensures
            r@ == crate::encoding::ascii_chars(spec_date_text(*self)),
    {
        let mut bytes: Vec<u8> = Vec::new();
        self.write_text(&mut bytes);
        proof {
            lemma_date_text_ascii(*self);
        }
        crate::encoding::ascii_string(bytes)
    }
}

/// The text of a date is made of ASCII digits.
pub proof fn lemma_date_text_ascii(d: Date)
    ensures
        crate::encoding::all_ascii(spec_date_text(d)),
        forall|i: int| 0 <= i < spec_date_text(d).len() ==> is_digit(#[trigger] spec_date_text(d)[i]),
{
    lemma_padded_digits(d.year as nat, 4);
    lemma_padded_digits(d.month as nat, 2);
    lemma_padded_digits(d.day as nat, 2);
    let t = spec_date_text(d);
    let a = padded_decimal(d.year as nat, 4);
    let b = padded_decimal(d.month as nat, 2);
    let c = padded_decimal(d.day as nat, 2);
    assert forall|i: int| 0 <= i < t.len() implies is_digit(#[trigger] t[i]) by {
        if i < a.len() {
            assert(t[i] == a[i]);
        } else if i < a.len() + b.len() {
            assert(t[i] == b[i - a.len()]);
        } else {
            assert(t[i] == c[i - a.len() - b.len()]);
        }
    }
}

/// Padded decimals are made of digits.
pub proof fn lemma_padded_digits(n: nat, width: nat)
    ensures
        forall|i: int| 0 <= i < padded_decimal(n, width).len() ==> is_digit(#[trigger] padded_decimal(n, width)[i]),
        padded_decimal(n, width).len() >= width,
{
    lemma_decimal_digits_len(n);
    let d = decimal_digits(n);
    let p = padded_decimal(n, width);
    if d.len() < width {
        assert forall|i: int| 0 <= i < p.len() implies is_digit(#[trigger] p[i]) by {
            let k = (width - d.len()) as int;
            if i < k {
                assert(p[i] == 48u8);
            } else {
                assert(p[i] == d[i - k]);
            }
        }
    }
}

} // verus!
