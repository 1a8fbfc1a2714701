//! What a field gives back once written: a value written in a field of its
//! type, padded to the field length, reads back as itself.

use crate::encoding::{ascii_chars, all_ascii, first_zero_from, lemma_ascii_is_utf8, DynEncoding, Encoding};
use crate::field::FieldInfo;
use crate::le::{le32, le64, le_bytes32, le_bytes64, lemma_le32_roundtrip, lemma_le64_roundtrip, signed32, unsigned32};
use crate::memo::{first_index_of, MemoReader};
use crate::types::FieldType;
use crate::types::{
    is_calendar_date, lemma_calendar_date_roundtrips, lemma_date_time_words_roundtrip,
    lemma_time_word_roundtrip, spec_julian_day_number, Date, DateTime, MAX_JULIAN_DAY_NUMBER,
};
use crate::value::{
    is_float_text,
    all_stars, decimal_digits, spec_date_time_bytes, end_nonspace, first_nonspace, is_digit, lemma_date_text_ascii,
    lemma_padded_digits, padded_decimal, scan_u32, spec_date_text, spec_logical, spec_parse_date, spec_parse_u32,
    spec_read_field, spec_trim_field_data, spec_value_type, spec_written_value, TrimOption, ValueModel,
};
use crate::writing::{repeat_byte, spec_add_decimals, spec_field_bytes};
use vstd::prelude::*;
use vstd::utf8::{decode_utf8, encode_utf8, valid_utf8};

verus! {

broadcast use vstd::utf8::encode_utf8_valid_utf8, vstd::utf8::encode_utf8_decode_utf8;

/// Whether `b` holds no zero byte.
pub open spec fn no_zero(b: Seq<u8>) -> bool {
    forall|i: int| 0 <= i < b.len() ==> b[i] != 0
}

/// Bytes that trimming gives back as they are: not empty, no zero byte, and
/// no space at either end.
pub open spec fn trim_stable(b: Seq<u8>) -> bool {
    &&& b.len() > 0
    &&& no_zero(b)
    &&& b[0] != 32
    &&& b[b.len() - 1] != 32
}

/// A text that encodes to bytes of at most `len` bytes that decode back to it
/// and that trimming keeps as they are.
pub open spec fn text_fits(enc: DynEncoding, t: Seq<char>, len: int) -> bool {
    &&& enc.spec_encode(t) matches Some(b)
    &&& enc.spec_decode(b) == Some(t)
    &&& b.len() <= len
    &&& trim_stable(b)
}

/// A number text that fits its field (see [`text_fits`]), is not all `*`,
/// and either fills the field or already shows the decimals of the field.
pub open spec fn number_fits(enc: DynEncoding, t: Seq<char>, info: FieldInfo) -> bool {
    &&& is_float_text(t)
    &&& text_fits(enc, t, info.field_length as int)
    &&& enc.spec_encode(t) matches Some(b)
    &&& !all_stars(b)
    &&& (b.len() == info.field_length || {
        let dot = first_index_of(b, 46, 0);
        dot < b.len() && b.len() - dot - 1 >= info.num_decimal_places
    })
}

/// A value that reads back as itself once written in the field `info`: it
/// is of the field's type, and
/// - a text fits the field (see [`text_fits`], [`number_fits`]); a number
///   with no value only fits a field of length zero (otherwise its decimals
///   are written);
/// - a logical needs one byte, an integer four, a currency or a double eight;
/// - a date's year has at most 4 digits, its month and day at most 2, and
///   the field holds its 8 bytes;
/// - a date-time fits its 8 bytes (see [`date_time_fits`]);
/// - memos are not covered.
pub open spec fn value_fits(enc: DynEncoding, v: ValueModel, info: FieldInfo) -> bool {
    &&& spec_value_type(v) == info.field_type
    &&& match v {
        ValueModel::Character(None) => true,
        ValueModel::Character(Some(t)) => text_fits(enc, t, info.field_length as int),
        ValueModel::Numeric(None) => info.field_length == 0,
        ValueModel::Numeric(Some(t)) => number_fits(enc, t, info),
        ValueModel::Float(None) => info.field_length == 0,
        ValueModel::Float(Some(t)) => number_fits(enc, t, info),
        ValueModel::Logical(_) => info.field_length >= 1,
        ValueModel::Date(None) => true,
        ValueModel::Date(Some(d)) => d.year <= 9999 && d.month <= 99 && d.day <= 99
            && info.field_length >= 8,
        ValueModel::Integer(_) => info.field_length >= 4,
        ValueModel::Currency(_) => info.field_length >= 8,
        ValueModel::Double(_) => info.field_length >= 8,
        ValueModel::DateTime(dt) => info.field_length >= 8 && date_time_fits(dt),
        ValueModel::Memo(_) => false,
    }
}

/// A date-time that reads back as itself from its two words: its date is a
/// date of the calendar whose Julian day number can be converted back (at
/// most `MAX_JULIAN_DAY_NUMBER`), and its minutes and seconds are below 60.
pub open spec fn date_time_fits(dt: DateTime) -> bool {
    &&& dt.spec_date().julian_ok()
    &&& dt.spec_time().spec_word() <= 0x7fff_ffff
    &&& is_calendar_date(dt.spec_date())
    &&& spec_julian_day_number(
        dt.spec_date().year as int,
        dt.spec_date().month as int,
        dt.spec_date().day as int,
    ) <= MAX_JULIAN_DAY_NUMBER
    &&& dt.spec_time().spec_minutes() < 60
    &&& dt.spec_time().spec_seconds() < 60
}

/// An encoding that writes text as UTF-8.
pub open spec fn utf8_writer(enc: DynEncoding) -> bool {
    enc is Ascii || enc is Unicode || enc is UnicodeLossy
}

proof fn lemma_first_zero_none(b: Seq<u8>, i: int)
    requires
        0 <= i <= b.len(),
        forall|k: int| i <= k < b.len() ==> b[k] != 0,
    ensures
        first_zero_from(b, i) == b.len(),
    decreases b.len() - i,
{
    if i < b.len() {
        lemma_first_zero_none(b, i + 1);
    }
}

proof fn lemma_end_nonspace_pad(p: Seq<u8>, n: int, j: int)
    requires
        0 < n <= j <= p.len(),
        p[n - 1] != 32,
        forall|k: int| n <= k < p.len() ==> p[k] == 32,
    ensures
        end_nonspace(p, j) == n,
    decreases j,
{
    if j > n {
        lemma_end_nonspace_pad(p, n, j - 1);
    }
}

/// Trimming bytes padded with spaces gives the bytes back, when they are
/// trim-stable; it gives nothing for bytes of spaces only.
pub proof fn lemma_trim_padded(b: Seq<u8>, k: nat)
    ensures
        trim_stable(b) ==> spec_trim_field_data(b + repeat_byte(32, k), TrimOption::BeginEnd) == b,
        b.len() == 0 ==> spec_trim_field_data(b + repeat_byte(32, k), TrimOption::BeginEnd).len() == 0,
{
    let p = b + repeat_byte(32, k);
    if trim_stable(b) || b.len() == 0 {
        assert forall|i: int| 0 <= i < p.len() implies p[i] != 0 by {
            if i >= b.len() {
                assert(p[i] == 32);
            } else {
                assert(p[i] == b[i]);
            }
        }
    }
    if trim_stable(b) {
        lemma_first_zero_none(p, 0);
        assert(p[0] == b[0]);
        assert(first_nonspace(p, 0, p.len() as int) == 0);
        assert(p[b.len() - 1] == b[b.len() - 1]);
        lemma_end_nonspace_pad(p, b.len() as int, p.len() as int);
        assert(p.subrange(0, b.len() as int) =~= b);
    }
    if b.len() == 0 {
        lemma_first_zero_none(p, 0);
        lemma_first_nonspace_all(p, 0, p.len() as int);
    }
}

proof fn lemma_first_nonspace_all(p: Seq<u8>, i: int, z: int)
    requires
        0 <= i <= z <= p.len(),
        forall|k: int| i <= k < z ==> p[k] == 32,
    ensures
        first_nonspace(p, i, z) == z,
    decreases z - i,
{
    if i < z {
        lemma_first_nonspace_all(p, i + 1, z);
    }
}

/// The bytes of a field whose value was written as `w`, when `w` fits.
proof fn lemma_field_bytes_pad(w: Seq<u8>, info: FieldInfo)
    requires
        w.len() <= info.field_length,
        w.len() < info.field_length && (info.field_type == FieldType::Numeric || info.field_type
            == FieldType::Float) ==> spec_add_decimals(w, info.num_decimal_places) == w,
    ensures
        spec_field_bytes(w, info) == w + repeat_byte(32, (info.field_length - w.len()) as nat),
{
    if w.len() == info.field_length {
        assert(w.subrange(0, w.len() as int) =~= w);
        assert(w + repeat_byte(32, 0) =~= w);
    }
}

/// A number text that shows the decimals of its field gets no more.
proof fn lemma_add_decimals_none(b: Seq<u8>, places: u8)
    requires
        first_index_of(b, 46, 0) < b.len(),
        b.len() - first_index_of(b, 46, 0) - 1 >= places,
    ensures
        spec_add_decimals(b, places) == b,
{
}

/// Reading the little endian bytes of a value, padded, gives it back.
proof fn lemma_le64_padded(n: u64, k: nat)
    ensures
        le64(le_bytes64(n as int) + repeat_byte(32, k), 0) == n,
        (le_bytes64(n as int) + repeat_byte(32, k)).len() == 8 + k,
{
    let p = le_bytes64(n as int) + repeat_byte(32, k);
    assert(p.subrange(0, 8) =~= le_bytes64(n as int));
    lemma_le64_roundtrip(n, p, 0);
}

proof fn lemma_le32_padded(n: u32, k: nat)
    ensures
        le32(le_bytes32(n as int) + repeat_byte(32, k), 0) == n,
        (le_bytes32(n as int) + repeat_byte(32, k)).len() == 4 + k,
{
    let p = le_bytes32(n as int) + repeat_byte(32, k);
    assert(p.subrange(0, 4) =~= le_bytes32(n as int));
    lemma_le32_roundtrip(n, p, 0);
}

/// A UTF-8 writer encodes a text as its UTF-8 bytes.
proof fn lemma_utf8_writer_encode(enc: DynEncoding, t: Seq<char>)
    requires
        utf8_writer(enc),
    ensures
        enc.spec_encode(t) == Some(encode_utf8(t)),
{
}

/// ASCII bytes decode to their characters with a UTF-8 writer, when they
/// hold no zero byte.
proof fn lemma_utf8_writer_decode_ascii(enc: DynEncoding, b: Seq<u8>)
    requires
        utf8_writer(enc),
        all_ascii(b),
        no_zero(b),
    ensures
        enc.spec_decode(b) == Some(ascii_chars(b)),
{
    lemma_ascii_is_utf8(b);
    lemma_first_zero_none(b, 0);
    assert(b.subrange(0, b.len() as int) =~= b);
}

/// A value written in a field reads back as itself, when it fits the field
/// (see [`value_fits`]) and the encoding writes UTF-8; the memo file plays
/// no part.
#[verifier::spinoff_prover]
#[verifier::rlimit(60)]
pub proof fn lemma_field_roundtrip(
    enc: DynEncoding,
    v: ValueModel,
    info: FieldInfo,
    memo: Option<MemoReader>,
)
    requires
        utf8_writer(enc),
        value_fits(enc, v, info),
    ensures
        spec_written_value(enc, v, info.field_type) is Ok,
        spec_field_bytes(spec_written_value(enc, v, info.field_type)->Ok_0, info).len() == info.field_length,
        spec_read_field(
            enc,
            spec_field_bytes(spec_written_value(enc, v, info.field_type)->Ok_0, info),
            info.field_type,
            info.field_length,
            TrimOption::BeginEnd,
            memo,
        ) == Ok::<ValueModel, crate::value::ReadFailure>(v),
{
    let len = info.field_length as int;
    let w = spec_written_value(enc, v, info.field_type)->Ok_0;
    match v {
        ValueModel::Character(t) => {
            match t {
                None => {
                    assert(w =~= Seq::<u8>::empty());
                    lemma_field_bytes_pad(w, info);
                    lemma_trim_padded(w, len as nat);
                },
                Some(t) => {
                    lemma_field_bytes_pad(w, info);
                    lemma_trim_padded(w, (len - w.len()) as nat);
                },
            }
        },
        ValueModel::Numeric(t) => {
            match t {
                None => {
                    assert(w =~= Seq::<u8>::empty());
                    assert(spec_field_bytes(w, info) =~= Seq::<u8>::empty());
                    lemma_trim_padded(w, 0);
                    assert(w + repeat_byte(32, 0) =~= w);
                },
                Some(t) => {
                    if w.len() < len {
                        lemma_add_decimals_none(w, info.num_decimal_places);
                    }
                    lemma_field_bytes_pad(w, info);
                    lemma_trim_padded(w, (len - w.len()) as nat);
                },
            }
        },
        ValueModel::Float(t) => {
            match t {
                None => {
                    assert(w =~= Seq::<u8>::empty());
                    assert(spec_field_bytes(w, info) =~= Seq::<u8>::empty());
                    lemma_trim_padded(w, 0);
                    assert(w + repeat_byte(32, 0) =~= w);
                },
                Some(t) => {
                    if w.len() < len {
                        lemma_add_decimals_none(w, info.num_decimal_places);
                    }
                    lemma_field_bytes_pad(w, info);
                    lemma_trim_padded(w, (len - w.len()) as nat);
                },
            }
        },
        ValueModel::Logical(b) => {
            match b {
                None => {
                    assert(w =~= Seq::<u8>::empty());
                    lemma_field_bytes_pad(w, info);
                    let p = spec_field_bytes(w, info);
                    assert(p[0] == 32);
                },
                Some(b) => {
                    let c = if b { seq!['t'] } else { seq!['f'] };
                    lemma_utf8_writer_encode(enc, c);
                    vstd::utf8::is_ascii_chars_encode_utf8(c);
                    assert(encode_utf8(c).len() == 1);
                    assert(encode_utf8(c)[0] == c[0] as u8);
                    lemma_field_bytes_pad(w, info);
                },
            }
        },
        ValueModel::Date(d) => {
            match d {
                None => {
                    if len >= 8 {
                        lemma_field_bytes_pad(w, info);
                        assert(w + repeat_byte(32, (len - 8) as nat) =~= Seq::<u8>::empty() + repeat_byte(32, len as nat));
                        lemma_trim_padded(Seq::<u8>::empty(), len as nat);
                    } else {
                        let p = spec_field_bytes(w, info);
                        assert(p =~= Seq::<u8>::empty() + repeat_byte(32, len as nat));
                        lemma_trim_padded(Seq::<u8>::empty(), len as nat);
                    }
                },
                Some(d) => {
                    lemma_date_roundtrip(enc, d, info, memo);
                },
            }
        },
        ValueModel::Integer(i) => {
            let u = unsigned32(i as int) as u32;
            assert(w == le_bytes32(u as int));
            lemma_field_bytes_pad(w, info);
            lemma_le32_padded(u, (len - 4) as nat);
        },
        ValueModel::Currency(bits) => {
            lemma_field_bytes_pad(w, info);
            lemma_le64_padded(bits, (len - 8) as nat);
        },
        ValueModel::Double(bits) => {
            lemma_field_bytes_pad(w, info);
            lemma_le64_padded(bits, (len - 8) as nat);
        },
        ValueModel::DateTime(dt) => {
            lemma_date_time_field_roundtrip(enc, dt, info, memo);
        },
        ValueModel::Memo(_) => {},
    }
}

proof fn lemma_date_time_field_roundtrip(enc: DynEncoding, dt: DateTime, info: FieldInfo, memo: Option<MemoReader>)
    requires
        info.field_type == FieldType::DateTime,
        info.field_length >= 8,
        date_time_fits(dt),
    ensures
        spec_written_value(enc, ValueModel::DateTime(dt), info.field_type) is Ok,
        spec_field_bytes(spec_written_value(enc, ValueModel::DateTime(dt), info.field_type)->Ok_0, info).len()
            == info.field_length,
        spec_read_field(
            enc,
            spec_field_bytes(spec_written_value(enc, ValueModel::DateTime(dt), info.field_type)->Ok_0, info),
            info.field_type,
            info.field_length,
            TrimOption::BeginEnd,
            memo,
        ) == Ok::<ValueModel, crate::value::ReadFailure>(ValueModel::DateTime(dt)),
{
    let w = spec_written_value(enc, ValueModel::DateTime(dt), info.field_type)->Ok_0;
    assert(w == spec_date_time_bytes(dt));
    lemma_field_bytes_pad(w, info);
    let p = w + repeat_byte(32, (info.field_length - 8) as nat);
    assert(p.subrange(0, 8) =~= w);
    lemma_date_time_bytes_read(dt, p);
}

proof fn lemma_date_time_zero_padded(
    enc: DynEncoding,
    dt: DateTime,
    info: FieldInfo,
    trim: TrimOption,
    memo: Option<MemoReader>,
)
    requires
        info.field_type == FieldType::DateTime,
        info.field_length >= 8,
        date_time_fits(dt),
    ensures
        spec_written_value(enc, ValueModel::DateTime(dt), info.field_type) == Ok::<Seq<u8>, crate::value::WriteFailure>(spec_date_time_bytes(dt)),
        spec_date_time_bytes(dt).len() == 8,
        spec_read_field(
            enc,
            spec_date_time_bytes(dt) + repeat_byte(0, (info.field_length - 8) as nat),
            info.field_type,
            info.field_length,
            trim,
            memo,
        ) == Ok::<ValueModel, crate::value::ReadFailure>(ValueModel::DateTime(dt)),
{
    let w = spec_date_time_bytes(dt);
    let p = w + repeat_byte(0, (info.field_length - 8) as nat);
    assert(p.subrange(0, 8) =~= w);
    lemma_date_time_bytes_read(dt, p);
}

/// The two words of a date-time that fits, read from its bytes (followed
/// by any bytes), give it back.
proof fn lemma_date_time_bytes_read(dt: DateTime, p: Seq<u8>)
    requires
        date_time_fits(dt),
        p.len() >= 8,
        p.subrange(0, 8) == spec_date_time_bytes(dt),
    ensures
        DateTime::spec_from_words(signed32(le32(p, 0)), signed32(le32(p, 4))) == Ok::<DateTime, crate::error::ErrorKind>(dt),
{
    let d = dt.spec_date();
    let j = spec_julian_day_number(d.year as int, d.month as int, d.day as int);
    let word = dt.spec_time().spec_word();
    lemma_time_word_roundtrip(dt.spec_time());
    lemma_calendar_date_roundtrips(d);
    let ju = j as u32;
    let wu = word as u32;
    assert(unsigned32(j) == ju);
    assert(unsigned32(word) == wu);
    assert(p.subrange(0, 4) =~= le_bytes32(ju as int)) by {
        assert(spec_date_time_bytes(dt).subrange(0, 4) =~= le_bytes32(ju as int));
        assert(p.subrange(0, 4) =~= p.subrange(0, 8).subrange(0, 4));
    }
    assert(p.subrange(4, 8) =~= le_bytes32(wu as int)) by {
        assert(spec_date_time_bytes(dt).subrange(4, 8) =~= le_bytes32(wu as int));
        assert(p.subrange(4, 8) =~= p.subrange(0, 8).subrange(4, 8));
    }
    lemma_le32_roundtrip(ju, p, 0);
    lemma_le32_roundtrip(wu, p, 4);
    lemma_date_time_words_roundtrip(dt);
}


/// The value of decimal digits, most significant first.
pub open spec fn digits_value(s: Seq<u8>) -> int
    decreases s.len(),
{
    if s.len() == 0 {
        0
    } else {
        digits_value(s.drop_last()) * 10 + (s.last() - 48)
    }
}

proof fn lemma_decimal_digits_value(n: nat)
    ensures
        digits_value(decimal_digits(n)) == n,
        n < 10 ==> decimal_digits(n).len() == 1,
        n < 100 ==> decimal_digits(n).len() <= 2,
        n < 1000 ==> decimal_digits(n).len() <= 3,
        n < 10000 ==> decimal_digits(n).len() <= 4,
    decreases n,
{
    let d = decimal_digits(n);
    if n >= 10 {
        lemma_decimal_digits_value(n / 10);
        assert(d.drop_last() =~= decimal_digits(n / 10));
        assert(d.last() == (48 + n % 10) as u8);
        assert(((48 + n % 10) as u8) as int == 48 + n % 10);
        assert(n == (n / 10) * 10 + n % 10);
    } else {
        assert(d.drop_last() =~= Seq::<u8>::empty());
        assert(digits_value(Seq::<u8>::empty()) == 0);
        assert(d.last() == (48 + n) as u8);
        assert(((48 + n) as u8) as int == 48 + n);
    }
}

proof fn lemma_zeros_value(k: nat, s: Seq<u8>)
    ensures
        digits_value(Seq::new(k, |i: int| 48u8) + s) == digits_value(s),
    decreases s.len(), k,
{
    let z = Seq::new(k, |i: int| 48u8);
    if s.len() == 0 {
        assert(z + s =~= z);
        if k > 0 {
            lemma_zeros_value((k - 1) as nat, s);
            assert(z.drop_last() =~= Seq::new((k - 1) as nat, |i: int| 48u8));
            assert(Seq::new((k - 1) as nat, |i: int| 48u8) + s =~= Seq::new((k - 1) as nat, |i: int| 48u8));
        }
    } else {
        lemma_zeros_value(k, s.drop_last());
        assert((z + s).drop_last() =~= z + s.drop_last());
    }
}

/// Whether every byte is a decimal digit.
pub open spec fn all_digits(s: Seq<u8>) -> bool {
    forall|i: int| 0 <= i < s.len() ==> is_digit(#[trigger] s[i])
}

proof fn lemma_prefix_value_grows(s: Seq<u8>, j: int, m: int)
    requires
        all_digits(s),
        0 <= j <= m <= s.len(),
    ensures
        0 <= digits_value(s.subrange(0, j)) <= digits_value(s.subrange(0, m)),
    decreases m,
{
    if m > j {
        lemma_prefix_value_grows(s, j, m - 1);
        assert(s.subrange(0, m).drop_last() =~= s.subrange(0, m - 1));
        assert(is_digit(s[m - 1]));
    } else {
        lemma_digits_nonneg(s.subrange(0, j));
    }
}

proof fn lemma_digits_nonneg(t: Seq<u8>)
    requires
        all_digits(t),
    ensures
        digits_value(t) >= 0,
    decreases t.len(),
{
    if t.len() > 0 {
        assert(all_digits(t.drop_last()));
        lemma_digits_nonneg(t.drop_last());
        assert(is_digit(t[t.len() - 1]));
    }
}

proof fn lemma_scan_digits(s: Seq<u8>, i: int)
    requires
        all_digits(s),
        0 <= i <= s.len(),
        digits_value(s) <= u32::MAX,
    ensures
        scan_u32(s, i, digits_value(s.subrange(0, i))) == Ok::<u32, crate::error::IntErrorKind>(
            digits_value(s) as u32,
        ),
    decreases s.len() - i,
{
    if i >= s.len() {
        assert(s.subrange(0, i) =~= s);
    } else {
        assert(is_digit(s[i]));
        assert(s.subrange(0, i + 1).drop_last() =~= s.subrange(0, i));
        lemma_prefix_value_grows(s, i + 1, s.len() as int);
        assert(s.subrange(0, s.len() as int) =~= s);
        lemma_scan_digits(s, i + 1);
    }
}

/// A number written with at least `width` decimal digits reads back as itself.
proof fn lemma_parse_padded(n: nat, width: nat)
    requires
        n <= 9999,
        1 <= width,
        decimal_digits(n).len() <= width,
    ensures
        spec_parse_u32(padded_decimal(n, width)) == Ok::<u32, crate::error::IntErrorKind>(n as u32),
        padded_decimal(n, width).len() == width,
        digits_value(padded_decimal(n, width)) == n,
{
    lemma_decimal_digits_value(n);
    lemma_padded_digits(n, width);
    let d = decimal_digits(n);
    let p = padded_decimal(n, width);
    if d.len() < width {
        lemma_zeros_value((width - d.len()) as nat, d);
    }
    assert(digits_value(p) == n);
    assert(all_digits(p));
    assert(p.subrange(0, 0) =~= Seq::<u8>::empty());
    lemma_scan_digits(p, 0);
    assert(is_digit(p[0]));
}

proof fn lemma_digits_bound(t: Seq<u8>)
    requires
        all_digits(t),
        t.len() <= 4,
    ensures
        0 <= digits_value(t) < 10000,
        t.len() <= 3 ==> digits_value(t) < 1000,
        t.len() <= 2 ==> digits_value(t) < 100,
        t.len() <= 1 ==> digits_value(t) < 10,
    decreases t.len(),
{
    if t.len() > 0 {
        assert(all_digits(t.drop_last()));
        lemma_digits_bound(t.drop_last());
        assert(is_digit(t[t.len() - 1]));
    }
}

/// Digits read as the number they write: at most four decimal digits parse
/// as their value.
proof fn lemma_parse_digits(t: Seq<u8>)
    requires
        all_digits(t),
        1 <= t.len() <= 4,
    ensures
        spec_parse_u32(t) == Ok::<u32, crate::error::IntErrorKind>(digits_value(t) as u32),
{
    lemma_digits_bound(t);
    assert(t.subrange(0, 0) =~= Seq::<u8>::empty());
    lemma_scan_digits(t, 0);
    assert(is_digit(t[0]));
}

/// The text of a date is eight digits: the year in the first four, the
/// month in the next two and the day in the last two, each padded with
/// leading zeros.
pub proof fn lemma_date_text_layout(d: Date)
    requires
        d.year <= 9999,
        d.month <= 99,
        d.day <= 99,
    ensures
        spec_date_text(d).len() == 8,
        all_digits(spec_date_text(d)),
        digits_value(spec_date_text(d).subrange(0, 4)) == d.year,
        digits_value(spec_date_text(d).subrange(4, 6)) == d.month,
        digits_value(spec_date_text(d).subrange(6, 8)) == d.day,
{
    let text = spec_date_text(d);
    lemma_decimal_digits_value(d.year as nat);
    lemma_decimal_digits_value(d.month as nat);
    lemma_decimal_digits_value(d.day as nat);
    lemma_parse_padded(d.year as nat, 4);
    lemma_parse_padded(d.month as nat, 2);
    lemma_parse_padded(d.day as nat, 2);
    lemma_date_text_ascii(d);
    assert(text.subrange(0, 4) =~= padded_decimal(d.year as nat, 4));
    assert(text.subrange(4, 6) =~= padded_decimal(d.month as nat, 2));
    assert(text.subrange(6, 8) =~= padded_decimal(d.day as nat, 2));
    lemma_padded_digits(d.year as nat, 4);
    lemma_padded_digits(d.month as nat, 2);
    lemma_padded_digits(d.day as nat, 2);
    assert forall|i: int| 0 <= i < text.len() implies is_digit(#[trigger] text[i]) by {
        if i < 4 {
            assert(text[i] == padded_decimal(d.year as nat, 4)[i]);
        } else if i < 6 {
            assert(text[i] == padded_decimal(d.month as nat, 2)[i - 4]);
        } else {
            assert(text[i] == padded_decimal(d.day as nat, 2)[i - 6]);
        }
    }
}

/// Eight digits read as a date: the year is the number in the first four,
/// the month that in the next two and the day that in the last two.
pub proof fn lemma_date_text_read(s: Seq<u8>)
    requires
        s.len() >= 8,
        all_digits(s.subrange(0, 8)),
    ensures
        spec_parse_date(s) == Ok::<Date, crate::error::DateParseError>(
            Date {
                year: digits_value(s.subrange(0, 4)) as u32,
                month: digits_value(s.subrange(4, 6)) as u32,
                day: digits_value(s.subrange(6, 8)) as u32,
            },
        ),
{
    assert(all_digits(s.subrange(0, 4))) by {
        assert forall|i: int| 0 <= i < 4 implies is_digit(#[trigger] s.subrange(0, 4)[i]) by {
            assert(s.subrange(0, 8)[i] == s[i]);
        }
    }
    assert(all_digits(s.subrange(4, 6))) by {
        assert forall|i: int| 0 <= i < 2 implies is_digit(#[trigger] s.subrange(4, 6)[i]) by {
            assert(s.subrange(0, 8)[i + 4] == s[i + 4]);
        }
    }
    assert(all_digits(s.subrange(6, 8))) by {
        assert forall|i: int| 0 <= i < 2 implies is_digit(#[trigger] s.subrange(6, 8)[i]) by {
            assert(s.subrange(0, 8)[i + 6] == s[i + 6]);
        }
    }
    lemma_parse_digits(s.subrange(0, 4));
    lemma_parse_digits(s.subrange(4, 6));
    lemma_parse_digits(s.subrange(6, 8));
}

proof fn lemma_date_roundtrip(enc: DynEncoding, d: Date, info: FieldInfo, memo: Option<MemoReader>)
    requires
        utf8_writer(enc),
        d.year <= 9999,
        d.month <= 99,
        d.day <= 99,
        info.field_length >= 8,
        info.field_type == FieldType::Date,
    ensures
        spec_written_value(enc, ValueModel::Date(Some(d)), info.field_type) is Ok,
        spec_field_bytes(spec_written_value(enc, ValueModel::Date(Some(d)), info.field_type)->Ok_0, info).len()
            == info.field_length,
        spec_read_field(
            enc,
            spec_field_bytes(spec_written_value(enc, ValueModel::Date(Some(d)), info.field_type)->Ok_0, info),
            info.field_type,
            info.field_length,
            TrimOption::BeginEnd,
            memo,
        ) == Ok::<ValueModel, crate::value::ReadFailure>(ValueModel::Date(Some(d))),
{
    let text = spec_date_text(d);
    lemma_decimal_digits_value(d.year as nat);
    lemma_decimal_digits_value(d.month as nat);
    lemma_decimal_digits_value(d.day as nat);
    lemma_parse_padded(d.year as nat, 4);
    lemma_parse_padded(d.month as nat, 2);
    lemma_parse_padded(d.day as nat, 2);
    lemma_date_text_ascii(d);
    assert(text.len() == 8);
    assert forall|i: int| 0 <= i < text.len() implies text[i] != 0 && text[i] != 32 && text[i] < 128 by {
        assert(is_digit(text[i]));
    }
    lemma_ascii_is_utf8(text);
    lemma_utf8_writer_encode(enc, ascii_chars(text));
    let w = spec_written_value(enc, ValueModel::Date(Some(d)), info.field_type)->Ok_0;
    assert(w == text);
    lemma_field_bytes_pad(w, info);
    lemma_trim_padded(w, (info.field_length - 8) as nat);
    lemma_utf8_writer_decode_ascii(enc, text);
    assert(text.subrange(0, 4) =~= padded_decimal(d.year as nat, 4));
    assert(text.subrange(4, 6) =~= padded_decimal(d.month as nat, 2));
    assert(text.subrange(6, 8) =~= padded_decimal(d.day as nat, 2));
}


/// A value that reads back as itself once written in the field `info`
/// followed by zero bytes (as a field of a table is overwritten): it is of
/// the field's type, its bytes are at most the field length, and
/// - a text fits the field (see [`text_fits`]) and a number is not all `*`;
/// - a logical needs one byte, an integer four, a currency or a double
///   eight, a date eight (its year has at most 4 digits, its month and day
///   at most 2), a date-time eight (see [`date_time_fits`]);
/// - memos are not covered.
pub open spec fn value_fits_zero_padded(enc: DynEncoding, v: ValueModel, info: FieldInfo) -> bool {
    &&& spec_value_type(v) == info.field_type
    &&& match v {
        ValueModel::Character(None) => true,
        ValueModel::Character(Some(t)) => text_fits(enc, t, info.field_length as int),
        ValueModel::Numeric(None) => true,
        ValueModel::Numeric(Some(t)) => is_float_text(t) && text_fits(enc, t, info.field_length as int)
            && !all_stars(enc.spec_encode(t)->Some_0),
        ValueModel::Float(None) => true,
        ValueModel::Float(Some(t)) => is_float_text(t) && text_fits(enc, t, info.field_length as int)
            && !all_stars(enc.spec_encode(t)->Some_0),
        ValueModel::Logical(_) => info.field_length >= 1,
        ValueModel::Date(None) => info.field_length >= 8,
        ValueModel::Date(Some(d)) => d.year <= 9999 && d.month <= 99 && d.day <= 99
            && info.field_length >= 8,
        ValueModel::Integer(_) => info.field_length >= 4,
        ValueModel::Currency(_) => info.field_length >= 8,
        ValueModel::Double(_) => info.field_length >= 8,
        ValueModel::DateTime(dt) => info.field_length >= 8 && date_time_fits(dt),
        ValueModel::Memo(_) => false,
    }
}

/// Trimming bytes followed by zero bytes gives the bytes back when they are
/// trim-stable, nothing when they are empty or only spaces.
pub proof fn lemma_trim_zero_padded(b: Seq<u8>, k: nat, option: TrimOption)
    requires
        option != TrimOption::Begin,
    ensures
        trim_stable(b) ==> spec_trim_field_data(b + repeat_byte(0, k), option) == b,
        (no_zero(b) && forall|i: int| 0 <= i < b.len() ==> b[i] == 32) ==> spec_trim_field_data(
            b + repeat_byte(0, k),
            option,
        ).len() == 0,
{
    let p = b + repeat_byte(0, k);
    if no_zero(b) {
        if k > 0 {
            assert(p[b.len() as int] == 0);
            lemma_first_zero_before(p, 0, b.len() as int);
        } else {
            assert(p =~= b);
            lemma_first_zero_none(p, 0);
        }
        assert(first_zero_from(p, 0) == b.len());
        if trim_stable(b) {
            assert(p[0] == b[0]);
            assert(p[b.len() - 1] == b[b.len() - 1]);
            assert(p.subrange(0, b.len() as int) =~= b);
        }
        if forall|i: int| 0 <= i < b.len() ==> b[i] == 32 {
            assert forall|i: int| 0 <= i < b.len() implies p[i] == 32 by {
                assert(p[i] == b[i]);
            }
            lemma_first_nonspace_all(p, 0, b.len() as int);
        }
    }
}

proof fn lemma_first_zero_before(p: Seq<u8>, i: int, z: int)
    requires
        0 <= i <= z < p.len(),
        p[z] == 0,
        forall|k: int| i <= k < z ==> p[k] != 0,
    ensures
        first_zero_from(p, i) == z,
    decreases z - i,
{
    if i < z {
        lemma_first_zero_before(p, i + 1, z);
    }
}

/// A value written in a field and followed by zero bytes up to the field
/// length reads back as itself, when it fits (see
/// [`value_fits_zero_padded`]), the encoding writes UTF-8, and character
/// fields are not trimmed only at their beginning.
#[verifier::spinoff_prover]
#[verifier::rlimit(60)]
pub proof fn lemma_field_roundtrip_zero_padded(
    enc: DynEncoding,
    v: ValueModel,
    info: FieldInfo,
    trim: TrimOption,
    memo: Option<MemoReader>,
)
    requires
        utf8_writer(enc),
        value_fits_zero_padded(enc, v, info),
        trim != TrimOption::Begin,
    ensures
        spec_written_value(enc, v, info.field_type) is Ok,
        spec_written_value(enc, v, info.field_type)->Ok_0.len() <= info.field_length,
        spec_read_field(
            enc,
            spec_written_value(enc, v, info.field_type)->Ok_0 + repeat_byte(
                0,
                (info.field_length - spec_written_value(enc, v, info.field_type)->Ok_0.len()) as nat,
            ),
            info.field_type,
            info.field_length,
            trim,
            memo,
        ) == Ok::<ValueModel, crate::value::ReadFailure>(v),
{
    let len = info.field_length as int;
    let w = spec_written_value(enc, v, info.field_type)->Ok_0;
    let p = w + repeat_byte(0, (len - w.len()) as nat);
    match v {
        ValueModel::Character(t) => {
            if t is None {
                assert(w =~= Seq::<u8>::empty());
            }
            lemma_trim_zero_padded(w, (len - w.len()) as nat, trim);
        },
        ValueModel::Numeric(t) => {
            if t is None {
                assert(w =~= Seq::<u8>::empty());
            }
            lemma_trim_zero_padded(w, (len - w.len()) as nat, TrimOption::BeginEnd);
        },
        ValueModel::Float(t) => {
            if t is None {
                assert(w =~= Seq::<u8>::empty());
            }
            lemma_trim_zero_padded(w, (len - w.len()) as nat, TrimOption::BeginEnd);
        },
        ValueModel::Logical(b) => {
            match b {
                None => {
                    assert(w =~= Seq::<u8>::empty());
                    assert(p[0] == 0);
                },
                Some(b) => {
                    let c = if b { seq!['t'] } else { seq!['f'] };
                    lemma_utf8_writer_encode(enc, c);
                    vstd::utf8::is_ascii_chars_encode_utf8(c);
                    assert(encode_utf8(c).len() == 1);
                    assert(encode_utf8(c)[0] == c[0] as u8);
                    assert(p[0] == w[0]);
                },
            }
        },
        ValueModel::Date(d) => {
            match d {
                None => {
                    assert(w.len() == 8);
                    lemma_trim_zero_padded(w, (len - 8) as nat, TrimOption::BeginEnd);
                },
                Some(d) => {
                    lemma_date_text_zero_padded(enc, d, info, trim, memo);
                },
            }
        },
        ValueModel::Integer(i) => {
            let u = unsigned32(i as int) as u32;
            assert(w == le_bytes32(u as int));
            assert(p.subrange(0, 4) =~= le_bytes32(u as int));
            lemma_le32_roundtrip(u, p, 0);
        },
        ValueModel::Currency(bits) => {
            assert(p.subrange(0, 8) =~= le_bytes64(bits as int));
            lemma_le64_roundtrip(bits, p, 0);
        },
        ValueModel::Double(bits) => {
            assert(p.subrange(0, 8) =~= le_bytes64(bits as int));
            lemma_le64_roundtrip(bits, p, 0);
        },
        ValueModel::DateTime(dt) => {
            lemma_date_time_zero_padded(enc, dt, info, trim, memo);
        },
        ValueModel::Memo(_) => {},
    }
}

proof fn lemma_date_text_zero_padded(
    enc: DynEncoding,
    d: Date,
    info: FieldInfo,
    trim: TrimOption,
    memo: Option<MemoReader>,
)
    requires
        utf8_writer(enc),
        d.year <= 9999,
        d.month <= 99,
        d.day <= 99,
        info.field_length >= 8,
        info.field_type == FieldType::Date,
    ensures
        spec_written_value(enc, ValueModel::Date(Some(d)), info.field_type) == Ok::<Seq<u8>, crate::value::WriteFailure>(spec_date_text(d)),
        spec_date_text(d).len() == 8,
        spec_read_field(
            enc,
            spec_date_text(d) + repeat_byte(0, (info.field_length - 8) as nat),
            info.field_type,
            info.field_length,
            TrimOption::BeginEnd,
            memo,
        ) == Ok::<ValueModel, crate::value::ReadFailure>(ValueModel::Date(Some(d))),
        spec_read_field(
            enc,
            spec_date_text(d) + repeat_byte(0, (info.field_length - 8) as nat),
            info.field_type,
            info.field_length,
            trim,
            memo,
        ) == Ok::<ValueModel, crate::value::ReadFailure>(ValueModel::Date(Some(d))),
{
    let text = spec_date_text(d);
    lemma_decimal_digits_value(d.year as nat);
    lemma_decimal_digits_value(d.month as nat);
    lemma_decimal_digits_value(d.day as nat);
    lemma_parse_padded(d.year as nat, 4);
    lemma_parse_padded(d.month as nat, 2);
    lemma_parse_padded(d.day as nat, 2);
    lemma_date_text_ascii(d);
    assert forall|i: int| 0 <= i < text.len() implies text[i] != 0 && text[i] != 32 && text[i] < 128 by {
        assert(is_digit(text[i]));
    }
    lemma_ascii_is_utf8(text);
    lemma_utf8_writer_encode(enc, ascii_chars(text));
    lemma_trim_zero_padded(text, (info.field_length - 8) as nat, TrimOption::BeginEnd);
    lemma_utf8_writer_decode_ascii(enc, text);
    assert(text.subrange(0, 4) =~= padded_decimal(d.year as nat, 4));
    assert(text.subrange(4, 6) =~= padded_decimal(d.month as nat, 2));
    assert(text.subrange(6, 8) =~= padded_decimal(d.day as nat, 2));
}
} // verus!
