//! Encodings of the `encoding_rs` crate (the WHATWG Encoding Standard),
//! chosen by label or by the name found in a `.cpg` file.

use crate::encoding::{AsCodePageMark, DynEncoding};
use crate::error::{DecodeError, EncodeError};
use crate::header::CodePageMark;
use crate::message::{decimal_digits, decimal_text};
use encoding_rs::Encoding as WebEncoding;
use vstd::prelude::*;
use vstd::string::StrSliceExecFns;

verus! {

#[verifier::external_type_specification]
#[verifier::external_body]
pub struct ExWebEncoding(WebEncoding);

/// Whether `encoding_rs::Encoding::for_label` knows the label.
pub uninterp spec fn label_is_known(label: Seq<char>) -> bool;

/// What `encoding_rs::Encoding::decode` returns, for the encoding of the
/// given label, on the given bytes: the text, and whether malformed
/// sequences were met.
pub uninterp spec fn label_decoded(label: Seq<char>, bytes: Seq<u8>) -> (Seq<char>, bool);

/// What `encoding_rs::Encoding::encode` returns, for the encoding of the
/// given label, on the given text: the bytes, and whether unmappable
/// characters were met.
pub uninterp spec fn label_encoded(label: Seq<char>, text: Seq<char>) -> (Seq<u8>, bool);

/// What `codepage::from_encoding` returns for the encoding of the given
/// label: its preferred Windows code page identifier.
pub uninterp spec fn label_code_page(label: Seq<char>) -> Option<u16>;

/// An encoding of the `encoding_rs` crate, known by one of its labels.
///
/// Only `web_for_label` and `web_gbk` make one, so its encoding is always
/// the one that its label names: the contracts of `web_decode`,
/// `web_encode` and `web_code_page` rest on that.
#[derive(Copy, Clone, Debug)]
pub struct EncodingRs {
    inner: &'static WebEncoding,
    label: &'static str,
}

/// `encoding_rs::Encoding::for_label`: the encoding that the label names,
/// `None` for an unknown label. The result keeps the label beside the
/// encoding it names.
#[verifier::external_body]
fn web_for_label(label: &'static str) -> (r: Option<EncodingRs>)
    ensures
        r is Some <==> label_is_known(label@),
        r matches Some(e) ==> e.spec_label() == label@,
{
    match WebEncoding::for_label(label.as_bytes()) {
        Some(inner) => Some(EncodingRs { inner, label }),
        None => None,
    }
}

/// `encoding_rs::GBK`, the encoding of the label `gbk`.
#[verifier::external_body]
pub(crate) fn web_gbk() -> (r: EncodingRs)
    ensures
        r.spec_label() == "gbk"@,
{
    EncodingRs { inner: encoding_rs::GBK, label: "gbk" }
}

/// `encoding_rs::Encoding::decode` (made owned): the decoded text and
/// whether malformed sequences were met, as named by `label_decoded`.
#[verifier::external_body]
pub(crate) fn web_decode(e: &EncodingRs, bytes: &[u8]) -> (r: (String, bool))
    ensures
        (r.0@, r.1) == label_decoded(e.spec_label(), bytes@),
{
    let (cow, _, had_errors) = e.inner.decode(bytes);
    (cow.into_owned(), had_errors)
}

/// `encoding_rs::Encoding::encode` (made owned): the encoded bytes and
/// whether unmappable characters were met, as named by `label_encoded`.
#[verifier::external_body]
pub(crate) fn web_encode(e: &EncodingRs, s: &str) -> (r: (Vec<u8>, bool))
    ensures
        (r.0@, r.1) == label_encoded(e.spec_label(), s@),
{
    let (cow, _, had_errors) = e.inner.encode(s);
    (cow.into_owned(), had_errors)
}

/// `codepage::from_encoding`: the preferred Windows code page identifier of
/// the encoding, as named by `label_code_page`.
#[verifier::external_body]
fn web_code_page(e: &EncodingRs) -> (r: Option<u16>)
    ensures
        r == label_code_page(e.spec_label()),
{
    codepage::from_encoding(e.inner)
}

impl EncodingRs {
    /// The label this encoding was found by.
    pub closed spec fn spec_label(&self) -> Seq<char> {
        self.label@
    }

    /// The encoding that a label of the Encoding Standard names, `None` for
    /// an unknown label.
    pub fn from_label(label: &'static str) -> (r: Option<EncodingRs>)
        ensures
            r is Some <==> label_is_known(label@),
            r matches Some(e) ==> e.spec_label() == label@,
    {
        web_for_label(label)
    }
}

/// The code page mark written for a Windows code page identifier; UTF-8 for
/// one that has no mark of its own, or for none.
pub open spec fn mark_of_code_page(code_page: Option<u16>) -> CodePageMark {
    match code_page {
        Some(1252) => CodePageMark::CP1252,
        Some(866) => CodePageMark::CP866,
        Some(874) => CodePageMark::CP874,
        Some(1255) => CodePageMark::CP1255,
        Some(1256) => CodePageMark::CP1256,
        Some(1250) => CodePageMark::CP1250,
        Some(1251) => CodePageMark::CP1251,
        Some(1254) => CodePageMark::CP1254,
        Some(1253) => CodePageMark::CP1253,
        Some(65001) => CodePageMark::Utf8,
        Some(950) => CodePageMark::CP950,
        Some(949) => CodePageMark::CP949,
        Some(936) => CodePageMark::CP936,
        Some(932) => CodePageMark::CP932,
        _ => CodePageMark::Utf8,
    }
}

/// The mark of the encoding's preferred code page. The replacement and
/// x-user-defined encodings have no code page and get the UTF-8 mark.
impl AsCodePageMark for EncodingRs {
    open spec fn spec_code_page_mark(&self) -> CodePageMark {
        mark_of_code_page(label_code_page(self.spec_label()))
    }

    fn code_page_mark(&self) -> (r: CodePageMark) {
        match web_code_page(self) {
            Some(1252) => CodePageMark::CP1252,
            Some(866) => CodePageMark::CP866,
            Some(874) => CodePageMark::CP874,
            Some(1255) => CodePageMark::CP1255,
            Some(1256) => CodePageMark::CP1256,
            Some(1250) => CodePageMark::CP1250,
            Some(1251) => CodePageMark::CP1251,
            Some(1254) => CodePageMark::CP1254,
            Some(1253) => CodePageMark::CP1253,
            Some(65001) => CodePageMark::Utf8,
            Some(950) => CodePageMark::CP950,
            Some(949) => CodePageMark::CP949,
            Some(936) => CodePageMark::CP936,
            Some(932) => CodePageMark::CP932,
            _ => CodePageMark::Utf8,
        }
    }
}

/// Decoding never fails: malformed sequences become U+FFFD; encoding never
/// fails either: unmappable characters become numeric character references.
impl crate::encoding::Encoding for EncodingRs {
    open spec fn spec_decode(&self, bytes: Seq<u8>) -> Option<Seq<char>> {
        Some(label_decoded(self.spec_label(), bytes).0)
    }

    open spec fn spec_encode(&self, text: Seq<char>) -> Option<Seq<u8>> {
        Some(label_encoded(self.spec_label(), text).0)
    }

    fn decode(&self, bytes: &[u8]) -> (r: Result<String, DecodeError>) {
        let (text, _) = web_decode(self, bytes);
        Ok(text)
    }

    fn encode(&self, s: &str) -> (r: Result<Vec<u8>, EncodeError>) {
        let (bytes, _) = web_encode(self, s);
        Ok(bytes)
    }
}

/// Whether `c` has the Unicode `White_Space` property, the whitespace that
/// `str::trim` removes.
pub open spec fn is_white_space(c: char) -> bool {
    let u = c as u32;
    ||| 0x09 <= u <= 0x0d
    ||| u == 0x20
    ||| u == 0x85
    ||| u == 0xa0
    ||| u == 0x1680
    ||| 0x2000 <= u <= 0x200a
    ||| u == 0x2028
    ||| u == 0x2029
    ||| u == 0x202f
    ||| u == 0x205f
    ||| u == 0x3000
}

/// The first index at or after `i` whose character is not whitespace, or
/// the length.
pub open spec fn skip_white(s: Seq<char>, i: int) -> int
    decreases s.len() - i,
{
    if i < 0 || i >= s.len() || !is_white_space(s[i]) {
        i
    } else {
        skip_white(s, i + 1)
    }
}

/// The end of `s.subrange(0, j)` once its trailing whitespace is dropped.
pub open spec fn back_white(s: Seq<char>, j: int) -> int
    decreases j,
{
    if j <= 0 || j > s.len() || !is_white_space(s[j - 1]) {
        j
    } else {
        back_white(s, j - 1)
    }
}

/// The first index at or after `i` whose character is not U+FEFF, or the
/// length.
pub open spec fn skip_byte_order_marks(s: Seq<char>, i: int) -> int
    decreases s.len() - i,
{
    if i < 0 || i >= s.len() || s[i] != '\u{feff}' {
        i
    } else {
        skip_byte_order_marks(s, i + 1)
    }
}

/// `s` without its leading and trailing whitespace.
pub open spec fn trim_white(s: Seq<char>) -> Seq<char> {
    let a = skip_white(s, 0);
    if a >= s.len() {
        Seq::empty()
    } else {
        s.subrange(a, back_white(s, s.len() as int))
    }
}

/// The ASCII upper case of a character; other characters stay.
pub open spec fn ascii_upper(c: char) -> char {
    if 'a' <= c && c <= 'z' {
        ((c as u8) - 32) as u8 as char
    } else {
        c
    }
}

/// A name as it is looked up: trimmed, without leading byte order marks,
/// in ASCII upper case.
pub open spec fn normalized_name(name: Seq<char>) -> Seq<char> {
    let t = trim_white(name);
    t.subrange(skip_byte_order_marks(t, 0), t.len() as int).map_values(|c: char| ascii_upper(c))
}

fn is_white_space_char(c: char) -> (r: bool)
    ensures
        r == is_white_space(c),
{
    let u = c as u32;
    (0x09 <= u && u <= 0x0d) || u == 0x20 || u == 0x85 || u == 0xa0 || u == 0x1680 || (0x2000
        <= u && u <= 0x200a) || u == 0x2028 || u == 0x2029 || u == 0x202f || u == 0x205f || u
        == 0x3000
}

fn ascii_upper_char(c: char) -> (r: char)
    ensures
        r == ascii_upper(c),
{
    if 'a' <= c && c <= 'z' {
        ((c as u8) - 32) as char
    } else {
        c
    }
}

/// The characters of a string.
pub(crate) fn str_chars(s: &str) -> (r: Vec<char>)
    ensures
        r@ == s@,
{
    let n = s.unicode_len();
    let mut v: Vec<char> = Vec::new();
    let mut i: usize = 0;
    while i < n
        invariant
            n == s@.len(),
            0 <= i <= n,
            v@ == s@.subrange(0, i as int),
        decreases n - i,
    {
        v.push(s.get_char(i));
        assert(v@ =~= s@.subrange(0, i + 1));
        i = i + 1;
    }
    assert(v@ =~= s@);
    v
}

/// Whether the characters are those of the string.
pub(crate) fn chars_eq(v: &Vec<char>, s: &str) -> (r: bool)
    ensures
        r == (v@ == s@),
{
    let n = s.unicode_len();
    if v.len() != n {
        return false;
    }
    let mut i: usize = 0;
    while i < n
        invariant
            n == s@.len(),
            v@.len() == n,
            0 <= i <= n,
            forall|k: int| 0 <= k < i ==> v@[k] == s@[k],
        decreases n - i,
    {
        if v[i] != s.get_char(i) {
            return false;
        }
        i = i + 1;
    }
    assert(v@ =~= s@);
    true
}

/// The characters of a name as it is looked up.
fn normalize_name(name: &str) -> (r: Vec<char>)
    ensures
        r@ == normalized_name(name@),
{
    let s = str_chars(name);
    let n = s.len();
    let mut a: usize = 0;
    while a < n && is_white_space_char(s[a])
        invariant
            n == s@.len(),
            0 <= a <= n,
            skip_white(s@, a as int) == skip_white(s@, 0),
        decreases n - a,
    {
        a = a + 1;
    }
    let mut t: Vec<char> = Vec::new();
    if a < n {
        let mut b: usize = n;
        while b > 0 && is_white_space_char(s[b - 1])
            invariant
                n == s@.len(),
                a < n,
                !is_white_space(s@[a as int]),
                a < b <= n,
                back_white(s@, b as int) == back_white(s@, n as int),
            decreases b,
        {
            b = b - 1;
        }
        let mut i: usize = a;
        while i < b
            invariant
                n == s@.len(),
                a <= i <= b <= n,
                t@ == s@.subrange(a as int, i as int),
            decreases b - i,
        {
            t.push(s[i]);
            assert(t@ =~= s@.subrange(a as int, i + 1));
            i = i + 1;
        }
    }
    assert(t@ =~= trim_white(s@));
    let m = t.len();
    let mut c: usize = 0;
    while c < m && t[c] == '\u{feff}'
        invariant
            m == t@.len(),
            0 <= c <= m,
            skip_byte_order_marks(t@, c as int) == skip_byte_order_marks(t@, 0),
        decreases m - c,
    {
        c = c + 1;
    }
    let ghost rest = t@.subrange(c as int, m as int);
    let mut r: Vec<char> = Vec::new();
    let mut i: usize = c;
    while i < m
        invariant
            m == t@.len(),
            c <= i <= m,
            rest == t@.subrange(c as int, m as int),
            r@ == rest.subrange(0, i - c).map_values(|x: char| ascii_upper(x)),
        decreases m - i,
    {
        let u = ascii_upper_char(t[i]);
        r.push(u);
        assert(r@ =~= rest.subrange(0, i + 1 - c).map_values(|x: char| ascii_upper(x)));
        i = i + 1;
    }
    assert(r@ =~= rest.map_values(|x: char| ascii_upper(x)));
    r
}

/// The label of the encoding that a code page name (in upper case) stands
/// for; `LATIN1` is read as Windows-1252, its superset.
pub open spec fn code_page_label(u: Seq<char>) -> Option<Seq<char>> {
    if u == "UTF-8"@ || u == "65001"@ {
        Some("utf-8"@)
    } else if u == "932"@ || u == "CP932"@ || u == "SHIFT_JIS"@ || u == "SJIS"@ {
        Some("shift_jis"@)
    } else if u == "936"@ || u == "CP936"@ || u == "GBK"@ {
        Some("gbk"@)
    } else if u == "949"@ || u == "CP949"@ || u == "EUC-KR"@ {
        Some("euc-kr"@)
    } else if u == "BIG5"@ || u == "BIG-5"@ {
        Some("big5"@)
    } else if u == "LATIN1"@ {
        Some("windows-1252"@)
    } else if u == "866"@ || u == "CP866"@ {
        Some("ibm866"@)
    } else if u == "874"@ || u == "CP874"@ {
        Some("windows-874"@)
    } else if u == "1255"@ || u == "CP1255"@ {
        Some("windows-1255"@)
    } else if u == "1256"@ || u == "CP1256"@ {
        Some("windows-1256"@)
    } else if u == "1250"@ || u == "CP1250"@ {
        Some("windows-1250"@)
    } else if u == "1251"@ || u == "CP1251"@ || u == "ANSI 1251"@ {
        Some("windows-1251"@)
    } else if u == "1252"@ || u == "CP1252"@ {
        Some("windows-1252"@)
    } else if u == "1254"@ || u == "CP1254"@ {
        Some("windows-1254"@)
    } else if u == "1253"@ || u == "CP1253"@ {
        Some("windows-1253"@)
    } else {
        None
    }
}

/// The label of the encoding that an ISO-8859 name (in upper case) stands
/// for; parts 1 and 9 are read as their Windows supersets.
pub open spec fn iso_label(u: Seq<char>) -> Option<Seq<char>> {
    if u == "ISO-8859-1"@ || u == "8859-1"@ || u == "88591"@ {
        Some("windows-1252"@)
    } else if u == "ISO-8859-2"@ || u == "8859-2"@ || u == "88592"@ {
        Some("iso-8859-2"@)
    } else if u == "ISO-8859-3"@ || u == "8859-3"@ || u == "88593"@ {
        Some("iso-8859-3"@)
    } else if u == "ISO-8859-4"@ || u == "8859-4"@ || u == "88594"@ {
        Some("iso-8859-4"@)
    } else if u == "ISO-8859-5"@ || u == "8859-5"@ || u == "88595"@ {
        Some("iso-8859-5"@)
    } else if u == "ISO-8859-6"@ || u == "8859-6"@ || u == "88596"@ {
        Some("iso-8859-6"@)
    } else if u == "ISO-8859-7"@ || u == "8859-7"@ || u == "88597"@ {
        Some("iso-8859-7"@)
    } else if u == "ISO-8859-8"@ || u == "8859-8"@ || u == "88598"@ {
        Some("iso-8859-8"@)
    } else if u == "ISO-8859-9"@ || u == "8859-9"@ || u == "88599"@ {
        Some("windows-1254"@)
    } else if u == "ISO-8859-10"@ || u == "8859-10"@ || u == "885910"@ {
        Some("iso-8859-10"@)
    } else if u == "ISO-8859-13"@ || u == "8859-13"@ || u == "885913"@ {
        Some("iso-8859-13"@)
    } else if u == "ISO-8859-14"@ || u == "8859-14"@ || u == "885914"@ {
        Some("iso-8859-14"@)
    } else if u == "ISO-8859-15"@ || u == "8859-15"@ || u == "885915"@ {
        Some("iso-8859-15"@)
    } else if u == "ISO-8859-16"@ || u == "8859-16"@ || u == "885916"@ {
        Some("iso-8859-16"@)
    } else {
        None
    }
}

/// The label of the encoding that a name found in a `.cpg` file stands
/// for, once normalized.
pub open spec fn label_for_name(u: Seq<char>) -> Option<Seq<char>> {
    match code_page_label(u) {
        Some(l) => Some(l),
        None => iso_label(u),
    }
}

fn code_page_label_of(u: &Vec<char>) -> (r: Option<&'static str>)
    ensures
        r is Some <==> code_page_label(u@) is Some,
        r matches Some(l) ==> code_page_label(u@) == Some(l@),
{
    if chars_eq(u, "UTF-8") || chars_eq(u, "65001") {
        Some("utf-8")
    } else if chars_eq(u, "932") || chars_eq(u, "CP932") || chars_eq(u, "SHIFT_JIS") || chars_eq(u, "SJIS") {
        Some("shift_jis")
    } else if chars_eq(u, "936") || chars_eq(u, "CP936") || chars_eq(u, "GBK") {
        Some("gbk")
    } else if chars_eq(u, "949") || chars_eq(u, "CP949") || chars_eq(u, "EUC-KR") {
        Some("euc-kr")
    } else if chars_eq(u, "BIG5") || chars_eq(u, "BIG-5") {
        Some("big5")
    } else if chars_eq(u, "LATIN1") {
        Some("windows-1252")
    } else if chars_eq(u, "866") || chars_eq(u, "CP866") {
        Some("ibm866")
    } else if chars_eq(u, "874") || chars_eq(u, "CP874") {
        Some("windows-874")
    } else if chars_eq(u, "1255") || chars_eq(u, "CP1255") {
        Some("windows-1255")
    } else if chars_eq(u, "1256") || chars_eq(u, "CP1256") {
        Some("windows-1256")
    } else if chars_eq(u, "1250") || chars_eq(u, "CP1250") {
        Some("windows-1250")
    } else if chars_eq(u, "1251") || chars_eq(u, "CP1251") || chars_eq(u, "ANSI 1251") {
        Some("windows-1251")
    } else if chars_eq(u, "1252") || chars_eq(u, "CP1252") {
        Some("windows-1252")
    } else if chars_eq(u, "1254") || chars_eq(u, "CP1254") {
        Some("windows-1254")
    } else if chars_eq(u, "1253") || chars_eq(u, "CP1253") {
        Some("windows-1253")
    } else {
        None
    }
}

fn iso_label_of(u: &Vec<char>) -> (r: Option<&'static str>)
    ensures
        r is Some <==> iso_label(u@) is Some,
        r matches Some(l) ==> iso_label(u@) == Some(l@),
{
    if chars_eq(u, "ISO-8859-1") || chars_eq(u, "8859-1") || chars_eq(u, "88591") {
        Some("windows-1252")
    } else if chars_eq(u, "ISO-8859-2") || chars_eq(u, "8859-2") || chars_eq(u, "88592") {
        Some("iso-8859-2")
    } else if chars_eq(u, "ISO-8859-3") || chars_eq(u, "8859-3") || chars_eq(u, "88593") {
        Some("iso-8859-3")
    } else if chars_eq(u, "ISO-8859-4") || chars_eq(u, "8859-4") || chars_eq(u, "88594") {
        Some("iso-8859-4")
    } else if chars_eq(u, "ISO-8859-5") || chars_eq(u, "8859-5") || chars_eq(u, "88595") {
        Some("iso-8859-5")
    } else if chars_eq(u, "ISO-8859-6") || chars_eq(u, "8859-6") || chars_eq(u, "88596") {
        Some("iso-8859-6")
    } else if chars_eq(u, "ISO-8859-7") || chars_eq(u, "8859-7") || chars_eq(u, "88597") {
        Some("iso-8859-7")
    } else if chars_eq(u, "ISO-8859-8") || chars_eq(u, "8859-8") || chars_eq(u, "88598") {
        Some("iso-8859-8")
    } else if chars_eq(u, "ISO-8859-9") || chars_eq(u, "8859-9") || chars_eq(u, "88599") {
        Some("windows-1254")
    } else if chars_eq(u, "ISO-8859-10") || chars_eq(u, "8859-10") || chars_eq(u, "885910") {
        Some("iso-8859-10")
    } else if chars_eq(u, "ISO-8859-13") || chars_eq(u, "8859-13") || chars_eq(u, "885913") {
        Some("iso-8859-13")
    } else if chars_eq(u, "ISO-8859-14") || chars_eq(u, "8859-14") || chars_eq(u, "885914") {
        Some("iso-8859-14")
    } else if chars_eq(u, "ISO-8859-15") || chars_eq(u, "8859-15") || chars_eq(u, "885915") {
        Some("iso-8859-15")
    } else if chars_eq(u, "ISO-8859-16") || chars_eq(u, "8859-16") || chars_eq(u, "885916") {
        Some("iso-8859-16")
    } else {
        None
    }
}

impl DynEncoding {
    /// The encoding that a name, such as the content of a `.cpg` file, stands
    /// for: the name is trimmed, stripped of leading byte order marks and
    /// compared in upper case with the names of code pages and ISO-8859
    /// parts. `None` for an unknown name.
    pub fn from_name(name: &str) -> (r: Option<DynEncoding>)
        ensures
            ({
                let u = normalized_name(name@);
                match label_for_name(u) {
                    None => r is None,
                    Some(l) => {
                        &&& (r is Some <==> label_is_known(l))
                        &&& (r matches Some(d) ==> (d matches DynEncoding::EncodingRs(e)
                            && e.spec_label() == l))
                    },
                }
            }),
    {
        let upper = normalize_name(name);
        let label = match code_page_label_of(&upper) {
            Some(l) => Some(l),
            None => iso_label_of(&upper),
        };
        match label {
            Some(l) => match EncodingRs::from_label(l) {
                Some(e) => Some(DynEncoding::EncodingRs(e)),
                None => None,
            },
            None => None,
        }
    }
}

/// The ISO-8859 names stand for their encodings: a part number `n` of
/// ISO-8859 (2 to 8, 10, 13 to 16), written as `ISO-8859-n`, `8859-n` or
/// `8859n`, names the encoding labelled `iso-8859-n`; part 1 names
/// Windows-1252 and part 9 Windows-1254, their supersets.
pub proof fn lemma_iso_names(n: int)
    ensures
        ({
            let t = decimal_text(n);
            let forms = seq!["ISO-8859-"@ + t, "8859-"@ + t, "8859"@ + t];
            &&& (2 <= n <= 8 || n == 10 || 13 <= n <= 16) ==> forall|i: int|
                0 <= i < 3 ==> label_for_name(#[trigger] forms[i]) == Some("iso-8859-"@ + t)
            &&& n == 1 ==> forall|i: int| 0 <= i < 3 ==> label_for_name(#[trigger] forms[i]) == Some("windows-1252"@)
            &&& n == 9 ==> forall|i: int| 0 <= i < 3 ==> label_for_name(#[trigger] forms[i]) == Some("windows-1254"@)
        }),
{
    reveal_with_fuel(decimal_digits, 3);
    reveal_strlit("ISO-8859-");
    reveal_strlit("8859-");
    reveal_strlit("8859");
    reveal_strlit("iso-8859-");
    lemma_iso_labels_low();
    lemma_iso_labels_high();
    if n == 1 {
        reveal_strlit("1");
        reveal_strlit("ISO-8859-1");
        reveal_strlit("8859-1");
        reveal_strlit("88591");
        assert(decimal_text(1) =~= "1"@);
        assert("ISO-8859-"@ + decimal_text(1) =~= "ISO-8859-1"@);
        lemma_not_code_page_name("ISO-8859-1"@);
        assert("8859-"@ + decimal_text(1) =~= "8859-1"@);
        lemma_not_code_page_name("8859-1"@);
        assert("8859"@ + decimal_text(1) =~= "88591"@);
        lemma_not_code_page_name("88591"@);
    } else if n == 2 {
        reveal_strlit("2");
        reveal_strlit("ISO-8859-2");
        reveal_strlit("8859-2");
        reveal_strlit("88592");
        reveal_strlit("iso-8859-2");
        assert(decimal_text(2) =~= "2"@);
        assert("ISO-8859-"@ + decimal_text(2) =~= "ISO-8859-2"@);
        lemma_not_code_page_name("ISO-8859-2"@);
        assert("8859-"@ + decimal_text(2) =~= "8859-2"@);
        lemma_not_code_page_name("8859-2"@);
        assert("8859"@ + decimal_text(2) =~= "88592"@);
        lemma_not_code_page_name("88592"@);
        assert("iso-8859-"@ + decimal_text(2) =~= "iso-8859-2"@);
    } else if n == 3 {
        reveal_strlit("3");
        reveal_strlit("ISO-8859-3");
        reveal_strlit("8859-3");
        reveal_strlit("88593");
        reveal_strlit("iso-8859-3");
        assert(decimal_text(3) =~= "3"@);
        assert("ISO-8859-"@ + decimal_text(3) =~= "ISO-8859-3"@);
        lemma_not_code_page_name("ISO-8859-3"@);
        assert("8859-"@ + decimal_text(3) =~= "8859-3"@);
        lemma_not_code_page_name("8859-3"@);
        assert("8859"@ + decimal_text(3) =~= "88593"@);
        lemma_not_code_page_name("88593"@);
        assert("iso-8859-"@ + decimal_text(3) =~= "iso-8859-3"@);
    } else if n == 4 {
        reveal_strlit("4");
        reveal_strlit("ISO-8859-4");
        reveal_strlit("8859-4");
        reveal_strlit("88594");
        reveal_strlit("iso-8859-4");
        assert(decimal_text(4) =~= "4"@);
        assert("ISO-8859-"@ + decimal_text(4) =~= "ISO-8859-4"@);
        lemma_not_code_page_name("ISO-8859-4"@);
        assert("8859-"@ + decimal_text(4) =~= "8859-4"@);
        lemma_not_code_page_name("8859-4"@);
        assert("8859"@ + decimal_text(4) =~= "88594"@);
        lemma_not_code_page_name("88594"@);
        assert("iso-8859-"@ + decimal_text(4) =~= "iso-8859-4"@);
    } else if n == 5 {
        reveal_strlit("5");
        reveal_strlit("ISO-8859-5");
        reveal_strlit("8859-5");
        reveal_strlit("88595");
        reveal_strlit("iso-8859-5");
        assert(decimal_text(5) =~= "5"@);
        assert("ISO-8859-"@ + decimal_text(5) =~= "ISO-8859-5"@);
        lemma_not_code_page_name("ISO-8859-5"@);
        assert("8859-"@ + decimal_text(5) =~= "8859-5"@);
        lemma_not_code_page_name("8859-5"@);
        assert("8859"@ + decimal_text(5) =~= "88595"@);
        lemma_not_code_page_name("88595"@);
        assert("iso-8859-"@ + decimal_text(5) =~= "iso-8859-5"@);
    } else if n == 6 {
        reveal_strlit("6");
        reveal_strlit("ISO-8859-6");
        reveal_strlit("8859-6");
        reveal_strlit("88596");
        reveal_strlit("iso-8859-6");
        assert(decimal_text(6) =~= "6"@);
        assert("ISO-8859-"@ + decimal_text(6) =~= "ISO-8859-6"@);
        lemma_not_code_page_name("ISO-8859-6"@);
        assert("8859-"@ + decimal_text(6) =~= "8859-6"@);
        lemma_not_code_page_name("8859-6"@);
        assert("8859"@ + decimal_text(6) =~= "88596"@);
        lemma_not_code_page_name("88596"@);
        assert("iso-8859-"@ + decimal_text(6) =~= "iso-8859-6"@);
    } else if n == 7 {
        reveal_strlit("7");
        reveal_strlit("ISO-8859-7");
        reveal_strlit("8859-7");
        reveal_strlit("88597");
        reveal_strlit("iso-8859-7");
        assert(decimal_text(7) =~= "7"@);
        assert("ISO-8859-"@ + decimal_text(7) =~= "ISO-8859-7"@);
        lemma_not_code_page_name("ISO-8859-7"@);
        assert("8859-"@ + decimal_text(7) =~= "8859-7"@);
        lemma_not_code_page_name("8859-7"@);
        assert("8859"@ + decimal_text(7) =~= "88597"@);
        lemma_not_code_page_name("88597"@);
        assert("iso-8859-"@ + decimal_text(7) =~= "iso-8859-7"@);
    } else if n == 8 {
        reveal_strlit("8");
        reveal_strlit("ISO-8859-8");
        reveal_strlit("8859-8");
        reveal_strlit("88598");
        reveal_strlit("iso-8859-8");
        assert(decimal_text(8) =~= "8"@);
        assert("ISO-8859-"@ + decimal_text(8) =~= "ISO-8859-8"@);
        lemma_not_code_page_name("ISO-8859-8"@);
        assert("8859-"@ + decimal_text(8) =~= "8859-8"@);
        lemma_not_code_page_name("8859-8"@);
        assert("8859"@ + decimal_text(8) =~= "88598"@);
        lemma_not_code_page_name("88598"@);
        assert("iso-8859-"@ + decimal_text(8) =~= "iso-8859-8"@);
    } else if n == 9 {
        reveal_strlit("9");
        reveal_strlit("ISO-8859-9");
        reveal_strlit("8859-9");
        reveal_strlit("88599");
        assert(decimal_text(9) =~= "9"@);
        assert("ISO-8859-"@ + decimal_text(9) =~= "ISO-8859-9"@);
        lemma_not_code_page_name("ISO-8859-9"@);
        assert("8859-"@ + decimal_text(9) =~= "8859-9"@);
        lemma_not_code_page_name("8859-9"@);
        assert("8859"@ + decimal_text(9) =~= "88599"@);
        lemma_not_code_page_name("88599"@);
    } else if n == 10 {
        reveal_strlit("10");
        reveal_strlit("ISO-8859-10");
        reveal_strlit("8859-10");
        reveal_strlit("885910");
        reveal_strlit("iso-8859-10");
        assert(decimal_text(10) =~= "10"@);
        assert("ISO-8859-"@ + decimal_text(10) =~= "ISO-8859-10"@);
        lemma_not_code_page_name("ISO-8859-10"@);
        assert("8859-"@ + decimal_text(10) =~= "8859-10"@);
        lemma_not_code_page_name("8859-10"@);
        assert("8859"@ + decimal_text(10) =~= "885910"@);
        lemma_not_code_page_name("885910"@);
        assert("iso-8859-"@ + decimal_text(10) =~= "iso-8859-10"@);
    } else if n == 13 {
        reveal_strlit("13");
        reveal_strlit("ISO-8859-13");
        reveal_strlit("8859-13");
        reveal_strlit("885913");
        reveal_strlit("iso-8859-13");
        assert(decimal_text(13) =~= "13"@);
        assert("ISO-8859-"@ + decimal_text(13) =~= "ISO-8859-13"@);
        lemma_not_code_page_name("ISO-8859-13"@);
        assert("8859-"@ + decimal_text(13) =~= "8859-13"@);
        lemma_not_code_page_name("8859-13"@);
        assert("8859"@ + decimal_text(13) =~= "885913"@);
        lemma_not_code_page_name("885913"@);
        assert("iso-8859-"@ + decimal_text(13) =~= "iso-8859-13"@);
    } else if n == 14 {
        reveal_strlit("14");
        reveal_strlit("ISO-8859-14");
        reveal_strlit("8859-14");
        reveal_strlit("885914");
        reveal_strlit("iso-8859-14");
        assert(decimal_text(14) =~= "14"@);
        assert("ISO-8859-"@ + decimal_text(14) =~= "ISO-8859-14"@);
        lemma_not_code_page_name("ISO-8859-14"@);
        assert("8859-"@ + decimal_text(14) =~= "8859-14"@);
        lemma_not_code_page_name("8859-14"@);
        assert("8859"@ + decimal_text(14) =~= "885914"@);
        lemma_not_code_page_name("885914"@);
        assert("iso-8859-"@ + decimal_text(14) =~= "iso-8859-14"@);
    } else if n == 15 {
        reveal_strlit("15");
        reveal_strlit("ISO-8859-15");
        reveal_strlit("8859-15");
        reveal_strlit("885915");
        reveal_strlit("iso-8859-15");
        assert(decimal_text(15) =~= "15"@);
        assert("ISO-8859-"@ + decimal_text(15) =~= "ISO-8859-15"@);
        lemma_not_code_page_name("ISO-8859-15"@);
        assert("8859-"@ + decimal_text(15) =~= "8859-15"@);
        lemma_not_code_page_name("8859-15"@);
        assert("8859"@ + decimal_text(15) =~= "885915"@);
        lemma_not_code_page_name("885915"@);
        assert("iso-8859-"@ + decimal_text(15) =~= "iso-8859-15"@);
    } else if n == 16 {
        reveal_strlit("16");
        reveal_strlit("ISO-8859-16");
        reveal_strlit("8859-16");
        reveal_strlit("885916");
        reveal_strlit("iso-8859-16");
        assert(decimal_text(16) =~= "16"@);
        assert("ISO-8859-"@ + decimal_text(16) =~= "ISO-8859-16"@);
        lemma_not_code_page_name("ISO-8859-16"@);
        assert("8859-"@ + decimal_text(16) =~= "8859-16"@);
        lemma_not_code_page_name("8859-16"@);
        assert("8859"@ + decimal_text(16) =~= "885916"@);
        lemma_not_code_page_name("885916"@);
        assert("iso-8859-"@ + decimal_text(16) =~= "iso-8859-16"@);
    }
}


/// A name of ten characters or more, or of five to seven characters that
/// starts with `8`, is no code page name.
proof fn lemma_not_code_page_name(u: Seq<char>)
    requires
        u.len() >= 10 || (5 <= u.len() <= 7 && u[0] == '8'),
    ensures
        code_page_label(u) is None,
{
    reveal_strlit("UTF-8");
    reveal_strlit("65001");
    reveal_strlit("932");
    reveal_strlit("CP932");
    reveal_strlit("SHIFT_JIS");
    reveal_strlit("SJIS");
    reveal_strlit("936");
    reveal_strlit("CP936");
    reveal_strlit("GBK");
    reveal_strlit("949");
    reveal_strlit("CP949");
    reveal_strlit("EUC-KR");
    reveal_strlit("BIG5");
    reveal_strlit("BIG-5");
    reveal_strlit("LATIN1");
    reveal_strlit("866");
    reveal_strlit("CP866");
    reveal_strlit("874");
    reveal_strlit("CP874");
    reveal_strlit("1255");
    reveal_strlit("CP1255");
    reveal_strlit("1256");
    reveal_strlit("CP1256");
    reveal_strlit("1250");
    reveal_strlit("CP1250");
    reveal_strlit("1251");
    reveal_strlit("CP1251");
    reveal_strlit("ANSI 1251");
    reveal_strlit("1252");
    reveal_strlit("CP1252");
    reveal_strlit("1254");
    reveal_strlit("CP1254");
    reveal_strlit("1253");
    reveal_strlit("CP1253");
    assert("UTF-8"@[0] != '8' && "65001"@[0] != '8' && "CP932"@[0] != '8'
        && "CP936"@[0] != '8' && "CP949"@[0] != '8' && "EUC-KR"@[0] != '8'
        && "BIG-5"@[0] != '8' && "LATIN1"@[0] != '8' && "CP866"@[0] != '8'
        && "CP874"@[0] != '8' && "CP1255"@[0] != '8' && "CP1256"@[0] != '8'
        && "CP1250"@[0] != '8' && "CP1251"@[0] != '8' && "CP1252"@[0] != '8'
        && "CP1254"@[0] != '8' && "CP1253"@[0] != '8');
}

/// The encoding label of the ISO-8859 names of parts 1 to 8.
proof fn lemma_iso_labels_low()
    ensures
        iso_label("ISO-8859-1"@) == Some("windows-1252"@),
        iso_label("8859-1"@) == Some("windows-1252"@),
        iso_label("88591"@) == Some("windows-1252"@),
        iso_label("ISO-8859-2"@) == Some("iso-8859-2"@),
        iso_label("8859-2"@) == Some("iso-8859-2"@),
        iso_label("88592"@) == Some("iso-8859-2"@),
        iso_label("ISO-8859-3"@) == Some("iso-8859-3"@),
        iso_label("8859-3"@) == Some("iso-8859-3"@),
        iso_label("88593"@) == Some("iso-8859-3"@),
        iso_label("ISO-8859-4"@) == Some("iso-8859-4"@),
        iso_label("8859-4"@) == Some("iso-8859-4"@),
        iso_label("88594"@) == Some("iso-8859-4"@),
        iso_label("ISO-8859-5"@) == Some("iso-8859-5"@),
        iso_label("8859-5"@) == Some("iso-8859-5"@),
        iso_label("88595"@) == Some("iso-8859-5"@),
        iso_label("ISO-8859-6"@) == Some("iso-8859-6"@),
        iso_label("8859-6"@) == Some("iso-8859-6"@),
        iso_label("88596"@) == Some("iso-8859-6"@),
        iso_label("ISO-8859-7"@) == Some("iso-8859-7"@),
        iso_label("8859-7"@) == Some("iso-8859-7"@),
        iso_label("88597"@) == Some("iso-8859-7"@),
        iso_label("ISO-8859-8"@) == Some("iso-8859-8"@),
        iso_label("8859-8"@) == Some("iso-8859-8"@),
        iso_label("88598"@) == Some("iso-8859-8"@),
{
    reveal_strlit("8859-1");
    reveal_strlit("8859-2");
    reveal_strlit("8859-3");
    reveal_strlit("8859-4");
    reveal_strlit("8859-5");
    reveal_strlit("8859-6");
    reveal_strlit("8859-7");
    reveal_strlit("8859-8");
    reveal_strlit("88591");
    reveal_strlit("88592");
    reveal_strlit("88593");
    reveal_strlit("88594");
    reveal_strlit("88595");
    reveal_strlit("88596");
    reveal_strlit("88597");
    reveal_strlit("88598");
    reveal_strlit("ISO-8859-1");
    reveal_strlit("ISO-8859-2");
    reveal_strlit("ISO-8859-3");
    reveal_strlit("ISO-8859-4");
    reveal_strlit("ISO-8859-5");
    reveal_strlit("ISO-8859-6");
    reveal_strlit("ISO-8859-7");
    reveal_strlit("ISO-8859-8");
    reveal_strlit("iso-8859-2");
    reveal_strlit("iso-8859-3");
    reveal_strlit("iso-8859-4");
    reveal_strlit("iso-8859-5");
    reveal_strlit("iso-8859-6");
    reveal_strlit("iso-8859-7");
    reveal_strlit("iso-8859-8");
    reveal_strlit("windows-1252");
    assert("ISO-8859-2"@[9] != "ISO-8859-1"@[9] && "8859-2"@[5] != "8859-1"@[5] && "8859-2"@.len() != "88591"@.len()
        && "88592"@.len() != "8859-1"@.len() && "88592"@[4] != "88591"@[4] && "ISO-8859-3"@[9] != "ISO-8859-1"@[9]
        && "ISO-8859-3"@[9] != "ISO-8859-2"@[9] && "8859-3"@[5] != "8859-1"@[5] && "8859-3"@.len() != "88591"@.len()
        && "8859-3"@[5] != "8859-2"@[5] && "8859-3"@.len() != "88592"@.len() && "88593"@.len() != "8859-1"@.len()
        && "88593"@[4] != "88591"@[4] && "88593"@.len() != "8859-2"@.len() && "88593"@[4] != "88592"@[4]
        && "ISO-8859-4"@[9] != "ISO-8859-1"@[9] && "ISO-8859-4"@[9] != "ISO-8859-2"@[9] && "ISO-8859-4"@[9] != "ISO-8859-3"@[9]
        && "8859-4"@[5] != "8859-1"@[5] && "8859-4"@.len() != "88591"@.len() && "8859-4"@[5] != "8859-2"@[5]
        && "8859-4"@.len() != "88592"@.len() && "8859-4"@[5] != "8859-3"@[5] && "8859-4"@.len() != "88593"@.len()
        && "88594"@.len() != "8859-1"@.len() && "88594"@[4] != "88591"@[4] && "88594"@.len() != "8859-2"@.len()
        && "88594"@[4] != "88592"@[4] && "88594"@.len() != "8859-3"@.len() && "88594"@[4] != "88593"@[4]
        && "ISO-8859-5"@[9] != "ISO-8859-1"@[9] && "ISO-8859-5"@[9] != "ISO-8859-2"@[9] && "ISO-8859-5"@[9] != "ISO-8859-3"@[9]
        && "ISO-8859-5"@[9] != "ISO-8859-4"@[9] && "8859-5"@[5] != "8859-1"@[5] && "8859-5"@.len() != "88591"@.len()
        && "8859-5"@[5] != "8859-2"@[5] && "8859-5"@.len() != "88592"@.len() && "8859-5"@[5] != "8859-3"@[5]
        && "8859-5"@.len() != "88593"@.len() && "8859-5"@[5] != "8859-4"@[5] && "8859-5"@.len() != "88594"@.len()
        && "88595"@.len() != "8859-1"@.len() && "88595"@[4] != "88591"@[4] && "88595"@.len() != "8859-2"@.len()
        && "88595"@[4] != "88592"@[4] && "88595"@.len() != "8859-3"@.len() && "88595"@[4] != "88593"@[4]
        && "88595"@.len() != "8859-4"@.len() && "88595"@[4] != "88594"@[4] && "ISO-8859-6"@[9] != "ISO-8859-1"@[9]
        && "ISO-8859-6"@[9] != "ISO-8859-2"@[9] && "ISO-8859-6"@[9] != "ISO-8859-3"@[9] && "ISO-8859-6"@[9] != "ISO-8859-4"@[9]
        && "ISO-8859-6"@[9] != "ISO-8859-5"@[9] && "8859-6"@[5] != "8859-1"@[5] && "8859-6"@.len() != "88591"@.len()
        && "8859-6"@[5] != "8859-2"@[5] && "8859-6"@.len() != "88592"@.len() && "8859-6"@[5] != "8859-3"@[5]
        && "8859-6"@.len() != "88593"@.len() && "8859-6"@[5] != "8859-4"@[5] && "8859-6"@.len() != "88594"@.len()
        && "8859-6"@[5] != "8859-5"@[5] && "8859-6"@.len() != "88595"@.len() && "88596"@.len() != "8859-1"@.len()
        && "88596"@[4] != "88591"@[4] && "88596"@.len() != "8859-2"@.len() && "88596"@[4] != "88592"@[4]
        && "88596"@.len() != "8859-3"@.len() && "88596"@[4] != "88593"@[4] && "88596"@.len() != "8859-4"@.len()
        && "88596"@[4] != "88594"@[4] && "88596"@.len() != "8859-5"@.len() && "88596"@[4] != "88595"@[4]
        && "ISO-8859-7"@[9] != "ISO-8859-1"@[9] && "ISO-8859-7"@[9] != "ISO-8859-2"@[9] && "ISO-8859-7"@[9] != "ISO-8859-3"@[9]
        && "ISO-8859-7"@[9] != "ISO-8859-4"@[9] && "ISO-8859-7"@[9] != "ISO-8859-5"@[9] && "ISO-8859-7"@[9] != "ISO-8859-6"@[9]
        && "8859-7"@[5] != "8859-1"@[5] && "8859-7"@.len() != "88591"@.len() && "8859-7"@[5] != "8859-2"@[5]
        && "8859-7"@.len() != "88592"@.len() && "8859-7"@[5] != "8859-3"@[5] && "8859-7"@.len() != "88593"@.len()
        && "8859-7"@[5] != "8859-4"@[5] && "8859-7"@.len() != "88594"@.len() && "8859-7"@[5] != "8859-5"@[5]
        && "8859-7"@.len() != "88595"@.len() && "8859-7"@[5] != "8859-6"@[5] && "8859-7"@.len() != "88596"@.len()
        && "88597"@.len() != "8859-1"@.len() && "88597"@[4] != "88591"@[4] && "88597"@.len() != "8859-2"@.len()
        && "88597"@[4] != "88592"@[4] && "88597"@.len() != "8859-3"@.len() && "88597"@[4] != "88593"@[4]
        && "88597"@.len() != "8859-4"@.len() && "88597"@[4] != "88594"@[4] && "88597"@.len() != "8859-5"@.len()
        && "88597"@[4] != "88595"@[4] && "88597"@.len() != "8859-6"@.len() && "88597"@[4] != "88596"@[4]
        && "ISO-8859-8"@[9] != "ISO-8859-1"@[9] && "ISO-8859-8"@[9] != "ISO-8859-2"@[9] && "ISO-8859-8"@[9] != "ISO-8859-3"@[9]
        && "ISO-8859-8"@[9] != "ISO-8859-4"@[9] && "ISO-8859-8"@[9] != "ISO-8859-5"@[9] && "ISO-8859-8"@[9] != "ISO-8859-6"@[9]
        && "ISO-8859-8"@[9] != "ISO-8859-7"@[9] && "8859-8"@[5] != "8859-1"@[5] && "8859-8"@.len() != "88591"@.len()
        && "8859-8"@[5] != "8859-2"@[5] && "8859-8"@.len() != "88592"@.len() && "8859-8"@[5] != "8859-3"@[5]
        && "8859-8"@.len() != "88593"@.len() && "8859-8"@[5] != "8859-4"@[5] && "8859-8"@.len() != "88594"@.len()
        && "8859-8"@[5] != "8859-5"@[5] && "8859-8"@.len() != "88595"@.len() && "8859-8"@[5] != "8859-6"@[5]
        && "8859-8"@.len() != "88596"@.len() && "8859-8"@[5] != "8859-7"@[5] && "8859-8"@.len() != "88597"@.len()
        && "88598"@.len() != "8859-1"@.len() && "88598"@[4] != "88591"@[4] && "88598"@.len() != "8859-2"@.len()
        && "88598"@[4] != "88592"@[4] && "88598"@.len() != "8859-3"@.len() && "88598"@[4] != "88593"@[4]
        && "88598"@.len() != "8859-4"@.len() && "88598"@[4] != "88594"@[4] && "88598"@.len() != "8859-5"@.len()
        && "88598"@[4] != "88595"@[4] && "88598"@.len() != "8859-6"@.len() && "88598"@[4] != "88596"@[4]
        && "88598"@.len() != "8859-7"@.len() && "88598"@[4] != "88597"@[4]);
}

/// The encoding label of the ISO-8859 names of parts 9 to 16.
proof fn lemma_iso_labels_high()
    ensures
        iso_label("ISO-8859-9"@) == Some("windows-1254"@),
        iso_label("8859-9"@) == Some("windows-1254"@),
        iso_label("88599"@) == Some("windows-1254"@),
        iso_label("ISO-8859-10"@) == Some("iso-8859-10"@),
        iso_label("8859-10"@) == Some("iso-8859-10"@),
        iso_label("885910"@) == Some("iso-8859-10"@),
        iso_label("ISO-8859-13"@) == Some("iso-8859-13"@),
        iso_label("8859-13"@) == Some("iso-8859-13"@),
        iso_label("885913"@) == Some("iso-8859-13"@),
        iso_label("ISO-8859-14"@) == Some("iso-8859-14"@),
        iso_label("8859-14"@) == Some("iso-8859-14"@),
        iso_label("885914"@) == Some("iso-8859-14"@),
        iso_label("ISO-8859-15"@) == Some("iso-8859-15"@),
        iso_label("8859-15"@) == Some("iso-8859-15"@),
        iso_label("885915"@) == Some("iso-8859-15"@),
        iso_label("ISO-8859-16"@) == Some("iso-8859-16"@),
        iso_label("8859-16"@) == Some("iso-8859-16"@),
        iso_label("885916"@) == Some("iso-8859-16"@),
{
    reveal_strlit("8859-1");
    reveal_strlit("8859-10");
    reveal_strlit("8859-13");
    reveal_strlit("8859-14");
    reveal_strlit("8859-15");
    reveal_strlit("8859-16");
    reveal_strlit("8859-2");
    reveal_strlit("8859-3");
    reveal_strlit("8859-4");
    reveal_strlit("8859-5");
    reveal_strlit("8859-6");
    reveal_strlit("8859-7");
    reveal_strlit("8859-8");
    reveal_strlit("8859-9");
    reveal_strlit("88591");
    reveal_strlit("885910");
    reveal_strlit("885913");
    reveal_strlit("885914");
    reveal_strlit("885915");
    reveal_strlit("885916");
    reveal_strlit("88592");
    reveal_strlit("88593");
    reveal_strlit("88594");
    reveal_strlit("88595");
    reveal_strlit("88596");
    reveal_strlit("88597");
    reveal_strlit("88598");
    reveal_strlit("88599");
    reveal_strlit("ISO-8859-1");
    reveal_strlit("ISO-8859-10");
    reveal_strlit("ISO-8859-13");
    reveal_strlit("ISO-8859-14");
    reveal_strlit("ISO-8859-15");
    reveal_strlit("ISO-8859-16");
    reveal_strlit("ISO-8859-2");
    reveal_strlit("ISO-8859-3");
    reveal_strlit("ISO-8859-4");
    reveal_strlit("ISO-8859-5");
    reveal_strlit("ISO-8859-6");
    reveal_strlit("ISO-8859-7");
    reveal_strlit("ISO-8859-8");
    reveal_strlit("ISO-8859-9");
    reveal_strlit("iso-8859-10");
    reveal_strlit("iso-8859-13");
    reveal_strlit("iso-8859-14");
    reveal_strlit("iso-8859-15");
    reveal_strlit("iso-8859-16");
    reveal_strlit("windows-1254");
    assert("ISO-8859-9"@[9] != "ISO-8859-1"@[9] && "ISO-8859-9"@[9] != "ISO-8859-2"@[9] && "ISO-8859-9"@[9] != "ISO-8859-3"@[9]
        && "ISO-8859-9"@[9] != "ISO-8859-4"@[9] && "ISO-8859-9"@[9] != "ISO-8859-5"@[9] && "ISO-8859-9"@[9] != "ISO-8859-6"@[9]
        && "ISO-8859-9"@[9] != "ISO-8859-7"@[9] && "ISO-8859-9"@[9] != "ISO-8859-8"@[9] && "8859-9"@[5] != "8859-1"@[5]
        && "8859-9"@.len() != "88591"@.len() && "8859-9"@[5] != "8859-2"@[5] && "8859-9"@.len() != "88592"@.len()
        && "8859-9"@[5] != "8859-3"@[5] && "8859-9"@.len() != "88593"@.len() && "8859-9"@[5] != "8859-4"@[5]
        && "8859-9"@.len() != "88594"@.len() && "8859-9"@[5] != "8859-5"@[5] && "8859-9"@.len() != "88595"@.len()
        && "8859-9"@[5] != "8859-6"@[5] && "8859-9"@.len() != "88596"@.len() && "8859-9"@[5] != "8859-7"@[5]
        && "8859-9"@.len() != "88597"@.len() && "8859-9"@[5] != "8859-8"@[5] && "8859-9"@.len() != "88598"@.len()
        && "88599"@.len() != "8859-1"@.len() && "88599"@[4] != "88591"@[4] && "88599"@.len() != "8859-2"@.len()
        && "88599"@[4] != "88592"@[4] && "88599"@.len() != "8859-3"@.len() && "88599"@[4] != "88593"@[4]
        && "88599"@.len() != "8859-4"@.len() && "88599"@[4] != "88594"@[4] && "88599"@.len() != "8859-5"@.len()
        && "88599"@[4] != "88595"@[4] && "88599"@.len() != "8859-6"@.len() && "88599"@[4] != "88596"@[4]
        && "88599"@.len() != "8859-7"@.len() && "88599"@[4] != "88597"@[4] && "88599"@.len() != "8859-8"@.len()
        && "88599"@[4] != "88598"@[4] && "ISO-8859-10"@.len() != "ISO-8859-1"@.len() && "ISO-8859-10"@.len() != "ISO-8859-2"@.len()
        && "ISO-8859-10"@.len() != "ISO-8859-3"@.len() && "ISO-8859-10"@.len() != "ISO-8859-4"@.len() && "ISO-8859-10"@.len() != "ISO-8859-5"@.len()
        && "ISO-8859-10"@.len() != "ISO-8859-6"@.len() && "ISO-8859-10"@.len() != "ISO-8859-7"@.len() && "ISO-8859-10"@.len() != "ISO-8859-8"@.len()
        && "ISO-8859-10"@.len() != "ISO-8859-9"@.len() && "8859-10"@.len() != "8859-1"@.len() && "8859-10"@.len() != "8859-2"@.len()
        && "8859-10"@.len() != "8859-3"@.len() && "8859-10"@.len() != "8859-4"@.len() && "8859-10"@.len() != "8859-5"@.len()
        && "8859-10"@.len() != "8859-6"@.len() && "8859-10"@.len() != "8859-7"@.len() && "8859-10"@.len() != "8859-8"@.len()
        && "8859-10"@.len() != "8859-9"@.len() && "885910"@[4] != "8859-1"@[4] && "885910"@.len() != "88591"@.len()
        && "885910"@[4] != "8859-2"@[4] && "885910"@.len() != "88592"@.len() && "885910"@[4] != "8859-3"@[4]
        && "885910"@.len() != "88593"@.len() && "885910"@[4] != "8859-4"@[4] && "885910"@.len() != "88594"@.len()
        && "885910"@[4] != "8859-5"@[4] && "885910"@.len() != "88595"@.len() && "885910"@[4] != "8859-6"@[4]
        && "885910"@.len() != "88596"@.len() && "885910"@[4] != "8859-7"@[4] && "885910"@.len() != "88597"@.len()
        && "885910"@[4] != "8859-8"@[4] && "885910"@.len() != "88598"@.len() && "885910"@[4] != "8859-9"@[4]
        && "885910"@.len() != "88599"@.len() && "ISO-8859-13"@.len() != "ISO-8859-1"@.len() && "ISO-8859-13"@.len() != "ISO-8859-2"@.len()
        && "ISO-8859-13"@.len() != "ISO-8859-3"@.len() && "ISO-8859-13"@.len() != "ISO-8859-4"@.len() && "ISO-8859-13"@.len() != "ISO-8859-5"@.len()
        && "ISO-8859-13"@.len() != "ISO-8859-6"@.len() && "ISO-8859-13"@.len() != "ISO-8859-7"@.len() && "ISO-8859-13"@.len() != "ISO-8859-8"@.len()
        && "ISO-8859-13"@.len() != "ISO-8859-9"@.len() && "ISO-8859-13"@[10] != "ISO-8859-10"@[10] && "8859-13"@.len() != "8859-1"@.len()
        && "8859-13"@.len() != "8859-2"@.len() && "8859-13"@.len() != "8859-3"@.len() && "8859-13"@.len() != "8859-4"@.len()
        && "8859-13"@.len() != "8859-5"@.len() && "8859-13"@.len() != "8859-6"@.len() && "8859-13"@.len() != "8859-7"@.len()
        && "8859-13"@.len() != "8859-8"@.len() && "8859-13"@.len() != "8859-9"@.len() && "8859-13"@[6] != "8859-10"@[6]
        && "8859-13"@.len() != "885910"@.len() && "885913"@[4] != "8859-1"@[4] && "885913"@.len() != "88591"@.len()
        && "885913"@[4] != "8859-2"@[4] && "885913"@.len() != "88592"@.len() && "885913"@[4] != "8859-3"@[4]
        && "885913"@.len() != "88593"@.len() && "885913"@[4] != "8859-4"@[4] && "885913"@.len() != "88594"@.len()
        && "885913"@[4] != "8859-5"@[4] && "885913"@.len() != "88595"@.len() && "885913"@[4] != "8859-6"@[4]
        && "885913"@.len() != "88596"@.len() && "885913"@[4] != "8859-7"@[4] && "885913"@.len() != "88597"@.len()
        && "885913"@[4] != "8859-8"@[4] && "885913"@.len() != "88598"@.len() && "885913"@[4] != "8859-9"@[4]
        && "885913"@.len() != "88599"@.len() && "885913"@.len() != "8859-10"@.len() && "885913"@[5] != "885910"@[5]
        && "ISO-8859-14"@.len() != "ISO-8859-1"@.len() && "ISO-8859-14"@.len() != "ISO-8859-2"@.len() && "ISO-8859-14"@.len() != "ISO-8859-3"@.len()
        && "ISO-8859-14"@.len() != "ISO-8859-4"@.len() && "ISO-8859-14"@.len() != "ISO-8859-5"@.len() && "ISO-8859-14"@.len() != "ISO-8859-6"@.len()
        && "ISO-8859-14"@.len() != "ISO-8859-7"@.len() && "ISO-8859-14"@.len() != "ISO-8859-8"@.len() && "ISO-8859-14"@.len() != "ISO-8859-9"@.len()
        && "ISO-8859-14"@[10] != "ISO-8859-10"@[10] && "ISO-8859-14"@[10] != "ISO-8859-13"@[10] && "8859-14"@.len() != "8859-1"@.len()
        && "8859-14"@.len() != "8859-2"@.len() && "8859-14"@.len() != "8859-3"@.len() && "8859-14"@.len() != "8859-4"@.len()
        && "8859-14"@.len() != "8859-5"@.len() && "8859-14"@.len() != "8859-6"@.len() && "8859-14"@.len() != "8859-7"@.len()
        && "8859-14"@.len() != "8859-8"@.len() && "8859-14"@.len() != "8859-9"@.len() && "8859-14"@[6] != "8859-10"@[6]
        && "8859-14"@.len() != "885910"@.len() && "8859-14"@[6] != "8859-13"@[6] && "8859-14"@.len() != "885913"@.len()
        && "885914"@[4] != "8859-1"@[4] && "885914"@.len() != "88591"@.len() && "885914"@[4] != "8859-2"@[4]
        && "885914"@.len() != "88592"@.len() && "885914"@[4] != "8859-3"@[4] && "885914"@.len() != "88593"@.len()
        && "885914"@[4] != "8859-4"@[4] && "885914"@.len() != "88594"@.len() && "885914"@[4] != "8859-5"@[4]
        && "885914"@.len() != "88595"@.len() && "885914"@[4] != "8859-6"@[4] && "885914"@.len() != "88596"@.len()
        && "885914"@[4] != "8859-7"@[4] && "885914"@.len() != "88597"@.len() && "885914"@[4] != "8859-8"@[4]
        && "885914"@.len() != "88598"@.len() && "885914"@[4] != "8859-9"@[4] && "885914"@.len() != "88599"@.len()
        && "885914"@.len() != "8859-10"@.len() && "885914"@[5] != "885910"@[5] && "885914"@.len() != "8859-13"@.len()
        && "885914"@[5] != "885913"@[5] && "ISO-8859-15"@.len() != "ISO-8859-1"@.len() && "ISO-8859-15"@.len() != "ISO-8859-2"@.len()
        && "ISO-8859-15"@.len() != "ISO-8859-3"@.len() && "ISO-8859-15"@.len() != "ISO-8859-4"@.len() && "ISO-8859-15"@.len() != "ISO-8859-5"@.len()
        && "ISO-8859-15"@.len() != "ISO-8859-6"@.len() && "ISO-8859-15"@.len() != "ISO-8859-7"@.len() && "ISO-8859-15"@.len() != "ISO-8859-8"@.len()
        && "ISO-8859-15"@.len() != "ISO-8859-9"@.len() && "ISO-8859-15"@[10] != "ISO-8859-10"@[10] && "ISO-8859-15"@[10] != "ISO-8859-13"@[10]
        && "ISO-8859-15"@[10] != "ISO-8859-14"@[10] && "8859-15"@.len() != "8859-1"@.len() && "8859-15"@.len() != "8859-2"@.len()
        && "8859-15"@.len() != "8859-3"@.len() && "8859-15"@.len() != "8859-4"@.len() && "8859-15"@.len() != "8859-5"@.len()
        && "8859-15"@.len() != "8859-6"@.len() && "8859-15"@.len() != "8859-7"@.len() && "8859-15"@.len() != "8859-8"@.len()
        && "8859-15"@.len() != "8859-9"@.len() && "8859-15"@[6] != "8859-10"@[6] && "8859-15"@.len() != "885910"@.len()
        && "8859-15"@[6] != "8859-13"@[6] && "8859-15"@.len() != "885913"@.len() && "8859-15"@[6] != "8859-14"@[6]
        && "8859-15"@.len() != "885914"@.len() && "885915"@[4] != "8859-1"@[4] && "885915"@.len() != "88591"@.len()
        && "885915"@[4] != "8859-2"@[4] && "885915"@.len() != "88592"@.len() && "885915"@[4] != "8859-3"@[4]
        && "885915"@.len() != "88593"@.len() && "885915"@[4] != "8859-4"@[4] && "885915"@.len() != "88594"@.len()
        && "885915"@[4] != "8859-5"@[4] && "885915"@.len() != "88595"@.len() && "885915"@[4] != "8859-6"@[4]
        && "885915"@.len() != "88596"@.len() && "885915"@[4] != "8859-7"@[4] && "885915"@.len() != "88597"@.len()
        && "885915"@[4] != "8859-8"@[4] && "885915"@.len() != "88598"@.len() && "885915"@[4] != "8859-9"@[4]
        && "885915"@.len() != "88599"@.len() && "885915"@.len() != "8859-10"@.len() && "885915"@[5] != "885910"@[5]
        && "885915"@.len() != "8859-13"@.len() && "885915"@[5] != "885913"@[5] && "885915"@.len() != "8859-14"@.len()
        && "885915"@[5] != "885914"@[5] && "ISO-8859-16"@.len() != "ISO-8859-1"@.len() && "ISO-8859-16"@.len() != "ISO-8859-2"@.len()
        && "ISO-8859-16"@.len() != "ISO-8859-3"@.len() && "ISO-8859-16"@.len() != "ISO-8859-4"@.len() && "ISO-8859-16"@.len() != "ISO-8859-5"@.len()
        && "ISO-8859-16"@.len() != "ISO-8859-6"@.len() && "ISO-8859-16"@.len() != "ISO-8859-7"@.len() && "ISO-8859-16"@.len() != "ISO-8859-8"@.len()
        && "ISO-8859-16"@.len() != "ISO-8859-9"@.len() && "ISO-8859-16"@[10] != "ISO-8859-10"@[10] && "ISO-8859-16"@[10] != "ISO-8859-13"@[10]
        && "ISO-8859-16"@[10] != "ISO-8859-14"@[10] && "ISO-8859-16"@[10] != "ISO-8859-15"@[10] && "8859-16"@.len() != "8859-1"@.len()
        && "8859-16"@.len() != "8859-2"@.len() && "8859-16"@.len() != "8859-3"@.len() && "8859-16"@.len() != "8859-4"@.len()
        && "8859-16"@.len() != "8859-5"@.len() && "8859-16"@.len() != "8859-6"@.len() && "8859-16"@.len() != "8859-7"@.len()
        && "8859-16"@.len() != "8859-8"@.len() && "8859-16"@.len() != "8859-9"@.len() && "8859-16"@[6] != "8859-10"@[6]
        && "8859-16"@.len() != "885910"@.len() && "8859-16"@[6] != "8859-13"@[6] && "8859-16"@.len() != "885913"@.len()
        && "8859-16"@[6] != "8859-14"@[6] && "8859-16"@.len() != "885914"@.len() && "8859-16"@[6] != "8859-15"@[6]
        && "8859-16"@.len() != "885915"@.len() && "885916"@[4] != "8859-1"@[4] && "885916"@.len() != "88591"@.len()
        && "885916"@[4] != "8859-2"@[4] && "885916"@.len() != "88592"@.len() && "885916"@[4] != "8859-3"@[4]
        && "885916"@.len() != "88593"@.len() && "885916"@[4] != "8859-4"@[4] && "885916"@.len() != "88594"@.len()
        && "885916"@[4] != "8859-5"@[4] && "885916"@.len() != "88595"@.len() && "885916"@[4] != "8859-6"@[4]
        && "885916"@.len() != "88596"@.len() && "885916"@[4] != "8859-7"@[4] && "885916"@.len() != "88597"@.len()
        && "885916"@[4] != "8859-8"@[4] && "885916"@.len() != "88598"@.len() && "885916"@[4] != "8859-9"@[4]
        && "885916"@.len() != "88599"@.len() && "885916"@.len() != "8859-10"@.len() && "885916"@[5] != "885910"@[5]
        && "885916"@.len() != "8859-13"@.len() && "885916"@[5] != "885913"@[5] && "885916"@.len() != "8859-14"@.len()
        && "885916"@[5] != "885914"@[5] && "885916"@.len() != "8859-15"@.len() && "885916"@[5] != "885915"@[5]);
}




/// The code page mark written for a Windows code page identifier is the
/// mark of that code page: 1250 to 1256, 874, 866, 932, 936, 949 and 950
/// each have their own mark, and every other identifier (65001 among them),
/// or none, gets the UTF-8 mark.
pub proof fn lemma_code_page_marks(c: Option<u16>)
    ensures
        (mark_of_code_page(c) == CodePageMark::CP1252) <==> c == Some(1252u16),
        (mark_of_code_page(c) == CodePageMark::CP866) <==> c == Some(866u16),
        (mark_of_code_page(c) == CodePageMark::CP874) <==> c == Some(874u16),
        (mark_of_code_page(c) == CodePageMark::CP1255) <==> c == Some(1255u16),
        (mark_of_code_page(c) == CodePageMark::CP1256) <==> c == Some(1256u16),
        (mark_of_code_page(c) == CodePageMark::CP1250) <==> c == Some(1250u16),
        (mark_of_code_page(c) == CodePageMark::CP1251) <==> c == Some(1251u16),
        (mark_of_code_page(c) == CodePageMark::CP1254) <==> c == Some(1254u16),
        (mark_of_code_page(c) == CodePageMark::CP1253) <==> c == Some(1253u16),
        (mark_of_code_page(c) == CodePageMark::CP950) <==> c == Some(950u16),
        (mark_of_code_page(c) == CodePageMark::CP949) <==> c == Some(949u16),
        (mark_of_code_page(c) == CodePageMark::CP936) <==> c == Some(936u16),
        (mark_of_code_page(c) == CodePageMark::CP932) <==> c == Some(932u16),
        (mark_of_code_page(c) == CodePageMark::Utf8) <==> !(c == Some(1252u16) || c == Some(866u16) || c == Some(874u16) || c == Some(1255u16) || c == Some(1256u16) || c == Some(1250u16) || c == Some(1251u16) || c == Some(1254u16) || c == Some(1253u16) || c == Some(950u16) || c == Some(949u16) || c == Some(936u16) || c == Some(932u16)),
{
}

/// The names of the Windows code pages stand for their encodings: a Windows
/// code page number from 1250 to 1256, or 874, alone or after `CP`, names
/// the encoding labelled `windows-` and that number; 866 names IBM866, 932
/// Shift_JIS, 936 GBK and 949 EUC-KR, alone or after `CP`; 65001 names
/// UTF-8.
pub proof fn lemma_code_page_names(d: int)
    ensures
        (1250 <= d <= 1256 || d == 874) ==> label_for_name(decimal_text(d)) == Some("windows-"@ + decimal_text(d))
            && label_for_name("CP"@ + decimal_text(d)) == Some("windows-"@ + decimal_text(d)),
        d == 866 ==> label_for_name(decimal_text(d)) == Some("ibm866"@) && label_for_name("CP"@ + decimal_text(d)) == Some("ibm866"@),
        d == 932 ==> label_for_name(decimal_text(d)) == Some("shift_jis"@) && label_for_name("CP"@ + decimal_text(d)) == Some("shift_jis"@),
        d == 936 ==> label_for_name(decimal_text(d)) == Some("gbk"@) && label_for_name("CP"@ + decimal_text(d)) == Some("gbk"@),
        d == 949 ==> label_for_name(decimal_text(d)) == Some("euc-kr"@) && label_for_name("CP"@ + decimal_text(d)) == Some("euc-kr"@),
        d == 65001 ==> label_for_name(decimal_text(d)) == Some("utf-8"@),
{
    reveal_with_fuel(decimal_digits, 6);
    reveal_strlit("CP");
    reveal_strlit("windows-");
    if d == 65001 {
        lemma_code_page_label_65001();
        reveal_strlit("65001");
        assert(decimal_text(65001) =~= "65001"@);
    } else if d == 866 {
        lemma_code_page_label_866();
        reveal_strlit("866");
        reveal_strlit("CP866");
        assert("CP"@ + decimal_text(866) =~= "CP866"@);
        assert(decimal_text(866) =~= "866"@);
    } else if d == 874 {
        lemma_code_page_label_874();
        reveal_strlit("874");
        reveal_strlit("CP874");
        assert("CP"@ + decimal_text(874) =~= "CP874"@);
        reveal_strlit("windows-874");
        assert("windows-"@ + decimal_text(874) =~= "windows-874"@);
        assert(decimal_text(874) =~= "874"@);
    } else if d == 932 {
        lemma_code_page_label_932();
        reveal_strlit("932");
        reveal_strlit("CP932");
        assert("CP"@ + decimal_text(932) =~= "CP932"@);
        assert(decimal_text(932) =~= "932"@);
    } else if d == 936 {
        lemma_code_page_label_936();
        reveal_strlit("936");
        reveal_strlit("CP936");
        assert("CP"@ + decimal_text(936) =~= "CP936"@);
        assert(decimal_text(936) =~= "936"@);
    } else if d == 949 {
        lemma_code_page_label_949();
        reveal_strlit("949");
        reveal_strlit("CP949");
        assert("CP"@ + decimal_text(949) =~= "CP949"@);
        assert(decimal_text(949) =~= "949"@);
    } else if d == 1250 {
        lemma_code_page_label_1250();
        reveal_strlit("1250");
        reveal_strlit("CP1250");
        assert("CP"@ + decimal_text(1250) =~= "CP1250"@);
        reveal_strlit("windows-1250");
        assert("windows-"@ + decimal_text(1250) =~= "windows-1250"@);
        assert(decimal_text(1250) =~= "1250"@);
    } else if d == 1251 {
        lemma_code_page_label_1251();
        reveal_strlit("1251");
        reveal_strlit("CP1251");
        assert("CP"@ + decimal_text(1251) =~= "CP1251"@);
        reveal_strlit("windows-1251");
        assert("windows-"@ + decimal_text(1251) =~= "windows-1251"@);
        assert(decimal_text(1251) =~= "1251"@);
    } else if d == 1252 {
        lemma_code_page_label_1252();
        reveal_strlit("1252");
        reveal_strlit("CP1252");
        assert("CP"@ + decimal_text(1252) =~= "CP1252"@);
        reveal_strlit("windows-1252");
        assert("windows-"@ + decimal_text(1252) =~= "windows-1252"@);
        assert(decimal_text(1252) =~= "1252"@);
    } else if d == 1253 {
        lemma_code_page_label_1253();
        reveal_strlit("1253");
        reveal_strlit("CP1253");
        assert("CP"@ + decimal_text(1253) =~= "CP1253"@);
        reveal_strlit("windows-1253");
        assert("windows-"@ + decimal_text(1253) =~= "windows-1253"@);
        assert(decimal_text(1253) =~= "1253"@);
    } else if d == 1254 {
        lemma_code_page_label_1254();
        reveal_strlit("1254");
        reveal_strlit("CP1254");
        assert("CP"@ + decimal_text(1254) =~= "CP1254"@);
        reveal_strlit("windows-1254");
        assert("windows-"@ + decimal_text(1254) =~= "windows-1254"@);
        assert(decimal_text(1254) =~= "1254"@);
    } else if d == 1255 {
        lemma_code_page_label_1255();
        reveal_strlit("1255");
        reveal_strlit("CP1255");
        assert("CP"@ + decimal_text(1255) =~= "CP1255"@);
        reveal_strlit("windows-1255");
        assert("windows-"@ + decimal_text(1255) =~= "windows-1255"@);
        assert(decimal_text(1255) =~= "1255"@);
    } else if d == 1256 {
        lemma_code_page_label_1256();
        reveal_strlit("1256");
        reveal_strlit("CP1256");
        assert("CP"@ + decimal_text(1256) =~= "CP1256"@);
        reveal_strlit("windows-1256");
        assert("windows-"@ + decimal_text(1256) =~= "windows-1256"@);
        assert(decimal_text(1256) =~= "1256"@);
    }
}

/// The encoding label of the code page name `65001`.
proof fn lemma_code_page_label_65001()
    ensures
        code_page_label("65001"@) == Some("utf-8"@),
{
    reveal_strlit("65001");
    reveal_strlit("UTF-8");
    reveal_strlit("utf-8");

}

/// The encoding label of the code page name `866`, alone and after `CP`.
proof fn lemma_code_page_label_866()
    ensures
        code_page_label("866"@) == Some("ibm866"@),
        code_page_label("CP866"@) == Some("ibm866"@),
{
    reveal_strlit("65001");
    reveal_strlit("866");
    reveal_strlit("932");
    reveal_strlit("936");
    reveal_strlit("949");
    reveal_strlit("BIG-5");
    reveal_strlit("BIG5");
    reveal_strlit("CP866");
    reveal_strlit("CP932");
    reveal_strlit("CP936");
    reveal_strlit("CP949");
    reveal_strlit("EUC-KR");
    reveal_strlit("GBK");
    reveal_strlit("LATIN1");
    reveal_strlit("SHIFT_JIS");
    reveal_strlit("SJIS");
    reveal_strlit("UTF-8");
    reveal_strlit("ibm866");
    assert("866"@[0] != "932"@[0]);
    assert("866"@[0] != "936"@[0]);
    assert("866"@[0] != "GBK"@[0]);
    assert("866"@[0] != "949"@[0]);
    assert("CP866"@[0] != "UTF-8"@[0]);
    assert("CP866"@[0] != "65001"@[0]);
    assert("CP866"@[2] != "CP932"@[2]);
    assert("CP866"@[2] != "CP936"@[2]);
    assert("CP866"@[2] != "CP949"@[2]);
    assert("CP866"@[0] != "BIG-5"@[0]);
}

/// The encoding label of the code page name `874`, alone and after `CP`.
proof fn lemma_code_page_label_874()
    ensures
        code_page_label("874"@) == Some("windows-874"@),
        code_page_label("CP874"@) == Some("windows-874"@),
{
    reveal_strlit("65001");
    reveal_strlit("866");
    reveal_strlit("874");
    reveal_strlit("932");
    reveal_strlit("936");
    reveal_strlit("949");
    reveal_strlit("BIG-5");
    reveal_strlit("BIG5");
    reveal_strlit("CP866");
    reveal_strlit("CP874");
    reveal_strlit("CP932");
    reveal_strlit("CP936");
    reveal_strlit("CP949");
    reveal_strlit("EUC-KR");
    reveal_strlit("GBK");
    reveal_strlit("LATIN1");
    reveal_strlit("SHIFT_JIS");
    reveal_strlit("SJIS");
    reveal_strlit("UTF-8");
    reveal_strlit("windows-874");
    assert("874"@[0] != "932"@[0]);
    assert("874"@[0] != "936"@[0]);
    assert("874"@[0] != "GBK"@[0]);
    assert("874"@[0] != "949"@[0]);
    assert("874"@[1] != "866"@[1]);
    assert("CP874"@[0] != "UTF-8"@[0]);
    assert("CP874"@[0] != "65001"@[0]);
    assert("CP874"@[2] != "CP932"@[2]);
    assert("CP874"@[2] != "CP936"@[2]);
    assert("CP874"@[2] != "CP949"@[2]);
    assert("CP874"@[0] != "BIG-5"@[0]);
    assert("CP874"@[3] != "CP866"@[3]);
}

/// The encoding label of the code page name `932`, alone and after `CP`.
proof fn lemma_code_page_label_932()
    ensures
        code_page_label("932"@) == Some("shift_jis"@),
        code_page_label("CP932"@) == Some("shift_jis"@),
{
    reveal_strlit("65001");
    reveal_strlit("932");
    reveal_strlit("CP932");
    reveal_strlit("SHIFT_JIS");
    reveal_strlit("SJIS");
    reveal_strlit("UTF-8");
    reveal_strlit("shift_jis");
    assert("CP932"@[0] != "UTF-8"@[0]);
    assert("CP932"@[0] != "65001"@[0]);
}

/// The encoding label of the code page name `936`, alone and after `CP`.
proof fn lemma_code_page_label_936()
    ensures
        code_page_label("936"@) == Some("gbk"@),
        code_page_label("CP936"@) == Some("gbk"@),
{
    reveal_strlit("65001");
    reveal_strlit("932");
    reveal_strlit("936");
    reveal_strlit("CP932");
    reveal_strlit("CP936");
    reveal_strlit("GBK");
    reveal_strlit("SHIFT_JIS");
    reveal_strlit("SJIS");
    reveal_strlit("UTF-8");
    reveal_strlit("gbk");
    assert("936"@[2] != "932"@[2]);
    assert("CP936"@[0] != "UTF-8"@[0]);
    assert("CP936"@[0] != "65001"@[0]);
    assert("CP936"@[4] != "CP932"@[4]);
}

/// The encoding label of the code page name `949`, alone and after `CP`.
proof fn lemma_code_page_label_949()
    ensures
        code_page_label("949"@) == Some("euc-kr"@),
        code_page_label("CP949"@) == Some("euc-kr"@),
{
    reveal_strlit("65001");
    reveal_strlit("932");
    reveal_strlit("936");
    reveal_strlit("949");
    reveal_strlit("CP932");
    reveal_strlit("CP936");
    reveal_strlit("CP949");
    reveal_strlit("EUC-KR");
    reveal_strlit("GBK");
    reveal_strlit("SHIFT_JIS");
    reveal_strlit("SJIS");
    reveal_strlit("UTF-8");
    reveal_strlit("euc-kr");
    assert("949"@[1] != "932"@[1]);
    assert("949"@[1] != "936"@[1]);
    assert("949"@[0] != "GBK"@[0]);
    assert("CP949"@[0] != "UTF-8"@[0]);
    assert("CP949"@[0] != "65001"@[0]);
    assert("CP949"@[3] != "CP932"@[3]);
    assert("CP949"@[3] != "CP936"@[3]);
}

/// The encoding label of the code page name `1250`, alone and after `CP`.
proof fn lemma_code_page_label_1250()
    ensures
        code_page_label("1250"@) == Some("windows-1250"@),
        code_page_label("CP1250"@) == Some("windows-1250"@),
{
    reveal_strlit("1250");
    reveal_strlit("1255");
    reveal_strlit("1256");
    reveal_strlit("65001");
    reveal_strlit("866");
    reveal_strlit("874");
    reveal_strlit("932");
    reveal_strlit("936");
    reveal_strlit("949");
    reveal_strlit("BIG-5");
    reveal_strlit("BIG5");
    reveal_strlit("CP1250");
    reveal_strlit("CP1255");
    reveal_strlit("CP1256");
    reveal_strlit("CP866");
    reveal_strlit("CP874");
    reveal_strlit("CP932");
    reveal_strlit("CP936");
    reveal_strlit("CP949");
    reveal_strlit("EUC-KR");
    reveal_strlit("GBK");
    reveal_strlit("LATIN1");
    reveal_strlit("SHIFT_JIS");
    reveal_strlit("SJIS");
    reveal_strlit("UTF-8");
    reveal_strlit("windows-1250");
    assert("1250"@[0] != "SJIS"@[0]);
    assert("1250"@[0] != "BIG5"@[0]);
    assert("1250"@[3] != "1255"@[3]);
    assert("1250"@[3] != "1256"@[3]);
    assert("CP1250"@[0] != "EUC-KR"@[0]);
    assert("CP1250"@[0] != "LATIN1"@[0]);
    assert("CP1250"@[5] != "CP1255"@[5]);
    assert("CP1250"@[5] != "CP1256"@[5]);
    assert("CP1250"@.len() != "SJIS"@.len());
    assert("CP1250"@.len() != "BIG5"@.len());
    assert("CP1250"@.len() != "1255"@.len());
    assert("CP1250"@.len() != "1256"@.len());
}

/// The encoding label of the code page name `1251`, alone and after `CP`.
proof fn lemma_code_page_label_1251()
    ensures
        code_page_label("1251"@) == Some("windows-1251"@),
        code_page_label("CP1251"@) == Some("windows-1251"@),
{
    reveal_strlit("1250");
    reveal_strlit("1251");
    reveal_strlit("1255");
    reveal_strlit("1256");
    reveal_strlit("65001");
    reveal_strlit("866");
    reveal_strlit("874");
    reveal_strlit("932");
    reveal_strlit("936");
    reveal_strlit("949");
    reveal_strlit("ANSI 1251");
    reveal_strlit("BIG-5");
    reveal_strlit("BIG5");
    reveal_strlit("CP1250");
    reveal_strlit("CP1251");
    reveal_strlit("CP1255");
    reveal_strlit("CP1256");
    reveal_strlit("CP866");
    reveal_strlit("CP874");
    reveal_strlit("CP932");
    reveal_strlit("CP936");
    reveal_strlit("CP949");
    reveal_strlit("EUC-KR");
    reveal_strlit("GBK");
    reveal_strlit("LATIN1");
    reveal_strlit("SHIFT_JIS");
    reveal_strlit("SJIS");
    reveal_strlit("UTF-8");
    reveal_strlit("windows-1251");
    assert("1251"@[0] != "SJIS"@[0]);
    assert("1251"@[0] != "BIG5"@[0]);
    assert("1251"@[3] != "1255"@[3]);
    assert("1251"@[3] != "1256"@[3]);
    assert("1251"@[3] != "1250"@[3]);
    assert("CP1251"@[0] != "EUC-KR"@[0]);
    assert("CP1251"@[0] != "LATIN1"@[0]);
    assert("CP1251"@[5] != "CP1255"@[5]);
    assert("CP1251"@[5] != "CP1256"@[5]);
    assert("CP1251"@[5] != "CP1250"@[5]);
    assert("CP1251"@.len() != "SJIS"@.len());
    assert("CP1251"@.len() != "BIG5"@.len());
    assert("CP1251"@.len() != "1255"@.len());
    assert("CP1251"@.len() != "1256"@.len());
    assert("CP1251"@.len() != "1250"@.len());
}

/// The encoding label of the code page name `1252`, alone and after `CP`.
proof fn lemma_code_page_label_1252()
    ensures
        code_page_label("1252"@) == Some("windows-1252"@),
        code_page_label("CP1252"@) == Some("windows-1252"@),
{
    reveal_strlit("1250");
    reveal_strlit("1251");
    reveal_strlit("1252");
    reveal_strlit("1255");
    reveal_strlit("1256");
    reveal_strlit("65001");
    reveal_strlit("866");
    reveal_strlit("874");
    reveal_strlit("932");
    reveal_strlit("936");
    reveal_strlit("949");
    reveal_strlit("ANSI 1251");
    reveal_strlit("BIG-5");
    reveal_strlit("BIG5");
    reveal_strlit("CP1250");
    reveal_strlit("CP1251");
    reveal_strlit("CP1252");
    reveal_strlit("CP1255");
    reveal_strlit("CP1256");
    reveal_strlit("CP866");
    reveal_strlit("CP874");
    reveal_strlit("CP932");
    reveal_strlit("CP936");
    reveal_strlit("CP949");
    reveal_strlit("EUC-KR");
    reveal_strlit("GBK");
    reveal_strlit("LATIN1");
    reveal_strlit("SHIFT_JIS");
    reveal_strlit("SJIS");
    reveal_strlit("UTF-8");
    reveal_strlit("windows-1252");
    assert("1252"@[0] != "SJIS"@[0]);
    assert("1252"@[0] != "BIG5"@[0]);
    assert("1252"@[3] != "1255"@[3]);
    assert("1252"@[3] != "1256"@[3]);
    assert("1252"@[3] != "1250"@[3]);
    assert("1252"@[3] != "1251"@[3]);
    assert("CP1252"@[0] != "EUC-KR"@[0]);
    assert("CP1252"@[0] != "LATIN1"@[0]);
    assert("CP1252"@[5] != "CP1255"@[5]);
    assert("CP1252"@[5] != "CP1256"@[5]);
    assert("CP1252"@[5] != "CP1250"@[5]);
    assert("CP1252"@[5] != "CP1251"@[5]);
    assert("CP1252"@.len() != "SJIS"@.len());
    assert("CP1252"@.len() != "BIG5"@.len());
    assert("CP1252"@.len() != "1255"@.len());
    assert("CP1252"@.len() != "1256"@.len());
    assert("CP1252"@.len() != "1250"@.len());
    assert("CP1252"@.len() != "1251"@.len());
}

/// The encoding label of the code page name `1253`, alone and after `CP`.
proof fn lemma_code_page_label_1253()
    ensures
        code_page_label("1253"@) == Some("windows-1253"@),
        code_page_label("CP1253"@) == Some("windows-1253"@),
{
    reveal_strlit("1250");
    reveal_strlit("1251");
    reveal_strlit("1252");
    reveal_strlit("1253");
    reveal_strlit("1254");
    reveal_strlit("1255");
    reveal_strlit("1256");
    reveal_strlit("65001");
    reveal_strlit("866");
    reveal_strlit("874");
    reveal_strlit("932");
    reveal_strlit("936");
    reveal_strlit("949");
    reveal_strlit("ANSI 1251");
    reveal_strlit("BIG-5");
    reveal_strlit("BIG5");
    reveal_strlit("CP1250");
    reveal_strlit("CP1251");
    reveal_strlit("CP1252");
    reveal_strlit("CP1253");
    reveal_strlit("CP1254");
    reveal_strlit("CP1255");
    reveal_strlit("CP1256");
    reveal_strlit("CP866");
    reveal_strlit("CP874");
    reveal_strlit("CP932");
    reveal_strlit("CP936");
    reveal_strlit("CP949");
    reveal_strlit("EUC-KR");
    reveal_strlit("GBK");
    reveal_strlit("LATIN1");
    reveal_strlit("SHIFT_JIS");
    reveal_strlit("SJIS");
    reveal_strlit("UTF-8");
    reveal_strlit("windows-1253");
    assert("1253"@[0] != "SJIS"@[0]);
    assert("1253"@[0] != "BIG5"@[0]);
    assert("1253"@[3] != "1255"@[3]);
    assert("1253"@[3] != "1256"@[3]);
    assert("1253"@[3] != "1250"@[3]);
    assert("1253"@[3] != "1251"@[3]);
    assert("1253"@[3] != "1252"@[3]);
    assert("1253"@[3] != "1254"@[3]);
    assert("CP1253"@[0] != "EUC-KR"@[0]);
    assert("CP1253"@[0] != "LATIN1"@[0]);
    assert("CP1253"@[5] != "CP1255"@[5]);
    assert("CP1253"@[5] != "CP1256"@[5]);
    assert("CP1253"@[5] != "CP1250"@[5]);
    assert("CP1253"@[5] != "CP1251"@[5]);
    assert("CP1253"@[5] != "CP1252"@[5]);
    assert("CP1253"@[5] != "CP1254"@[5]);
    assert("CP1253"@.len() != "SJIS"@.len());
    assert("CP1253"@.len() != "BIG5"@.len());
    assert("CP1253"@.len() != "1255"@.len());
    assert("CP1253"@.len() != "1256"@.len());
    assert("CP1253"@.len() != "1250"@.len());
    assert("CP1253"@.len() != "1251"@.len());
    assert("CP1253"@.len() != "1252"@.len());
    assert("CP1253"@.len() != "1254"@.len());
}

/// The encoding label of the code page name `1254`, alone and after `CP`.
proof fn lemma_code_page_label_1254()
    ensures
        code_page_label("1254"@) == Some("windows-1254"@),
        code_page_label("CP1254"@) == Some("windows-1254"@),
{
    reveal_strlit("1250");
    reveal_strlit("1251");
    reveal_strlit("1252");
    reveal_strlit("1254");
    reveal_strlit("1255");
    reveal_strlit("1256");
    reveal_strlit("65001");
    reveal_strlit("866");
    reveal_strlit("874");
    reveal_strlit("932");
    reveal_strlit("936");
    reveal_strlit("949");
    reveal_strlit("ANSI 1251");
    reveal_strlit("BIG-5");
    reveal_strlit("BIG5");
    reveal_strlit("CP1250");
    reveal_strlit("CP1251");
    reveal_strlit("CP1252");
    reveal_strlit("CP1254");
    reveal_strlit("CP1255");
    reveal_strlit("CP1256");
    reveal_strlit("CP866");
    reveal_strlit("CP874");
    reveal_strlit("CP932");
    reveal_strlit("CP936");
    reveal_strlit("CP949");
    reveal_strlit("EUC-KR");
    reveal_strlit("GBK");
    reveal_strlit("LATIN1");
    reveal_strlit("SHIFT_JIS");
    reveal_strlit("SJIS");
    reveal_strlit("UTF-8");
    reveal_strlit("windows-1254");
    assert("1254"@[0] != "SJIS"@[0]);
    assert("1254"@[0] != "BIG5"@[0]);
    assert("1254"@[3] != "1255"@[3]);
    assert("1254"@[3] != "1256"@[3]);
    assert("1254"@[3] != "1250"@[3]);
    assert("1254"@[3] != "1251"@[3]);
    assert("1254"@[3] != "1252"@[3]);
    assert("CP1254"@[0] != "EUC-KR"@[0]);
    assert("CP1254"@[0] != "LATIN1"@[0]);
    assert("CP1254"@[5] != "CP1255"@[5]);
    assert("CP1254"@[5] != "CP1256"@[5]);
    assert("CP1254"@[5] != "CP1250"@[5]);
    assert("CP1254"@[5] != "CP1251"@[5]);
    assert("CP1254"@[5] != "CP1252"@[5]);
    assert("CP1254"@.len() != "SJIS"@.len());
    assert("CP1254"@.len() != "BIG5"@.len());
    assert("CP1254"@.len() != "1255"@.len());
    assert("CP1254"@.len() != "1256"@.len());
    assert("CP1254"@.len() != "1250"@.len());
    assert("CP1254"@.len() != "1251"@.len());
    assert("CP1254"@.len() != "1252"@.len());
}

/// The encoding label of the code page name `1255`, alone and after `CP`.
proof fn lemma_code_page_label_1255()
    ensures
        code_page_label("1255"@) == Some("windows-1255"@),
        code_page_label("CP1255"@) == Some("windows-1255"@),
{
    reveal_strlit("1255");
    reveal_strlit("65001");
    reveal_strlit("866");
    reveal_strlit("874");
    reveal_strlit("932");
    reveal_strlit("936");
    reveal_strlit("949");
    reveal_strlit("BIG-5");
    reveal_strlit("BIG5");
    reveal_strlit("CP1255");
    reveal_strlit("CP866");
    reveal_strlit("CP874");
    reveal_strlit("CP932");
    reveal_strlit("CP936");
    reveal_strlit("CP949");
    reveal_strlit("EUC-KR");
    reveal_strlit("GBK");
    reveal_strlit("LATIN1");
    reveal_strlit("SHIFT_JIS");
    reveal_strlit("SJIS");
    reveal_strlit("UTF-8");
    reveal_strlit("windows-1255");
    assert("1255"@[0] != "SJIS"@[0]);
    assert("1255"@[0] != "BIG5"@[0]);
    assert("CP1255"@[0] != "EUC-KR"@[0]);
    assert("CP1255"@[0] != "LATIN1"@[0]);
    assert("CP1255"@.len() != "SJIS"@.len());
    assert("CP1255"@.len() != "BIG5"@.len());
}

/// The encoding label of the code page name `1256`, alone and after `CP`.
proof fn lemma_code_page_label_1256()
    ensures
        code_page_label("1256"@) == Some("windows-1256"@),
        code_page_label("CP1256"@) == Some("windows-1256"@),
{
    reveal_strlit("1255");
    reveal_strlit("1256");
    reveal_strlit("65001");
    reveal_strlit("866");
    reveal_strlit("874");
    reveal_strlit("932");
    reveal_strlit("936");
    reveal_strlit("949");
    reveal_strlit("BIG-5");
    reveal_strlit("BIG5");
    reveal_strlit("CP1255");
    reveal_strlit("CP1256");
    reveal_strlit("CP866");
    reveal_strlit("CP874");
    reveal_strlit("CP932");
    reveal_strlit("CP936");
    reveal_strlit("CP949");
    reveal_strlit("EUC-KR");
    reveal_strlit("GBK");
    reveal_strlit("LATIN1");
    reveal_strlit("SHIFT_JIS");
    reveal_strlit("SJIS");
    reveal_strlit("UTF-8");
    reveal_strlit("windows-1256");
    assert("1256"@[0] != "SJIS"@[0]);
    assert("1256"@[0] != "BIG5"@[0]);
    assert("1256"@[3] != "1255"@[3]);
    assert("CP1256"@[0] != "EUC-KR"@[0]);
    assert("CP1256"@[0] != "LATIN1"@[0]);
    assert("CP1256"@[5] != "CP1255"@[5]);
    assert("CP1256"@.len() != "SJIS"@.len());
    assert("CP1256"@.len() != "BIG5"@.len());
    assert("CP1256"@.len() != "1255"@.len());
}


} // verus!
