//! Support for working with different codepages / encodings.

use crate::error::{DecodeError, EncodeError};
use crate::header::CodePageMark;
use crate::whatwg::{label_decoded, label_encoded, web_decode, web_encode, web_gbk, EncodingRs};
use vstd::prelude::*;
use vstd::utf8::{decode_utf8, encode_utf8, valid_utf8};

verus! {

broadcast use vstd::utf8::encode_utf8_valid_utf8, vstd::utf8::encode_utf8_decode_utf8;

/// The characters of bytes read one character per byte.
pub open spec fn ascii_chars(b: Seq<u8>) -> Seq<char> {
    Seq::new(b.len(), |i: int| b[i] as char)
}

/// Whether every byte is below 128.
pub open spec fn all_ascii(b: Seq<u8>) -> bool {
    forall|i: int| 0 <= i < b.len() ==> b[i] < 128
}

/// Index of the first zero byte of `b` at or after `i`, or its length.
pub open spec fn first_zero_from(b: Seq<u8>, i: int) -> int
    decreases b.len() - i,
{
    if i >= b.len() {
        b.len() as int
    } else if b[i] == 0 {
        i
    } else {
        first_zero_from(b, i + 1)
    }
}

/// ASCII bytes are their own UTF-8 encoding.
pub proof fn lemma_ascii_is_utf8(b: Seq<u8>)
    requires
        all_ascii(b),
    ensures
        encode_utf8(ascii_chars(b)) == b,
        valid_utf8(b),
        decode_utf8(b) == ascii_chars(b),
{
    let c = ascii_chars(b);
    assert(vstd::utf8::is_ascii_chars(c));
    vstd::utf8::is_ascii_chars_encode_utf8(c);
    assert forall|i: int| 0 <= i < b.len() implies encode_utf8(c)[i] == b[i] by {
        assert(c[i] as u8 == encode_utf8(c)[i]);
    }
    assert(encode_utf8(c) =~= b);
}

/// What `String::from_utf8_lossy` (std) returns for the given bytes: their
/// UTF-8 decoding, each invalid sequence replaced by U+FFFD.
pub uninterp spec fn utf8_lossy(bytes: Seq<u8>) -> Seq<char>;

/// `String::from_utf8` from std: the decoded text if the bytes are valid
/// UTF-8, the bytes back otherwise.
#[verifier::external_body]
fn string_from_utf8(bytes: Vec<u8>) -> (r: Result<String, Vec<u8>>)
    ensures
        r is Ok <==> valid_utf8(bytes@),
        r matches Ok(s) ==> s@ == decode_utf8(bytes@),
        r matches Err(b) ==> b@ == bytes@,
{
    match String::from_utf8(bytes) {
        Ok(s) => Ok(s),
        Err(e) => Err(e.into_bytes()),
    }
}

/// `String::from_utf8_lossy` from std (made owned): the UTF-8 decoding of the
/// bytes with each invalid sequence replaced by U+FFFD; for valid UTF-8 it is
/// the plain decoding.
#[verifier::external_body]
fn string_from_utf8_lossy(bytes: &[u8]) -> (r: String)
    ensures
        r@ == utf8_lossy(bytes@),
        valid_utf8(bytes@) ==> r@ == decode_utf8(bytes@),
{
    String::from_utf8_lossy(bytes).into_owned()
}

/// The UTF-8 bytes of a string.
pub fn utf8_bytes(s: &str) -> (r: Vec<u8>)
    ensures
        r@ == encode_utf8(s@),
{
    vstd::slice::slice_to_vec(s.as_bytes())
}

/// A string made of ASCII bytes, one character per byte.
pub fn ascii_string(bytes: Vec<u8>) -> (r: String)
    requires
        all_ascii(bytes@),
    ensures
        r@ == ascii_chars(bytes@),
{
    proof {
        lemma_ascii_is_utf8(bytes@);
    }
    match string_from_utf8(bytes) {
        Ok(s) => s,
        Err(_) => {
            proof {
                assert(false);
            }
            String::new()
        },
    }
}

/// Types that know the code page mark written in the header of files whose
/// strings they encode.
pub trait AsCodePageMark {
    /// The code page mark, in specifications.
    spec fn spec_code_page_mark(&self) -> CodePageMark;

    /// The code page mark of this encoding.
    fn code_page_mark(&self) -> (r: CodePageMark)
        ensures
            r == self.spec_code_page_mark(),
    ;
}

/// Trait for reading strings from (and writing strings to) the database files.
///
/// `spec_decode` and `spec_encode` say what the methods compute, `None`
/// standing for an error.
pub trait Encoding: AsCodePageMark {
    /// The text that `bytes` decode to, `None` when they cannot be decoded.
    spec fn spec_decode(&self, bytes: Seq<u8>) -> Option<Seq<char>>;

    /// The bytes that `text` encodes to, `None` when it cannot be encoded.
    spec fn spec_encode(&self, text: Seq<char>) -> Option<Seq<u8>>;

    /// Decode encoding into UTF-8 string. If codepoints can't be represented, an error is returned.
    fn decode(&self, bytes: &[u8]) -> (r: Result<String, DecodeError>)
        ensures
            r is Ok <==> self.spec_decode(bytes@) is Some,
            r matches Ok(s) ==> self.spec_decode(bytes@) == Some(s@),
    ;

    /// Encode a string into the bytes of this encoding.
    fn encode(&self, s: &str) -> (r: Result<Vec<u8>, EncodeError>)
        ensures
            r is Ok <==> self.spec_encode(s@) is Some,
            r matches Ok(b) ==> self.spec_encode(s@) == Some(b@),
    ;
}

/// This unit struct can be used as an [`Encoding`] to try to decode characters as Unicode,
/// falling back to the replacement character for unknown codepoints.
#[derive(Copy, Clone, Debug)]
pub struct UnicodeLossy;

/// This unit struct can be used as an [`Encoding`] to try to decode a string as Unicode,
/// and returning an error if unknown codepoints are encountered.
#[derive(Copy, Clone, Debug)]
pub struct Unicode;

/// This unit struct can be used as an [`Encoding`] to try to decode characters as ASCII,
/// and returning an error if non-ascii codepoints are encountered.
#[derive(Copy, Clone, Debug)]
pub struct Ascii;

/// The text ASCII bytes decode to: the bytes before the first zero byte,
/// which must all be ASCII.
pub open spec fn spec_ascii_decode(bytes: Seq<u8>) -> Option<Seq<char>> {
    let z = first_zero_from(bytes, 0);
    if all_ascii(bytes.subrange(0, z)) {
        Some(ascii_chars(bytes.subrange(0, z)))
    } else {
        None
    }
}

/// Tries to decode as Unicode, replaces unknown codepoints with the replacement character.
impl Encoding for UnicodeLossy {
    open spec fn spec_decode(&self, bytes: Seq<u8>) -> Option<Seq<char>> {
        if valid_utf8(bytes) {
            Some(decode_utf8(bytes))
        } else {
            Some(utf8_lossy(bytes))
        }
    }

    open spec fn spec_encode(&self, text: Seq<char>) -> Option<Seq<u8>> {
        Some(encode_utf8(text))
    }

    fn decode(&self, bytes: &[u8]) -> (r: Result<String, DecodeError>) {
        Ok(string_from_utf8_lossy(bytes))
    }

    fn encode(&self, s: &str) -> (r: Result<Vec<u8>, EncodeError>) {
        Ok(utf8_bytes(s))
    }
}

impl AsCodePageMark for UnicodeLossy {
    open spec fn spec_code_page_mark(&self) -> CodePageMark {
        CodePageMark::Utf8
    }

    fn code_page_mark(&self) -> (r: CodePageMark) {
        CodePageMark::Utf8
    }
}

/// Tries to decode as Unicode, if unrepresentable characters are found, an [`Err`] is returned.
impl Encoding for Unicode {
    open spec fn spec_decode(&self, bytes: Seq<u8>) -> Option<Seq<char>> {
        if valid_utf8(bytes) {
            Some(decode_utf8(bytes))
        } else {
            None
        }
    }

    open spec fn spec_encode(&self, text: Seq<char>) -> Option<Seq<u8>> {
        Some(encode_utf8(text))
    }

    fn decode(&self, bytes: &[u8]) -> (r: Result<String, DecodeError>) {
        match string_from_utf8(vstd::slice::slice_to_vec(bytes)) {
            Ok(s) => Ok(s),
            Err(b) => Err(DecodeError::FromUtf8(b)),
        }
    }

    fn encode(&self, s: &str) -> (r: Result<Vec<u8>, EncodeError>) {
        Ok(utf8_bytes(s))
    }
}

impl AsCodePageMark for Unicode {
    open spec fn spec_code_page_mark(&self) -> CodePageMark {
        CodePageMark::Utf8
    }

    fn code_page_mark(&self) -> (r: CodePageMark) {
        CodePageMark::Utf8
    }
}

/// Tries to decode as ASCII, if unrepresentable characters are found, an [`Err`] is returned.
impl Encoding for Ascii {
    open spec fn spec_decode(&self, bytes: Seq<u8>) -> Option<Seq<char>> {
        spec_ascii_decode(bytes)
    }

    open spec fn spec_encode(&self, text: Seq<char>) -> Option<Seq<u8>> {
        Some(encode_utf8(text))
    }

    fn decode(&self, bytes: &[u8]) -> (r: Result<String, DecodeError>) {
        // header can be ASCIIZ, terminated by \0, so only read up to this character
        let mut zero_pos: usize = 0;
        while zero_pos < bytes.len() && bytes[zero_pos] != 0
            invariant
                0 <= zero_pos <= bytes@.len(),
                first_zero_from(bytes@, 0) == first_zero_from(bytes@, zero_pos as int),
            decreases bytes@.len() - zero_pos,
        {
            zero_pos = zero_pos + 1;
        }
        assert(zero_pos == first_zero_from(bytes@, zero_pos as int));
        let mut str_bytes: Vec<u8> = Vec::new();
        let mut i: usize = 0;
        while i < zero_pos
            invariant
                0 <= i <= zero_pos <= bytes@.len(),
                zero_pos == first_zero_from(bytes@, 0),
                str_bytes@ == bytes@.subrange(0, i as int),
                all_ascii(str_bytes@),
            decreases zero_pos - i,
        {
            if bytes[i] >= 128 {
                assert(bytes@.subrange(0, zero_pos as int)[i as int] == bytes[i as int]);
                assert(!all_ascii(bytes@.subrange(0, first_zero_from(bytes@, 0))));
                return Err(DecodeError::NotAscii);
            }
            str_bytes.push(bytes[i]);
            assert(str_bytes@ =~= bytes@.subrange(0, i + 1));
            i = i + 1;
        }
        Ok(ascii_string(str_bytes))
    }

    fn encode(&self, s: &str) -> (r: Result<Vec<u8>, EncodeError>) {
        Ok(utf8_bytes(s))
    }
}

impl AsCodePageMark for Ascii {
    open spec fn spec_code_page_mark(&self) -> CodePageMark {
        CodePageMark::Utf8
    }

    fn code_page_mark(&self) -> (r: CodePageMark) {
        CodePageMark::Utf8
    }
}

/// The GBK (code page 936) encoding, by the `encoding_rs` crate; unlike
/// [`EncodingRs`], it refuses malformed or unmappable input.
#[derive(Copy, Clone, Debug)]
pub struct GbkEncoding;

impl Encoding for GbkEncoding {
    open spec fn spec_decode(&self, bytes: Seq<u8>) -> Option<Seq<char>> {
        if label_decoded("gbk"@, bytes).1 {
            None
        } else {
            Some(label_decoded("gbk"@, bytes).0)
        }
    }

    open spec fn spec_encode(&self, text: Seq<char>) -> Option<Seq<u8>> {
        if label_encoded("gbk"@, text).1 {
            None
        } else {
            Some(label_encoded("gbk"@, text).0)
        }
    }

    fn decode(&self, bytes: &[u8]) -> (r: Result<String, DecodeError>) {
        let (text, had_errors) = web_decode(&web_gbk(), bytes);
        if had_errors {
            Err(DecodeError::Message(String::from_str("GBK decode error")))
        } else {
            Ok(text)
        }
    }

    fn encode(&self, s: &str) -> (r: Result<Vec<u8>, EncodeError>) {
        let (bytes, had_errors) = web_encode(&web_gbk(), s);
        if had_errors {
            Err(EncodeError::Message(String::from_str("GBK encode error")))
        } else {
            Ok(bytes)
        }
    }
}

impl AsCodePageMark for GbkEncoding {
    open spec fn spec_code_page_mark(&self) -> CodePageMark {
        CodePageMark::CP936
    }

    fn code_page_mark(&self) -> (r: CodePageMark) {
        CodePageMark::CP936
    }
}

/// One of the encodings of this library, chosen at run time.
#[derive(Copy, Clone, Debug)]
pub enum DynEncoding {
    Ascii(Ascii),
    Unicode(Unicode),
    UnicodeLossy(UnicodeLossy),
    Gbk(GbkEncoding),
    EncodingRs(EncodingRs),
}

impl Encoding for DynEncoding {
    open spec fn spec_decode(&self, bytes: Seq<u8>) -> Option<Seq<char>> {
        match self {
            DynEncoding::Ascii(e) => e.spec_decode(bytes),
            DynEncoding::Unicode(e) => e.spec_decode(bytes),
            DynEncoding::UnicodeLossy(e) => e.spec_decode(bytes),
            DynEncoding::Gbk(e) => e.spec_decode(bytes),
            DynEncoding::EncodingRs(e) => e.spec_decode(bytes),
        }
    }

    open spec fn spec_encode(&self, text: Seq<char>) -> Option<Seq<u8>> {
        match self {
            DynEncoding::Ascii(e) => e.spec_encode(text),
            DynEncoding::Unicode(e) => e.spec_encode(text),
            DynEncoding::UnicodeLossy(e) => e.spec_encode(text),
            DynEncoding::Gbk(e) => e.spec_encode(text),
            DynEncoding::EncodingRs(e) => e.spec_encode(text),
        }
    }

    fn decode(&self, bytes: &[u8]) -> (r: Result<String, DecodeError>) {
        match self {
            DynEncoding::Ascii(e) => e.decode(bytes),
            DynEncoding::Unicode(e) => e.decode(bytes),
            DynEncoding::UnicodeLossy(e) => e.decode(bytes),
            DynEncoding::Gbk(e) => e.decode(bytes),
            DynEncoding::EncodingRs(e) => e.decode(bytes),
        }
    }

    fn encode(&self, s: &str) -> (r: Result<Vec<u8>, EncodeError>) {
        match self {
            DynEncoding::Ascii(e) => e.encode(s),
            DynEncoding::Unicode(e) => e.encode(s),
            DynEncoding::UnicodeLossy(e) => e.encode(s),
            DynEncoding::Gbk(e) => e.encode(s),
            DynEncoding::EncodingRs(e) => e.encode(s),
        }
    }
}

impl AsCodePageMark for DynEncoding {
    open spec fn spec_code_page_mark(&self) -> CodePageMark {
        match self {
            DynEncoding::Ascii(e) => e.spec_code_page_mark(),
            DynEncoding::Unicode(e) => e.spec_code_page_mark(),
            DynEncoding::UnicodeLossy(e) => e.spec_code_page_mark(),
            DynEncoding::Gbk(e) => e.spec_code_page_mark(),
            DynEncoding::EncodingRs(e) => e.spec_code_page_mark(),
        }
    }

    fn code_page_mark(&self) -> (r: CodePageMark) {
        match self {
            DynEncoding::Ascii(e) => e.code_page_mark(),
            DynEncoding::Unicode(e) => e.code_page_mark(),
            DynEncoding::UnicodeLossy(e) => e.code_page_mark(),
            DynEncoding::Gbk(e) => e.code_page_mark(),
            DynEncoding::EncodingRs(e) => e.code_page_mark(),
        }
    }
}

impl From<Ascii> for DynEncoding {
    fn from(value: Ascii) -> (r: Self) {
        DynEncoding::Ascii(value)
    }
}

impl vstd::std_specs::convert::FromSpecImpl<Ascii> for DynEncoding {
    open spec fn obeys_from_spec() -> bool {
        true
    }

    open spec fn from_spec(value: Ascii) -> DynEncoding {
        DynEncoding::Ascii(value)
    }
}

impl From<Unicode> for DynEncoding {
    fn from(value: Unicode) -> (r: Self) {
        DynEncoding::Unicode(value)
    }
}

impl vstd::std_specs::convert::FromSpecImpl<Unicode> for DynEncoding {
    open spec fn obeys_from_spec() -> bool {
        true
    }

    open spec fn from_spec(value: Unicode) -> DynEncoding {
        DynEncoding::Unicode(value)
    }
}

impl From<UnicodeLossy> for DynEncoding {
    fn from(value: UnicodeLossy) -> (r: Self) {
        DynEncoding::UnicodeLossy(value)
    }
}

impl vstd::std_specs::convert::FromSpecImpl<UnicodeLossy> for DynEncoding {
    open spec fn obeys_from_spec() -> bool {
        true
    }

    open spec fn from_spec(value: UnicodeLossy) -> DynEncoding {
        DynEncoding::UnicodeLossy(value)
    }
}

impl From<GbkEncoding> for DynEncoding {
    fn from(value: GbkEncoding) -> (r: Self) {
        DynEncoding::Gbk(value)
    }
}

impl vstd::std_specs::convert::FromSpecImpl<GbkEncoding> for DynEncoding {
    open spec fn obeys_from_spec() -> bool {
        true
    }

    open spec fn from_spec(value: GbkEncoding) -> DynEncoding {
        DynEncoding::Gbk(value)
    }
}

impl From<EncodingRs> for DynEncoding {
    fn from(value: EncodingRs) -> (r: Self) {
        DynEncoding::EncodingRs(value)
    }
}

impl vstd::std_specs::convert::FromSpecImpl<EncodingRs> for DynEncoding {
    open spec fn obeys_from_spec() -> bool {
        true
    }

    open spec fn from_spec(value: EncodingRs) -> DynEncoding {
        DynEncoding::EncodingRs(value)
    }
}

impl CodePageMark {
    /// The encoding used to read the strings of a file with this code page mark.
    ///
    /// Every code page is read as (lossy) UTF-8.
    pub fn to_encoding(self) -> (r: Option<DynEncoding>)
        ensures
            r == Some(DynEncoding::UnicodeLossy(UnicodeLossy)),
    {
        Some(DynEncoding::UnicodeLossy(UnicodeLossy))
    }
}
} // verus!
