use dbase::{
    AsCodePageMark, Ascii, CodePageMark, DynEncoding, Encoding, EncodingRs, GbkEncoding, Unicode,
    UnicodeLossy,
};

fn cp(name: &str) -> Option<CodePageMark> {
    DynEncoding::from_name(name).map(|e| e.code_page_mark())
}

#[test]
fn from_name_known_code_pages() {
    assert_eq!(cp("UTF-8"), Some(CodePageMark::Utf8));
    assert_eq!(cp("65001"), Some(CodePageMark::Utf8));
    assert_eq!(cp("SJIS"), Some(CodePageMark::CP932));
    assert_eq!(cp("GBK"), Some(CodePageMark::CP936));
    assert_eq!(cp("cp949"), Some(CodePageMark::CP949));
    assert_eq!(cp("Big-5"), Some(CodePageMark::CP950));
    assert_eq!(cp("866"), Some(CodePageMark::CP866));
    assert_eq!(cp("874"), Some(CodePageMark::CP874));
    assert_eq!(cp("ANSI 1251"), Some(CodePageMark::CP1251));
    assert_eq!(cp("1252"), Some(CodePageMark::CP1252));
    assert_eq!(cp("latin1"), Some(CodePageMark::CP1252));
    assert_eq!(cp("LATIN1"), Some(CodePageMark::CP1252));
    assert_eq!(cp("CP1253"), Some(CodePageMark::CP1253));
    assert_eq!(cp("1254"), Some(CodePageMark::CP1254));
    assert_eq!(cp("1255"), Some(CodePageMark::CP1255));
    assert_eq!(cp("1256"), Some(CodePageMark::CP1256));
    assert_eq!(cp("1250"), Some(CodePageMark::CP1250));
}

#[test]
fn from_name_trims_and_ignores_case() {
    assert_eq!(cp("  cp1251\r\n"), Some(CodePageMark::CP1251));
    assert_eq!(cp("\u{feff}UTF-8"), Some(CodePageMark::Utf8));
    assert_eq!(cp("\u{3000}gbk\u{a0}"), Some(CodePageMark::CP936));
}

#[test]
fn from_name_iso_parts() {
    // parts 1 and 9 are read as windows-1252 and windows-1254
    assert_eq!(cp("ISO-8859-1"), Some(CodePageMark::CP1252));
    assert_eq!(cp("88599"), Some(CodePageMark::CP1254));
    // the other parts have code pages without a mark of their own
    assert_eq!(cp("8859-2"), Some(CodePageMark::Utf8));
    assert_eq!(cp("iso-8859-16"), Some(CodePageMark::Utf8));
}

#[test]
fn from_name_unknown() {
    assert!(DynEncoding::from_name("").is_none());
    assert!(DynEncoding::from_name("   ").is_none());
    assert!(DynEncoding::from_name("klingon").is_none());
    assert!(DynEncoding::from_name("8859-11").is_none());
    // the byte order mark is only dropped after trimming
    assert!(DynEncoding::from_name(" \u{feff} UTF-8").is_none());
}

#[test]
fn encoding_rs_decodes_and_encodes() {
    let enc = DynEncoding::from_name("1252").unwrap();
    assert_eq!(enc.decode(&[0x63, 0x61, 0x66, 0xe9]).unwrap(), "café");
    assert_eq!(enc.encode("café").unwrap(), vec![0x63, 0x61, 0x66, 0xe9]);
    // unmappable characters become numeric character references
    assert_eq!(enc.encode("€✓").unwrap(), b"\x80&#10003;".to_vec());

    let cyrillic = EncodingRs::from_label("windows-1251").unwrap();
    assert_eq!(cyrillic.decode(&[0xcf, 0xf0, 0xe8]).unwrap(), "При");
    assert_eq!(cyrillic.code_page_mark(), CodePageMark::CP1251);
    assert!(EncodingRs::from_label("no such label").is_none());
}

#[test]
fn encoding_rs_decoding_is_lossy() {
    let enc = DynEncoding::from_name("UTF-8").unwrap();
    assert_eq!(enc.decode(&[0x61, 0xff, 0x62]).unwrap(), "a\u{fffd}b");
}

#[test]
fn gbk_refuses_malformed_input() {
    let gbk = GbkEncoding;
    assert_eq!(gbk.decode(&[0xc4, 0xe3, 0xba, 0xc3]).unwrap(), "你好");
    assert_eq!(gbk.encode("你好").unwrap(), vec![0xc4, 0xe3, 0xba, 0xc3]);
    assert!(gbk.decode(&[0x81]).is_err());
    assert!(gbk.encode("\u{1f600}").is_err());
    assert_eq!(gbk.code_page_mark(), CodePageMark::CP936);
}

#[test]
fn utf8_encodings() {
    assert_eq!(Unicode.decode("é".as_bytes()).unwrap(), "é");
    assert!(Unicode.decode(&[0xff]).is_err());
    assert_eq!(UnicodeLossy.decode(&[0xff]).unwrap(), "\u{fffd}");
    assert_eq!(Ascii.decode(b"abc\0def").unwrap(), "abc");
    assert!(Ascii.decode(&[0x61, 0x80]).is_err());
}
