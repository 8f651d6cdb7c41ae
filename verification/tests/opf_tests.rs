use uncomment::ofile;
use uncomment::opf::{self, decode_utf16_to_utf8, from_u8_to_u16_le, DecodeError};
use uncomment::opf::text;
use uncomment::opf::xlsm::bas_files_from_modules;
use uncomment::rmc::ps;
use uncomment::rmc::xlsm::BasFile;

#[test]
fn test_from_u8_to_u16_le() {
    let src: [u8; 6] = [1, 0, 3, 0, 4, 0];
    let expected_result: [u16; 3] = [1, 3, 4];
    let result = from_u8_to_u16_le(&src);
    assert_eq!(result, expected_result);
}

#[test]
fn test_decode_utf16_to_utf8() {
    let src: [u16; 1] = [0x3001];
    assert_eq!(decode_utf16_to_utf8(&src), String::from("、"))
}

#[test]
fn u16_units_are_little_endian_and_drop_an_odd_byte() {
    assert_eq!(from_u8_to_u16_le(&[0x34, 0x12, 0xFF]), vec![0x1234u16]);
    assert_eq!(from_u8_to_u16_le(&[]), Vec::<u16>::new());
}

#[test]
fn utf16_surrogates() {
    // U+1F600 as a pair, then a lone low surrogate, then a lone high one.
    assert_eq!(decode_utf16_to_utf8(&[0xD83D, 0xDE00, 0xDC00, 0x41, 0xD800]), String::from("😀\u{FFFD}A\u{FFFD}"));
    assert_eq!(decode_utf16_to_utf8(&[0xD800, 0x41]), String::from("\u{FFFD}A"));
}

fn utf16le_with_bom(s: &str) -> Vec<u8> {
    let mut v = vec![0xFF, 0xFE];
    for u in s.encode_utf16() {
        v.push((u & 0xFF) as u8);
        v.push((u >> 8) as u8);
    }
    v
}

#[test]
fn opf_decodes_utf16le_after_bom() {
    let expected = r#"{"id":"ピヨピヨ", "pw":"piyopiyo"}"#;
    let bytes = utf16le_with_bom(expected);
    assert_eq!(opf::decode_contents(&bytes), Ok(String::from(expected)));
    assert_eq!(text::decode_contents(&bytes), Ok(String::from(expected)));
    assert_eq!(ofile::decode_contents(&bytes), Some(String::from(expected)));
}

#[test]
fn utf16le_line_breaks() {
    let bytes = utf16le_with_bom("a\r\nb");
    assert_eq!(opf::decode_contents(&bytes), Ok(String::from("a\r\nb")));
    assert_eq!(text::decode_contents(&bytes), Ok(String::from("a\nb")));
}

#[test]
fn utf8_read_as_it_is() {
    let bytes = "x\r\nテスト".as_bytes();
    assert_eq!(opf::decode_contents(bytes), Ok(String::from("x\r\nテスト")));
    assert_eq!(text::decode_contents(bytes), Ok(String::from("x\r\nテスト")));
    // the first two bytes are the mark
    assert_eq!(ofile::decode_contents(bytes), Some(String::from("\nテスト")));
}

#[test]
fn shift_jis_fallback() {
    // "テスト\r\n" in Shift_JIS.
    let bytes: Vec<u8> = vec![0x83, 0x65, 0x83, 0x58, 0x83, 0x67, 0x0D, 0x0A];
    assert_eq!(opf::decode_contents(&bytes), Ok(String::from("テスト\r\n")));
    assert_eq!(text::decode_contents(&bytes), Ok(String::from("テスト\n")));
    assert_eq!(ofile::decode_contents(&bytes), None);
}

#[test]
fn short_files_are_utf8_only() {
    assert_eq!(text::decode_contents(&[0xFF]), Err(DecodeError::InvalidUtf8));
    assert_eq!(opf::decode_contents(&[0x83]), Err(DecodeError::InvalidUtf8));
    assert_eq!(text::decode_contents(&[]), Ok(String::new()));
    assert_eq!(text::decode_contents(b"a"), Ok(String::from("a")));
}

#[test]
fn modules_to_bas_files() {
    let modules = vec![
        (String::from("Sheet1"), String::from("Attribute VB_Base = \"0{00020820}\"\r\nSub A()\r\nEnd Sub\r\n")),
        (String::from("Utils"), String::from("Attribute VB_Name = \"Utils\"\r\nOption Explicit\r\n")),
        (String::from("Tools"), String::from("Sub B()\nEnd Sub")),
    ];
    let files = bas_files_from_modules(&modules);
    assert_eq!(
        files,
        vec![
            BasFile {
                file_name: String::from("Utils.bas"),
                code: String::from("Attribute VB_Name = \"Utils\"\nOption Explicit\n"),
            },
            BasFile { file_name: String::from("Tools.bas"), code: String::from("Sub B()\nEnd Sub") },
        ]
    );
}

/// The text of the Shift_JIS sample script, with Windows line breaks.
fn sample_script_crlf() -> String {
    String::from(
        r#"Set-Location ($PSScriptRoot)

Function test() {
    <#
    Shift-jis のつもりで書いたコードです。
    #>
    try {
        Write-Output 'This is test !!'
    } catch {
        Write-Host $_  # INFO: remove me
    }
}"#,
    )
    .replace("\n", "\r\n")
}

fn sample_script_bytes() -> Vec<u8> {
    let text = sample_script_crlf();
    let (bytes, _, had_errors) = encoding_rs::SHIFT_JIS.encode(&text);
    assert!(!had_errors);
    bytes.into_owned()
}

#[test]
fn opf_test_open_file() {
    let expected = r#"{"id":"ピヨピヨ", "pw":"piyopiyo"}"#;
    let result = opf::decode_contents(&utf16le_with_bom(expected)).unwrap();
    assert_eq!(result, String::from(expected));
}

#[test]
fn text_test_open_file() {
    let expected = r#"{"id":"ピヨピヨ", "pw":"piyopiyo"}"#;
    let result = text::decode_contents(&utf16le_with_bom(expected)).unwrap();
    assert_eq!(result, String::from(expected));
}

#[test]
fn opf_test_force_read_as_shift_jis() {
    let result = opf::decode_contents(&sample_script_bytes()).unwrap();
    assert_eq!(result, sample_script_crlf());
}

#[test]
fn text_test_force_read_as_shift_jis() {
    let result = text::decode_contents(&sample_script_bytes()).unwrap();
    let expected = String::from(
        r#"Set-Location ($PSScriptRoot)

Function test() {
    <#
    Shift-jis のつもりで書いたコードです。
    #>
    try {
        Write-Output 'This is test !!'
    } catch {
        Write-Host $_  # INFO: remove me
    }
}"#,
    );
    assert_eq!(result, expected);
}

#[test]
fn test_open_file2() {
    // The same script, once in Shift_JIS and once in UTF-8, reads the same.
    let text = sample_script_crlf().replace("\r\n", "\n");
    let (shift_jis, _, had_errors) = encoding_rs::SHIFT_JIS.encode(&text);
    assert!(!had_errors);
    let result_shift_jis = text::decode_contents(&shift_jis).unwrap();
    let result_utf8 = text::decode_contents(text.as_bytes()).unwrap();
    assert_eq!(result_shift_jis, result_utf8);
    assert_eq!(result_utf8, text);
}

#[test]
fn test_remove_comment_2() {
    // Read as the source files are read: Windows line breaks become "\n".
    let src = text::decode_contents(&sample_script_bytes()).unwrap();

    let dst = r#"Set-Location ($PSScriptRoot)

Function test() {
    <#
    Shift-jis のつもりで書いたコードです。
    #>
    try {
        Write-Output 'This is test !!'
    } catch {
        Write-Host $_
    }
}"#;

    assert_eq!(ps::remove_comment(&src.to_string(), &vec!["INFO:"]), dst.to_string());
}

#[test]
fn test_remove_multiline_comment_as_shift_jis() {
    let code = text::decode_contents(&sample_script_bytes()).unwrap();
    let result = ps::remove_comment(&code, &vec!["INFO:"]);
    let result = ps::remove_multiline_comment(&result);

    let dst = String::from(
        r#"Set-Location ($PSScriptRoot)

Function test() {
    try {
        Write-Output 'This is test !!'
    } catch {
        Write-Host $_
    }
}"#,
    );

    assert_eq!(result, dst);
}

#[test]
fn utf16_round_trip() {
    for s in ["", "abc", "、ピヨ", "😀x\u{10FFFF}\u{FFFF}"] {
        let units: Vec<u16> = s.encode_utf16().collect();
        assert_eq!(decode_utf16_to_utf8(&units), s);
    }
}

#[test]
fn utf16le_odd_last_byte() {
    // "A" then a stray byte: one U+FFFD for it.
    assert_eq!(text::decode_contents(&[0xFF, 0xFE, 0x41, 0x00, 0x42]), Ok(String::from("A\u{FFFD}")));
    // An unpaired high surrogate then a stray byte: a single U+FFFD.
    assert_eq!(text::decode_contents(&[0xFF, 0xFE, 0x00, 0xD8, 0x42]), Ok(String::from("\u{FFFD}")));
    // A lone low surrogate.
    assert_eq!(text::decode_contents(&[0xFF, 0xFE, 0x00, 0xDC, 0x41, 0x00]), Ok(String::from("\u{FFFD}A")));
}
