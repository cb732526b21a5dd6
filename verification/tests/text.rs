use unbg::text::{
    chars_of, contains, decimal, ends_with, is_blank, is_whitespace, lower_char, starts_with,
    text_eq, text_lt, to_ascii_lowercase, trim,
};

#[test]
fn characters_in_order() {
    assert_eq!(chars_of("aé漢"), vec!['a', 'é', '漢']);
    assert!(chars_of("").is_empty());
}

#[test]
fn ascii_lowercase_touches_only_ascii_capitals() {
    assert_eq!(to_ascii_lowercase("RMBG-1.4 ÄB"), "rmbg-1.4 Äb");
    assert_eq!(to_ascii_lowercase("AZaz@["), "azaz@[");
    assert_eq!(lower_char('A'), 'a');
    assert_eq!(lower_char('Z'), 'z');
    assert_eq!(lower_char('@'), '@');
    assert_eq!(lower_char('['), '[');
    assert_eq!(to_ascii_lowercase("MiXeD"), "MiXeD".to_ascii_lowercase());
}

#[test]
fn substring_search() {
    assert!(contains("onnx/model_fp16.onnx", "fp16"));
    assert!(contains("abc", ""));
    assert!(contains("", ""));
    assert!(!contains("", "a"));
    assert!(!contains("ab", "abc"));
    assert!(contains("aab", "ab"));
    assert!(!contains("model", "q8"));
    assert!(starts_with("onnx/model.onnx", "onnx/"));
    assert!(!starts_with("xonnx/model.onnx", "onnx/"));
    assert!(!starts_with("on", "onnx/"));
    assert!(ends_with("onnx/model.onnx", ".onnx"));
    assert!(!ends_with("onnx/model.onnx.part", ".onnx"));
    assert!(ends_with("a", ""));
}

#[test]
fn equality_and_order_of_texts() {
    assert!(text_eq("abc", "abc"));
    assert!(!text_eq("abc", "abd"));
    assert!(!text_eq("abc", "ab"));
    let samples = ["", "a", "ab", "b", "B", "config.json", "onnx/model.onnx", "é", "z"];
    for a in samples {
        for b in samples {
            assert_eq!(text_lt(a, b), a < b, "{:?} < {:?}", a, b);
        }
    }
}

#[test]
fn blank_texts() {
    assert!(is_blank(""));
    assert!(is_blank(" \t\r\n"));
    assert!(is_blank("\u{a0}\u{2003}\u{3000}"));
    assert!(!is_blank(" a "));
    assert!(!is_blank("\u{200b}"));
    for c in [' ', '\t', '\n', '\u{b}', '\u{c}', '\r', '\u{85}', '\u{a0}', '\u{1680}', '\u{2000}',
        '\u{200a}', '\u{2028}', '\u{2029}', '\u{202f}', '\u{205f}', '\u{3000}', 'a', '0', '\u{8}',
        '\u{e}', '\u{200b}', '\u{feff}']
    {
        assert_eq!(is_whitespace(c), c.is_whitespace(), "{:?}", c);
    }
}

#[test]
fn trimming() {
    assert_eq!(trim("  yes \n"), "yes");
    assert_eq!(trim("yes"), "yes");
    assert_eq!(trim(" a b "), "a b");
    assert_eq!(trim("   "), "");
    assert_eq!(trim(""), "");
    assert_eq!(trim("\u{3000}x"), "x");
}

#[test]
fn decimal_numerals() {
    assert_eq!(decimal(0), "0");
    assert_eq!(decimal(7), "7");
    assert_eq!(decimal(10), "10");
    assert_eq!(decimal(1_048_576), "1048576");
    assert_eq!(decimal(u64::MAX), "18446744073709551615");
}
