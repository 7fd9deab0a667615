use std::path::Path;

use mcat::paths::{file_name_of, split_stem};
use mcat::text::{
    contains_i64, contains_text, dedup_i64s, dedup_texts, i64_to_decimal, join, parse_i64,
    same_text, split_once_at, str_less, sub_text, to_hex_lower,
};

fn strings(v: &[&str]) -> Vec<String> {
    v.iter().map(|s| s.to_string()).collect()
}

#[test]
fn decimal_text_of_integers() {
    assert_eq!(i64_to_decimal(0), "0");
    assert_eq!(i64_to_decimal(42), "42");
    assert_eq!(i64_to_decimal(-7), "-7");
    assert_eq!(i64_to_decimal(i64::MAX), "9223372036854775807");
    assert_eq!(i64_to_decimal(i64::MIN), "-9223372036854775808");
}

#[test]
fn parsing_integers_as_rust_does() {
    let cases = [
        "0", "+5", "-0", "12", "-12", "", "+", "-", "12a", " 1", "1 ", "007",
        "9223372036854775807", "9223372036854775808", "-9223372036854775808",
        "-9223372036854775809", "3/12", "١",
    ];
    for c in cases {
        assert_eq!(parse_i64(c), c.parse::<i64>().ok(), "input {:?}", c);
    }
}

#[test]
fn decimal_text_parses_back() {
    for v in [0i64, 1, -1, 1234567, i64::MAX, i64::MIN] {
        assert_eq!(parse_i64(&i64_to_decimal(v)), Some(v));
    }
}

#[test]
fn splitting_at_the_first_separator() {
    assert_eq!(split_once_at("k=v=w", '='), Some(("k".to_string(), "v=w".to_string())));
    assert_eq!(split_once_at("=v", '='), Some(("".to_string(), "v".to_string())));
    assert_eq!(split_once_at("kv", '='), None);
}

#[test]
fn joining_and_slicing_text() {
    assert_eq!(join(&strings(&["a", "b", "c"]), ", "), "a, b, c");
    assert_eq!(join(&strings(&[]), ", "), "");
    assert_eq!(join(&strings(&["only"]), " OR "), "only");
    let cs: Vec<char> = "héllo".chars().collect();
    assert_eq!(sub_text(&cs, 1, 4), "éll");
}

#[test]
fn deduplication_keeps_first_occurrences() {
    assert_eq!(dedup_texts(&strings(&["x", "y", "x", "z", "y"])), strings(&["x", "y", "z"]));
    assert_eq!(dedup_i64s(&vec![3, 3, 1, 3, 2, 1]), vec![3, 1, 2]);
    assert_eq!(dedup_i64s(&vec![]), Vec::<i64>::new());
    assert!(contains_text(&strings(&["a", "b"]), "b"));
    assert!(!contains_text(&strings(&["a", "b"]), "c"));
    assert!(contains_i64(&vec![4, 5], 5));
    assert!(!contains_i64(&vec![4, 5], 6));
}

#[test]
fn text_order_is_string_order() {
    let words = ["", "a", "ab", "b", "B", "é", "z", "黄金时代", "鹤顶红"];
    for a in words {
        for b in words {
            assert_eq!(str_less(a, b), a < b, "{:?} < {:?}", a, b);
            assert_eq!(same_text(a, b), a == b);
        }
    }
}

#[test]
fn lower_case_hex() {
    assert_eq!(to_hex_lower(&[0x00, 0x0f, 0xab, 0xff]), "000fabff");
    assert_eq!(to_hex_lower(&[]), "");
}

#[test]
fn file_names_as_std_path_reads_them() {
    let cases = [
        "a/b.flac", "b.flac", "a/b/", "a/b//", "a/.", "a/..", "/", "", ".", "..", "a//b",
        "./x", "/music/Saeglopur - Sigur Rós.flac", "x/./", "../y",
    ];
    for c in cases {
        let expected = Path::new(c).file_name().map(|n| n.to_str().unwrap().to_string());
        assert_eq!(file_name_of(c), expected, "path {:?}", c);
    }
}

#[test]
fn stems_and_extensions_as_std_path_reads_them() {
    let cases = ["a.flac", "archive.tar.gz", ".hidden", "noext", "a.", "..x", "x..y"];
    for c in cases {
        let p = Path::new(c);
        let stem = p.file_stem().unwrap().to_str().unwrap().to_string();
        let ext = p.extension().map(|e| e.to_str().unwrap().to_string());
        assert_eq!(split_stem(c), (stem, ext), "name {:?}", c);
    }
}
