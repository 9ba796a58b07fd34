use worker_capabilities::checker::{any_available, is_available};
use worker_capabilities::clock::{seconds_of_reading, unix_time_now};
use worker_capabilities::digest::{hex_encode, sha256_hex};
use worker_capabilities::text::{append_bool, append_decimal, append_joined, str_eq};

#[test]
fn str_eq_compares_characters() {
    assert!(str_eq("", ""));
    assert!(str_eq("clippy", "clippy"));
    assert!(!str_eq("clippy", "clippY"));
    assert!(!str_eq("clippy", "clipp"));
    assert!(!str_eq("", "a"));
    assert!(str_eq("naïve-工具", "naïve-工具"));
    assert!(!str_eq("naïve", "naive"));
}

#[test]
fn append_decimal_renders_without_leading_zeros() {
    let cases: Vec<(u64, &str)> = vec![
        (0, "0"),
        (7, "7"),
        (9, "9"),
        (10, "10"),
        (99, "99"),
        (100, "100"),
        (128, "128"),
        (1_725_029_869, "1725029869"),
        (u64::MAX, "18446744073709551615"),
    ];
    for (n, expected) in cases {
        let mut out = String::from("n=");
        append_decimal(&mut out, n);
        assert_eq!(out, format!("n={}", expected));
    }
}

#[test]
fn append_bool_renders_true_and_false() {
    let mut out = String::new();
    append_bool(&mut out, true);
    append_bool(&mut out, false);
    assert_eq!(out, "truefalse");
}

#[test]
fn append_joined_separates_by_commas() {
    let mut out = String::from(">");
    append_joined(&mut out, &vec![]);
    assert_eq!(out, ">");
    append_joined(&mut out, &vec!["a".to_string()]);
    assert_eq!(out, ">a");
    let mut out = String::new();
    append_joined(&mut out, &vec!["a".to_string(), "".to_string(), "b,c".to_string()]);
    assert_eq!(out, "a,,b,c");
}

#[test]
fn hex_encode_is_lower_case_two_digits_per_byte() {
    assert_eq!(hex_encode(&[]), "");
    assert_eq!(hex_encode(&[0x00, 0x0a, 0x14, 0x1e, 0xff]), "000a141eff");
    assert_eq!(hex_encode(&[0xbe, 0xef]), "beef");
}

#[test]
fn sha256_hex_matches_known_digests() {
    assert_eq!(
        sha256_hex(""),
        "e3b0c44298fc1c149afbf4c8996fb92427ae41e4649b934ca495991b7852b855"
    );
    assert_eq!(
        sha256_hex("hello world"),
        "b94d27b9934d3e08a52e52d7da7dabfac484efe37a5380ee9088f7ace2efcde9"
    );
    assert_eq!(sha256_hex("hello world").len(), 64);
    assert_ne!(sha256_hex("hello world"), "hello world");
}

#[test]
fn checker_helpers_ask_by_name() {
    let checker = |tool: &str| tool == "clippy" || tool == "eslint";
    assert!(is_available(&checker, "clippy"));
    assert!(!is_available(&checker, "pylint"));
    assert!(!any_available(&checker, &vec![]));
    assert!(!any_available(&checker, &vec!["a".to_string(), "b".to_string()]));
    assert!(any_available(&checker, &vec!["a".to_string(), "eslint".to_string()]));
}

#[test]
fn clock_reads_a_time_after_2020() {
    let now = unix_time_now();
    assert!(now > 1_577_836_800);
    let later = unix_time_now();
    assert!(later >= now);
}

#[test]
fn a_clock_before_the_epoch_reads_as_the_epoch() {
    assert_eq!(seconds_of_reading(None), 0);
    assert_eq!(seconds_of_reading(Some(0)), 0);
    assert_eq!(seconds_of_reading(Some(1_725_029_869)), 1_725_029_869);
    assert_eq!(seconds_of_reading(Some(u64::MAX)), u64::MAX);
}
