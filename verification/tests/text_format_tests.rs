use progresshub::calculator::formatter::{
    format_bytes, format_percentage, format_remaining_models_and_files, get_percentage_rounded_str,
    get_percentage_with_parens_str,
};
use progresshub::calculator::progress_core::calculate_percentage;
use progresshub::results::ZeroOneOrMany;
use progresshub::sorting::sort_indices;
use progresshub::text::{
    contains_str, ends_with, find_str, lex_less, parse_u32, starts_with, substring_chars,
    trim_matches_char, trim_whitespace,
};

#[test]
fn byte_formatting_units_and_decimals() {
    assert_eq!(format_bytes(0), "0 B");
    assert_eq!(format_bytes(512), "512 B");
    assert_eq!(format_bytes(1536), "1.50 KB");
    assert_eq!(format_bytes(10 * 1024), "10.0 KB");
    assert_eq!(format_bytes(150 * 1024 * 1024), "150 MB");
    assert_eq!(format_bytes(1024 * 1024 * 1024), "1.00 GB");
    assert_eq!(format_bytes(2 * 1024u64.pow(4)), "2.00 TB");
}

#[test]
fn percentage_formatting() {
    assert_eq!(format_percentage(&calculate_percentage(452, 1000)), " 45.2%");
    assert_eq!(format_percentage(&calculate_percentage(1, 1)), "100.0%");
    assert_eq!(format_percentage(&calculate_percentage(1, 0)), "  ---");
    assert_eq!(get_percentage_rounded_str(455, 1000), "46%");
    assert_eq!(get_percentage_rounded_str(5, 0), "---");
    assert_eq!(get_percentage_with_parens_str("Overall", 452, 1000), "Overall ( 45.2%)");
    assert_eq!(format_remaining_models_and_files(2, 7), "Remaining: 2 ■ Models | 7 ▫ Files");
    // Rounding to the nearest tenth, halves up
    assert_eq!(calculate_percentage(1, 3).value_tenths, Some(333));
    assert_eq!(calculate_percentage(2, 3).value_tenths, Some(667));
    assert_eq!(calculate_percentage(999, 1000).value_tenths, Some(999));
}

#[test]
fn string_helpers() {
    assert_eq!(trim_whitespace("  a b \t"), "a b");
    assert_eq!(trim_matches_char("\"etag\"", '"'), "etag");
    assert_eq!(substring_chars("abcdef", 1, 4), "bcd");
    assert_eq!(parse_u32("42"), Some(42));
    assert_eq!(parse_u32(""), None);
    assert_eq!(parse_u32("4294967296"), None);
    assert_eq!(parse_u32("4a"), None);
    assert!(lex_less("Q4_K_M", "Q8_0"));
    assert!(!lex_less("b", "a"));
    assert!(lex_less("a", "ab"));
    assert_eq!(find_str("model.part.h.1", ".part."), Some(5));
    assert!(contains_str("abc", "bc"));
    assert!(starts_with("models--x", "models--"));
    assert!(ends_with("x.gguf", ".gguf"));
}

#[test]
fn sorting_and_results() {
    assert_eq!(sort_indices(vec![3, 1, 2, 1]), vec![1, 1, 2, 3]);
    let z: ZeroOneOrMany<u32> = ZeroOneOrMany::default();
    assert!(z.is_empty());
    assert_eq!(z.len(), 0);
    let one = ZeroOneOrMany::One(5u32);
    assert_eq!(one.iter(), vec![&5]);
    assert_eq!(one.into_vec(), vec![5]);
    let many = ZeroOneOrMany::Many(Vec::<u32>::new());
    assert!(!many.is_empty());
    assert_eq!(many.len(), 0);
}

#[test]
fn whitespace_test_agrees_with_std_on_every_char() {
    for n in 0u32..=0x10FFFF {
        if let Some(c) = char::from_u32(n) {
            assert_eq!(progresshub::text::char_is_whitespace(c), c.is_whitespace(), "U+{:04X}", n);
        }
    }
}
