use gaggle::text::{
    char_is_control, char_is_white_space, chars_of, decimal_string, eq_ignore_ascii_case,
    parse_decimal, signed_decimal_string,
};
use gaggle::utils::{guess_reader_for_path, join_path};

#[test]
fn test_guess_reader_for_path_mapping() {
    assert_eq!(guess_reader_for_path("file.parquet"), "read_parquet");
    assert_eq!(guess_reader_for_path("file.PARQ"), "read_parquet");
    assert_eq!(guess_reader_for_path("file.json"), "read_json_auto");
    assert_eq!(guess_reader_for_path("file.JSONL"), "read_json_auto");
    assert_eq!(guess_reader_for_path("file.ndjson"), "read_json_auto");
    assert_eq!(guess_reader_for_path("file.xlsx"), "read_excel");
    assert_eq!(guess_reader_for_path("file.csv"), "read_csv_auto");
    assert_eq!(guess_reader_for_path("file.txt"), "read_csv_auto");
}

#[test]
fn the_reader_goes_by_the_end_of_the_name() {
    assert_eq!(guess_reader_for_path(".parquet"), "read_parquet");
    assert_eq!(guess_reader_for_path("parquet"), "read_csv_auto");
    assert_eq!(guess_reader_for_path("a.parquet.csv"), "read_csv_auto");
    assert_eq!(guess_reader_for_path("a.json.XLSX"), "read_excel");
    assert_eq!(guess_reader_for_path("a.xls"), "read_csv_auto");
    assert_eq!(guess_reader_for_path(""), "read_csv_auto");
    // only ASCII capitals fold: the Kelvin sign is no `k`
    assert_eq!(guess_reader_for_path("a.PARQUET"), "read_parquet");
    assert_eq!(guess_reader_for_path("a.\u{212a}son"), "read_csv_auto");
    assert_eq!(guess_reader_for_path("é.NdJson"), "read_json_auto");
}

#[test]
fn paths_are_joined_with_one_separator() {
    assert_eq!(join_path("/a", "b"), "/a/b");
    assert_eq!(join_path("/a/", "b"), "/a/b");
    assert_eq!(join_path("", "b"), "b");
    assert_eq!(join_path(".", "gaggle"), "./gaggle");
    assert_eq!(join_path("/", "b"), "/b");
    assert_eq!(join_path("a", ""), "a/");
}

#[test]
fn white_space_and_control_characters_are_those_of_unicode() {
    for c in (0..=0x10FFFFu32).filter_map(char::from_u32) {
        assert_eq!(char_is_white_space(c), c.is_whitespace(), "{:?}", c);
        assert_eq!(char_is_control(c), c.is_control(), "{:?}", c);
    }
}

#[test]
fn characters_come_out_in_order() {
    assert_eq!(chars_of("aé数\u{1F600}"), vec!['a', 'é', '数', '\u{1F600}']);
    assert!(chars_of("").is_empty());
}

#[test]
fn numerals_are_read_like_unsigned_integers() {
    for text in [
        "0", "1", "+1", "007", "255", "256", "+", "", "-1", "1 ", " 1", "1_000", "0x10", "١",
        "4294967295", "4294967296", "99999999999999999999999", "+0", "++1", "1+", "00000000000000000000000001",
    ] {
        assert_eq!(parse_decimal(text, u8::MAX as u64), text.parse::<u8>().ok().map(u64::from), "{:?}", text);
        assert_eq!(parse_decimal(text, u32::MAX as u64), text.parse::<u32>().ok().map(u64::from), "{:?}", text);
        assert_eq!(parse_decimal(text, u64::MAX), text.parse::<u64>().ok(), "{:?}", text);
    }
    assert_eq!(parse_decimal("18446744073709551615", u64::MAX), Some(u64::MAX));
    assert_eq!(parse_decimal("18446744073709551616", u64::MAX), None);
    assert_eq!(parse_decimal("5", 0), None);
    assert_eq!(parse_decimal("0", 0), Some(0));
}

#[test]
fn numbers_are_rendered_in_decimal() {
    for n in [0u64, 1, 9, 10, 11, 99, 100, 101, 12345, u32::MAX as u64, u64::MAX] {
        assert_eq!(decimal_string(n), n.to_string());
    }
    for n in [0i64, 1, -1, 10, -10, i64::MAX, i64::MIN, i64::MIN + 1, -9, 42] {
        assert_eq!(signed_decimal_string(n), n.to_string());
    }
}

#[test]
fn words_are_compared_without_regard_to_ascii_case() {
    assert!(eq_ignore_ascii_case("TrUe", "true"));
    assert!(eq_ignore_ascii_case("", ""));
    assert!(!eq_ignore_ascii_case("true ", "true"));
    assert!(!eq_ignore_ascii_case("tru", "true"));
    assert!(!eq_ignore_ascii_case("\u{212a}", "k"));
    assert!(eq_ignore_ascii_case("É", "É"));
    assert!(!eq_ignore_ascii_case("É", "é"));
}
