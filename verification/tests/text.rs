use enki::text::{
    eq_ignore_ascii_case, indent_block, join_path, join_strings, normalize_name, replace_all,
    split_whitespace, split_words, summarize_text, to_kebab_case, to_posix_path, to_snake_case,
    trim, truncate_detail, u128_to_hex, u128_to_string, usize_to_string,
};

#[test]
fn names_split_into_lower_case_words() {
    assert_eq!(split_words("Weather  Search-API v2"), vec!["weather", "search", "api", "v2"]);
    assert_eq!(to_snake_case("Weather Search"), "weather_search");
    assert_eq!(to_kebab_case("Weather Search"), "weather-search");
    assert_eq!(to_snake_case("  --  "), "");
    assert_eq!(normalize_name("  Release Audit \n"), "Release Audit");
}

#[test]
fn text_is_summarized_and_truncated_by_characters() {
    assert_eq!(summarize_text("  a   b\n c ", 10), "a b c");
    assert_eq!(summarize_text("abcdefghij", 6), "abc...");
    assert_eq!(summarize_text("abcdefghij", 2), "...");
    assert_eq!(truncate_detail("héllo", 2), "hé...");
    assert_eq!(truncate_detail("hello", 5), "hello");
}

#[test]
fn paths_join_like_the_standard_library() {
    assert_eq!(join_path("/home/u", ".enki"), "/home/u/.enki");
    assert_eq!(join_path("/home/u/", "x"), "/home/u/x");
    assert_eq!(join_path("", "x"), "x");
    assert_eq!(join_path("/home/u", "/etc"), "/etc");
    assert_eq!(to_posix_path(".\\.enki\\x"), "./.enki/x");
}

#[test]
fn replacing_covers_every_occurrence() {
    assert_eq!(replace_all("a-b-c", "-", "::"), "a::b::c");
    assert_eq!(replace_all("aaaa", "aa", "b"), "bb");
    assert_eq!(replace_all("none", "x", "y"), "none");
}

#[test]
fn blocks_are_indented_line_by_line() {
    assert_eq!(indent_block("a\r\nb", 2), vec!["  a", "  b"]);
    assert_eq!(indent_block("", 1), vec![" <empty>"]);
}

#[test]
fn small_helpers_behave_as_std() {
    assert_eq!(trim("\t x y \n"), "x y");
    assert_eq!(split_whitespace(" a  b\tc "), vec!["a", "b", "c"]);
    assert_eq!(join_strings(&["a".to_string(), "b".to_string()], ", "), "a, b");
    assert_eq!(join_strings(&[], ", "), "");
    assert_eq!(usize_to_string(0), "0");
    assert_eq!(usize_to_string(1203), "1203");
    assert_eq!(u128_to_string(340282366920938463463374607431768211455), "340282366920938463463374607431768211455");
    assert!(eq_ignore_ascii_case("Code-Gen", "code-gen"));
    assert!(!eq_ignore_ascii_case("code", "codes"));
}

#[test]
fn kebab_case_is_snake_case_with_dashes() {
    for name in ["Weather Search", "  __My--Tool__ v2 ", "", "a_b c", "ÄÖ x9"] {
        assert_eq!(to_kebab_case(name), to_snake_case(name).replace('_', "-"));
    }
    assert_eq!(to_kebab_case("Weather Search"), "weather-search");
}

#[test]
fn hex_text_of_numbers() {
    assert_eq!(u128_to_hex(0), "0");
    assert_eq!(u128_to_hex(255), "ff");
    assert_eq!(u128_to_hex(u128::MAX), "ffffffffffffffffffffffffffffffff");
}
