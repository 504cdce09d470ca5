use resub::engine::{build_config, compile_mode, process_line, warn_no_groups,
    warn_no_placeholder, Mode};
use resub::errors::SetupError;

fn run(rep: &str, sub: &str, regex_mode: bool, capture_mode: bool, line: &str) -> String {
    let cfg = build_config(rep, sub, regex_mode, capture_mode, None, None).unwrap();
    process_line(&cfg, line)
}

#[test]
fn literal_end_to_end() {
    assert_eq!(run("foo", "bar", false, false, "foofoo baz"), "barbar baz");
}

#[test]
fn regex_end_to_end() {
    assert_eq!(run("\\d+", "N", true, false, "a1 b22 c"), "aN bN c");
}

#[test]
fn capture_end_to_end() {
    assert_eq!(run("(\\w)(\\d)", "[&0-&1]", true, true, "a1 b2"), "[a-1] [b-2]");
}

#[test]
fn no_match_literal_is_trimmed_identity() {
    assert_eq!(run("xyz", "Q", false, false, "hello  \t"), "hello");
}

#[test]
fn no_match_regex_is_trimmed_identity() {
    assert_eq!(run("z+", "Q", true, false, "hello  "), "hello");
}

#[test]
fn zero_width_matches_split_everywhere() {
    // "b*" matches empty at 0, "b" at 1 and empty at 3: an empty match is a
    // split point like any other, so the line gains a leading and a
    // trailing substitution.
    assert_eq!(run("b*", "-", true, false, "abc"), "-a-c-");
}

#[test]
fn empty_literal_needle_splits_between_every_char() {
    assert_eq!(run("", "-", false, false, "ab"), "-a-b-");
}

#[test]
fn missing_capture_index_left_verbatim() {
    assert_eq!(run("(\\w)(\\d)", "&5", true, true, "a1"), "&5");
}

#[test]
fn absent_group_interpolates_as_empty() {
    assert_eq!(run("(a)|(b)", "<&0,&1>", true, true, "a"), "<a,>");
}

#[test]
fn capture_text_is_seen_by_later_passes() {
    // The pass for index 0 inserts text holding the index-1 token, and the
    // later pass for index 1 replaces it too.
    assert_eq!(run("(&1)(q)", "&0", true, true, "&1q"), "q");
}

#[test]
fn capture_without_regex_falls_back_to_literal() {
    assert_eq!(run("foo", "bar", false, true, "foofoo baz"), "barbar baz");
}

#[test]
fn empty_line_passes_through() {
    assert_eq!(run("foo", "bar", false, false, ""), "");
    assert_eq!(run("\\d+", "N", true, false, ""), "");
}

#[test]
fn multibyte_needle_splits_by_characters() {
    assert_eq!(run("\u{fc}", "o", false, false, "f\u{fc}\u{fc}"), "foo");
}

#[test]
fn match_with_trailing_whitespace_trims_last_piece() {
    assert_eq!(run("foo", "X", false, false, "foo  "), "X");
}

#[test]
fn foreground_color_wraps_substitution() {
    // Which colour codes are emitted depends on the terminal environment,
    // so only the wrapping is pinned: an escape before, the text, a reset.
    let cfg = build_config("foo", "bar", false, false, Some("#ff8800"), None).unwrap();
    let out = process_line(&cfg, "foo");
    assert!(out.starts_with("\u{1b}["));
    assert!(out.ends_with("mbar\u{1b}[0m"));
}

#[test]
fn background_and_foreground_colors_compose() {
    let cfg =
        build_config("foo", "bar", false, false, Some("#010203"), Some("0a0b0c")).unwrap();
    let out = process_line(&cfg, "xfooy");
    assert!(out.starts_with("x\u{1b}["));
    assert!(out.ends_with("mbar\u{1b}[0my"));
    // Both a background and a foreground code are present.
    let codes = &out[1..out.len() - 1];
    assert!(codes.matches('[').count() >= 2);
}

#[test]
fn bad_pattern_is_rejected() {
    assert_eq!(
        build_config("(", "s", true, false, None, None).err().unwrap(),
        SetupError::InvalidPattern
    );
}

#[test]
fn bad_pattern_without_regex_flag_is_fine() {
    assert!(matches!(compile_mode("(", false, false), Ok(Mode::Literal(_))));
}

#[test]
fn color_error_reported_before_pattern_error() {
    assert_eq!(
        build_config("(", "s", true, false, Some("zz"), None).err().unwrap(),
        SetupError::InvalidColorFormat
    );
}

#[test]
fn placeholder_warning_only_without_ampersand() {
    assert!(warn_no_placeholder(true, "bar"));
    assert!(!warn_no_placeholder(true, "x&0"));
    assert!(!warn_no_placeholder(false, "bar"));
}

#[test]
fn group_warning_only_without_parenthesis() {
    assert!(warn_no_groups(true, "abc"));
    assert!(!warn_no_groups(true, "(a)"));
    assert!(!warn_no_groups(true, "a)"));
    assert!(!warn_no_groups(false, "abc"));
}
