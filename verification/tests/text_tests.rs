use resub::text::{chars_to_string, find_first, replace_all, split_literal, str_to_chars,
    trim_end};

fn cv(s: &str) -> Vec<char> {
    str_to_chars(s)
}

fn strs(parts: &[Vec<char>]) -> Vec<String> {
    parts.iter().map(|p| chars_to_string(p)).collect()
}

#[test]
fn find_first_returns_leftmost() {
    assert_eq!(find_first(&cv("abcbc"), &cv("bc")), Some(1));
    assert_eq!(find_first(&cv("abc"), &cv("zz")), None);
    assert_eq!(find_first(&cv("abc"), &cv("")), Some(0));
}

#[test]
fn split_on_needle_keeps_all_pieces() {
    assert_eq!(strs(&split_literal(&cv("XXaXb"), &cv("X"))), vec!["", "", "a", "b"]);
    assert_eq!(strs(&split_literal(&cv("lion::tiger"), &cv("::"))), vec!["lion", "tiger"]);
    assert_eq!(strs(&split_literal(&cv("abc"), &cv("z"))), vec!["abc"]);
}

#[test]
fn split_on_empty_needle_is_per_character() {
    assert_eq!(strs(&split_literal(&cv("abc"), &cv(""))), vec!["", "a", "b", "c", ""]);
    assert_eq!(strs(&split_literal(&cv(""), &cv(""))), vec!["", ""]);
}

#[test]
fn occurrences_do_not_overlap() {
    assert_eq!(strs(&split_literal(&cv("aaa"), &cv("aa"))), vec!["", "a"]);
}

#[test]
fn replace_all_is_left_to_right() {
    assert_eq!(chars_to_string(&replace_all(&cv("aaa"), &cv("aa"), &cv("b"))), "ba");
    assert_eq!(chars_to_string(&replace_all(&cv("x&0y&0"), &cv("&0"), &cv("Q"))), "xQyQ");
    assert_eq!(chars_to_string(&replace_all(&cv("abc"), &cv("z"), &cv("Q"))), "abc");
}

#[test]
fn trim_end_strips_trailing_whitespace_only() {
    assert_eq!(chars_to_string(&trim_end(&cv("a b \t \u{a0}"))), "a b");
    assert_eq!(chars_to_string(&trim_end(&cv("  a"))), "  a");
    assert_eq!(chars_to_string(&trim_end(&cv("   "))), "");
    assert_eq!(chars_to_string(&trim_end(&cv(""))), "");
}
