use resub::interp::interpolate;
use resub::digits::{make_placeholder, to_dec_digits};
use resub::text::{chars_to_string, str_to_chars};

fn cv(s: &str) -> Vec<char> {
    str_to_chars(s)
}

fn interp(template: &str, caps: &[&str]) -> String {
    let capsv: Vec<Vec<char>> = caps.iter().map(|c| cv(c)).collect();
    chars_to_string(&interpolate(&cv(template), &capsv))
}

#[test]
fn first_capture_fills_placeholder_zero() {
    assert_eq!(interp("<&0>", &["42"]), "<42>");
}

#[test]
fn every_occurrence_of_a_placeholder_is_replaced() {
    assert_eq!(interp("&0+&0", &["x"]), "x+x");
}

#[test]
fn missing_index_passes_through() {
    assert_eq!(interp("&5", &["a", "b"]), "&5");
}

#[test]
fn indices_substitute_in_ascending_order() {
    assert_eq!(interp("[&0-&1]", &["a", "1"]), "[a-1]");
}

#[test]
fn inserted_text_is_seen_by_later_passes() {
    // The index-0 pass inserts `&1`, which the index-1 pass then replaces.
    assert_eq!(interp("&0", &["&1", "z"]), "z");
}

#[test]
fn later_index_never_feeds_an_earlier_pass() {
    assert_eq!(interp("&1", &["a", "&0"]), "&0");
}

#[test]
fn empty_template_stays_empty() {
    assert_eq!(interp("", &["a"]), "");
}

#[test]
fn longer_indices_are_shadowed_by_shorter_prefixes() {
    // The pass for index 1 runs before index 10 and already consumes the
    // `&1` prefix of `&10`: a sequential-pass artifact kept as it stands.
    let caps: Vec<&str> = vec!["0", "1", "2", "3", "4", "5", "6", "7", "8", "9", "ten"];
    assert_eq!(interp("&10", &caps), "10");
}

#[test]
fn decimal_digits_render_exactly() {
    assert_eq!(chars_to_string(&to_dec_digits(0)), "0");
    assert_eq!(chars_to_string(&to_dec_digits(7)), "7");
    assert_eq!(chars_to_string(&to_dec_digits(10)), "10");
    assert_eq!(chars_to_string(&to_dec_digits(907)), "907");
}

#[test]
fn placeholder_token_is_ampersand_then_digits() {
    assert_eq!(chars_to_string(&make_placeholder(12)), "&12");
}
