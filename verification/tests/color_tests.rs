use resub::color::{resolve_color, Rgb};
use resub::errors::SetupError;

#[test]
fn hex_with_hash_resolves() {
    assert_eq!(
        resolve_color(Some("#ff8800")),
        Ok(Some(Rgb { r: 255, g: 136, b: 0 }))
    );
}

#[test]
fn hex_without_hash_resolves_the_same() {
    assert_eq!(
        resolve_color(Some("ff8800")),
        Ok(Some(Rgb { r: 255, g: 136, b: 0 }))
    );
}

#[test]
fn absent_color_resolves_to_none() {
    assert_eq!(resolve_color(None), Ok(None));
}

#[test]
fn mixed_case_hex_resolves() {
    assert_eq!(
        resolve_color(Some("#FfC301")),
        Ok(Some(Rgb { r: 255, g: 195, b: 1 }))
    );
}

#[test]
fn first_hex_run_is_used() {
    // The run starts at the first hex digit; what follows it is ignored.
    assert_eq!(
        resolve_color(Some("zz112233zz44")),
        Ok(Some(Rgb { r: 0x11, g: 0x22, b: 0x33 }))
    );
}

#[test]
fn extra_bytes_beyond_three_are_ignored() {
    assert_eq!(
        resolve_color(Some("ff8800aa")),
        Ok(Some(Rgb { r: 255, g: 136, b: 0 }))
    );
}

#[test]
fn no_hex_digits_is_invalid_format() {
    assert_eq!(resolve_color(Some("zz")), Err(SetupError::InvalidColorFormat));
}

#[test]
fn odd_digit_count_is_rejected() {
    assert_eq!(resolve_color(Some("#abc")), Err(SetupError::OddHexLength));
}

#[test]
fn fewer_than_three_bytes_is_invalid_format() {
    assert_eq!(resolve_color(Some("aabb")), Err(SetupError::InvalidColorFormat));
}
