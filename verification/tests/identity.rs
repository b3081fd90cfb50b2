use duocb::identity::{
    display_identity, generate_suffix, is_valid_suffix, split_display_identity, suffix_of,
    validate_name, NAME_MAX_LEN,
};

#[test]
fn generated_suffix_is_valid_and_varies() {
    let a = generate_suffix();
    let b = generate_suffix();
    assert!(is_valid_suffix(&a));
    assert!(is_valid_suffix(&b));
    assert_ne!(a, b);
}

#[test]
fn name_validation_accepts_letters_digits_dash_only() {
    assert!(validate_name("mac-book").is_ok());
    assert!(validate_name("Desktop2").is_ok());
    assert!(validate_name(&"x".repeat(NAME_MAX_LEN)).is_ok());
    assert!(validate_name("").is_err());
    assert!(validate_name(&"x".repeat(NAME_MAX_LEN + 1)).is_err());
    assert!(validate_name("mac book").is_err());
    assert!(validate_name("mac_book").is_err());
    assert!(validate_name("café").is_err());
}

#[test]
fn final_identity_roundtrips_short_name_and_suffix() {
    let display = display_identity("mac-book", "a7B2c3D4");
    assert_eq!(display, "mac-book_a7B2c3D4");
    assert_eq!(split_display_identity(&display).unwrap(), ("mac-book", "a7B2c3D4"));
    assert!(split_display_identity("mac-book").is_err());
    assert!(split_display_identity("mac-book_bad").is_err());
    assert!(split_display_identity("mac_book_a7B2c3D4").is_err());
}

#[test]
fn suffixes_follow_their_draws() {
    let first = suffix_of(&vec![0, 0, 0, 0, 0, 0, 0, 0]);
    let other = suffix_of(&vec![0, 0, 0, 0, 0, 0, 0, 1]);
    assert!(is_valid_suffix(&first));
    assert!(is_valid_suffix(&other));
    assert_eq!(first[..7], other[..7]);
    assert_ne!(first, other);
}

#[test]
fn name_errors_say_what_is_wrong() {
    assert!(validate_name("mac book").unwrap_err().contains("' '"));
    assert!(validate_name("caf\u{e9}").unwrap_err().contains("'\u{e9}'"));
    assert!(validate_name("a\tb").unwrap_err().contains("'\\t'"));
}
