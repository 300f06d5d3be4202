use slug::{slugify, Case, SlugError};

#[test]
fn preserve_keeps_ascii_case() {
    assert_eq!(
        slugify("My Test String!!!1!1", "_", Case::Preserve, false).unwrap(),
        "My_Test_String_1_1"
    );
}

#[test]
fn whitespace_collapses_to_separator() {
    assert_eq!(
        slugify("test\nit   now!", "*", Case::Upper, false).unwrap(),
        "TEST*IT*NOW"
    );
}

#[test]
fn leading_and_mixed_separators_collapse() {
    assert_eq!(
        slugify("  --TEST-_COOL", "-", Case::Lower, false).unwrap(),
        "test-cool"
    );
}

#[test]
fn transliteration_preserve_case() {
    assert_eq!(
        slugify("Æúű--cool?", "-", Case::Preserve, false).unwrap(),
        "AEuu-cool"
    );
}

#[test]
fn transliteration_forced_lower() {
    assert_eq!(
        slugify("Æúű--cool?", "-", Case::Lower, false).unwrap(),
        "aeuu-cool"
    );
}

#[test]
fn ampersand_collapses_without_expansion() {
    assert_eq!(
        slugify("You & Me", "-", Case::Lower, false).unwrap(),
        "you-me"
    );
}

#[test]
fn ampersand_expands_to_and() {
    assert_eq!(
        slugify("You & Me", "-", Case::Lower, true).unwrap(),
        "you-and-me"
    );
}

#[test]
fn email_collapses_without_expansion() {
    assert_eq!(
        slugify("user@example.com", "-", Case::Preserve, false).unwrap(),
        "user-example-com"
    );
}

#[test]
fn email_expands_at() {
    assert_eq!(
        slugify("user@example.com", "-", Case::Preserve, true).unwrap(),
        "user-at-example-com"
    );
}

#[test]
fn email_forced_upper() {
    assert_eq!(
        slugify("user@example.com", "-", Case::Upper, false).unwrap(),
        "USER-EXAMPLE-COM"
    );
}

#[test]
fn han_characters_transliterate() {
    assert_eq!(slugify("遊戲", "-", Case::Preserve, false).unwrap(), "You-Xi");
}

#[test]
fn classic_scenario_forced_lower() {
    assert_eq!(
        slugify("My Test String!!!1!1", "-", Case::Lower, false).unwrap(),
        "my-test-string-1-1"
    );
}

#[test]
fn classic_scenario_underscore_separator() {
    assert_eq!(
        slugify("My Test String!!!1!1", "_", Case::Lower, false).unwrap(),
        "my_test_string_1_1"
    );
}

#[test]
fn punctuation_runs_collapse() {
    assert_eq!(
        slugify("  --test_-_cool", "-", Case::Preserve, false).unwrap(),
        "test-cool"
    );
}

#[test]
fn empty_input_gives_empty_output() {
    assert_eq!(slugify("", "-", Case::Preserve, false).unwrap(), "");
}

#[test]
fn all_symbol_input_gives_empty_output() {
    assert_eq!(slugify("!!!", "-", Case::Preserve, false).unwrap(), "");
    assert_eq!(slugify("   ", "-", Case::Upper, true).unwrap(), "");
}

#[test]
fn empty_separator_is_rejected() {
    assert_eq!(
        slugify("anything", "", Case::Preserve, false),
        Err(SlugError::InvalidArgument)
    );
    assert_eq!(slugify("", "", Case::Lower, true), Err(SlugError::InvalidArgument));
}

#[test]
fn reslugging_is_identity() {
    let first = slugify("Æúű--cool?", "-", Case::Preserve, false).unwrap();
    assert_eq!(slugify(&first, "-", Case::Preserve, false).unwrap(), first);

    let expanded = slugify("user@example.com", "-", Case::Lower, true).unwrap();
    assert_eq!(slugify(&expanded, "-", Case::Lower, true).unwrap(), expanded);
}

#[test]
fn expansion_at_the_start_has_no_leading_separator() {
    assert_eq!(slugify("@home", "-", Case::Preserve, true).unwrap(), "at-home");
}

#[test]
fn expansion_at_the_end_is_trimmed() {
    assert_eq!(slugify("a@", "-", Case::Preserve, true).unwrap(), "a-at");
}

#[test]
fn expansion_follows_case_mode() {
    assert_eq!(slugify("a&b", "-", Case::Upper, true).unwrap(), "A-AND-B");
}

#[test]
fn only_first_separator_character_is_used() {
    assert_eq!(slugify("a b", "-_", Case::Preserve, false).unwrap(), "a-b");
}

#[test]
fn unknown_code_point_falls_back_to_separator() {
    assert_eq!(slugify("a\u{0378}b", "-", Case::Preserve, false).unwrap(), "a-b");
    assert_eq!(slugify("a\u{0378}b", "__", Case::Preserve, false).unwrap(), "a_b");
}

#[test]
fn digits_pass_through_unchanged() {
    assert_eq!(slugify("a1b2", "-", Case::Upper, false).unwrap(), "A1B2");
    assert_eq!(slugify("ab1 cd", "-", Case::Upper, false).unwrap(), "AB1-CD");
}
