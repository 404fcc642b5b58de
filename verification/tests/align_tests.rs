use patterns::align::{align_string_with_ws, CapacityExceeded, Position};

#[test]
fn test_fn_align_string_with_ws() {
    let string_1 = "  hello  world  ".to_string();
    let string_2 = "  hello world   ".to_string();

    assert_eq!(
        align_string_with_ws(string_1.clone(), 20, Position::Left).unwrap(),
        "hello  world        ".to_string()
    );
    assert_eq!(
        align_string_with_ws(string_1.clone(), 20, Position::Right).unwrap(),
        "        hello  world".to_string()
    );
    assert_eq!(
        align_string_with_ws(string_2.clone(), 20, Position::Center).unwrap(),
        "    hello world     ".to_string()
    );
    assert_eq!(align_string_with_ws(string_1.clone(), 10, Position::Right).is_err(), true);
}

#[test]
fn center_tie_break_goes_right() {
    assert_eq!(align_string_with_ws("ab".to_string(), 5, Position::Center).unwrap(), " ab  ");
    assert_eq!(align_string_with_ws("ab".to_string(), 6, Position::Center).unwrap(), "  ab  ");
}

#[test]
fn exact_fit_is_identity() {
    assert_eq!(align_string_with_ws("x".to_string(), 1, Position::Left).unwrap(), "x");
    assert_eq!(align_string_with_ws("x".to_string(), 1, Position::Right).unwrap(), "x");
    assert_eq!(align_string_with_ws("x".to_string(), 1, Position::Center).unwrap(), "x");
}

#[test]
fn too_narrow_fails_with_capacity_exceeded() {
    assert_eq!(
        align_string_with_ws("toolong".to_string(), 3, Position::Left),
        Err(CapacityExceeded)
    );
}

#[test]
fn aligned_length_is_exact_for_every_policy() {
    let text = " padded text ".to_string();
    for length in [11, 12, 20, 33] {
        assert_eq!(
            align_string_with_ws(text.clone(), length, Position::Left).unwrap().len(),
            length
        );
        assert_eq!(
            align_string_with_ws(text.clone(), length, Position::Right).unwrap().len(),
            length
        );
        assert_eq!(
            align_string_with_ws(text.clone(), length, Position::Center).unwrap().len(),
            length
        );
    }
    assert!(align_string_with_ws(text.clone(), 10, Position::Center).is_err());
}

#[test]
fn trimming_agrees_with_std_on_unicode_whitespace() {
    let text = "\u{00A0}\u{2003}hi there\u{3000}".to_string();
    let expected = format!("{}    ", text.trim());
    assert_eq!(
        align_string_with_ws(text, expected.chars().count(), Position::Left).unwrap(),
        expected
    );
}

#[test]
fn align_is_idempotent_on_its_trimming() {
    let once = align_string_with_ws("  ab  ".to_string(), 7, Position::Center).unwrap();
    let again = align_string_with_ws(once.trim().to_string(), 7, Position::Center).unwrap();
    assert_eq!(once, again);
    let twice = align_string_with_ws(once.clone(), 7, Position::Center).unwrap();
    assert_eq!(once, twice);
}
