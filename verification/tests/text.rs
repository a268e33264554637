use interpolate::text::{
    characters, decimal_text, parse_unsigned, push_signed_decimal, push_two_digits, split_lines,
    split_terminated,
};

#[test]
fn numbers_read_back() {
    for number in [0_u64, 9, 10, 99, 100, 480, u64::MAX] {
        assert_eq!(
            parse_unsigned(&decimal_text(number as u128), u64::MAX),
            Some(number)
        );
    }
    assert_eq!(decimal_text(u128::MAX), u128::MAX.to_string());
    assert!(decimal_text(u128::MAX)
        .bytes()
        .all(|byte| byte.is_ascii_digit()));
}

#[test]
fn numbers_that_are_none() {
    for text in ["", "+", "-1", " 1", "1 ", "1a", "٣"] {
        assert_eq!(parse_unsigned(text, u64::MAX), None);
    }
    assert_eq!(parse_unsigned("52", 51), None);
    assert_eq!(parse_unsigned("051", 51), Some(51));
    assert_eq!(parse_unsigned("+7", 51), Some(7));
}

#[test]
fn signed_and_padded_numbers() {
    let mut text = String::new();
    push_signed_decimal(&mut text, i32::MIN);
    push_two_digits(&mut text, 7);
    assert_eq!(text, "-214748364807");
}

#[test]
fn lines_and_pieces() {
    let text = "a\r\nb\rc\n\nd";
    assert_eq!(split_lines(text, 10), text.lines().collect::<Vec<_>>());
    assert_eq!(
        split_terminated(text, 10),
        text.split_terminator(['\r', '\n']).collect::<Vec<_>>()
    );
    assert_eq!(split_lines(text, 2), ["a", "b\rc"]);
    assert!(split_terminated("", 4).is_empty());
    assert_eq!(characters("aé"), ['a', 'é']);
}
