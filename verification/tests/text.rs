use fakebook::text::{
    chars_of, decimal_bytes, parse_i32, parse_i32_chars, prefix_ends_with, same_chars, same_text,
    split_chars, trim_end_chars, DecimalError,
};

fn chars(s: &str) -> Vec<char> {
    s.chars().collect()
}

fn fields(s: &str) -> Vec<String> {
    split_chars(&chars(s), ':').into_iter().map(|f| f.into_iter().collect()).collect()
}

#[test]
fn chars_of_keeps_every_character() {
    assert_eq!(vec!['a', 'ß', '✓', ':'], chars_of("aß✓:"));
    assert_eq!(Vec::<char>::new(), chars_of(""));
}

#[test]
fn same_text_compares_contents() {
    assert!(same_text("post_notification", "post_notification"));
    assert!(!same_text("post_notification", "post_notificatio"));
    assert!(!same_text("a", "b"));
    assert!(same_text("", ""));
    assert!(same_chars(&chars("xy"), &chars("xy")));
    assert!(!same_chars(&chars("xy"), &chars("xz")));
}

#[test]
fn split_agrees_with_the_standard_library() {
    for text in ["", ":", "a", "a:b", "a::b", ":a:", "42:7", "10:42:7", "::", "a:b:c:d"] {
        let expected: Vec<String> = text.split(':').map(|f| f.to_string()).collect();
        assert_eq!(expected, fields(text));
    }
}

#[test]
fn split_of_an_empty_text_is_one_empty_field() {
    assert_eq!(vec![String::new()], fields(""));
    assert_eq!(vec![String::new(), String::new()], fields(":"));
}

#[test]
fn parse_reads_signed_decimals() {
    assert_eq!(Ok(42), parse_i32("42"));
    assert_eq!(Ok(42), parse_i32("+42"));
    assert_eq!(Ok(-42), parse_i32("-42"));
    assert_eq!(Ok(0), parse_i32("-0"));
    assert_eq!(Ok(7), parse_i32("0000000000000000007"));
    assert_eq!(Ok(i32::MAX), parse_i32("2147483647"));
    assert_eq!(Ok(i32::MIN), parse_i32("-2147483648"));
}

#[test]
fn parse_names_each_failure() {
    assert_eq!(Err(DecimalError::Empty), parse_i32(""));
    assert_eq!(Err(DecimalError::InvalidDigit), parse_i32("+"));
    assert_eq!(Err(DecimalError::InvalidDigit), parse_i32("-"));
    assert_eq!(Err(DecimalError::InvalidDigit), parse_i32("abc"));
    assert_eq!(Err(DecimalError::InvalidDigit), parse_i32(" 42"));
    assert_eq!(Err(DecimalError::InvalidDigit), parse_i32("42 "));
    assert_eq!(Err(DecimalError::InvalidDigit), parse_i32("4_2"));
    assert_eq!(Err(DecimalError::InvalidDigit), parse_i32("--4"));
    assert_eq!(Err(DecimalError::InvalidDigit), parse_i32("٤٢"));
    assert_eq!(Err(DecimalError::PosOverflow), parse_i32("2147483648"));
    assert_eq!(Err(DecimalError::NegOverflow), parse_i32("-2147483649"));
    assert_eq!(Err(DecimalError::PosOverflow), parse_i32("99999999999x"));
    assert_eq!(Err(DecimalError::InvalidDigit), parse_i32("9x9999999999"));
}

#[test]
fn parse_agrees_with_the_standard_library() {
    let samples = [
        "", "+", "-", "0", "-0", "+0", "1", "-1", "007", "2147483647", "2147483648",
        "-2147483648", "-2147483649", "99999999999", "-99999999999", "12a", "a12", "1 2", "+-1",
        "1+", "1-", "42:7", "٣", "1e3", "0x10", "4294967296", "21474836470", "99999999999x",
        "-99999999999x", "214748364x", "2147483648x",
    ];
    for text in samples {
        let expected = text.parse::<i32>();
        let found = parse_i32(text);
        match (&expected, &found) {
            (Ok(a), Ok(b)) => assert_eq!(a, b),
            (Err(e), Err(f)) => assert_eq!(e.to_string(), f.to_string()),
            _ => panic!("{:?} and {:?} differ on {:?}", expected, found, text),
        }
        assert_eq!(found, parse_i32_chars(&chars(text)));
    }
}

#[test]
fn decimal_error_texts() {
    assert_eq!("cannot parse integer from empty string", DecimalError::Empty.to_string());
    assert_eq!("invalid digit found in string", DecimalError::InvalidDigit.to_string());
    assert_eq!("number too large to fit in target type", DecimalError::PosOverflow.to_string());
    assert_eq!("number too small to fit in target type", DecimalError::NegOverflow.to_string());
}

#[test]
fn trim_end_agrees_with_the_standard_library() {
    let cases = [
        ("5Post", "Post"),
        ("5PostPost", "Post"),
        ("Post", "Post"),
        ("5", "Post"),
        ("", "Post"),
        ("5Pos", "Post"),
        ("aaaa", "aa"),
        ("aaa", "aa"),
        ("5Post5", "Post"),
        ("abc", ""),
        ("ßß", "ß"),
    ];
    for (text, suffix) in cases {
        let expected: Vec<char> = text.trim_end_matches(suffix).chars().collect();
        assert_eq!(expected, trim_end_chars(chars(text), &chars(suffix)));
    }
}

#[test]
fn prefix_ends_with_looks_at_the_prefix_only() {
    let text = chars("5PostX");
    assert!(prefix_ends_with(&text, 5, &chars("Post")));
    assert!(!prefix_ends_with(&text, 6, &chars("Post")));
    assert!(!prefix_ends_with(&text, 3, &chars("Post")));
    assert!(prefix_ends_with(&text, 0, &chars("")));
}

#[test]
fn decimal_bytes_agree_with_the_standard_library() {
    for value in [0, 1, -1, 9, 10, 11, 99, 100, 12345, -12345, i32::MAX, i32::MIN, i32::MIN + 1] {
        assert_eq!(value.to_string().into_bytes(), decimal_bytes(value));
    }
}
