use postboard::repository::Post;
use postboard::request::{parse_index, select_post, INDEX_MAX};

#[test]
fn parse_index_reads_decimal_numbers() {
    assert_eq!(parse_index("0"), Some(0));
    assert_eq!(parse_index("7"), Some(7));
    assert_eq!(parse_index("42"), Some(42));
    assert_eq!(parse_index("007"), Some(7));
    assert_eq!(parse_index("2147483647"), Some(2147483647));
    assert_eq!(parse_index("0000000000000000000002147483647"), Some(2147483647));
}

#[test]
fn parse_index_takes_a_sign() {
    assert_eq!(parse_index("+5"), Some(5));
    assert_eq!(parse_index("-0"), Some(0));
    assert_eq!(parse_index("-000"), Some(0));
    assert_eq!(parse_index("+0"), Some(0));
}

#[test]
fn parse_index_refuses_what_is_below_zero() {
    assert_eq!(parse_index("-1"), None);
    assert_eq!(parse_index("-2147483648"), None);
}

#[test]
fn parse_index_refuses_what_is_too_large() {
    assert_eq!(INDEX_MAX, i32::MAX as usize);
    assert_eq!(parse_index("2147483648"), None);
    assert_eq!(parse_index("99999999999999999999999999"), None);
    assert_eq!(parse_index("21474836470"), None);
}

#[test]
fn parse_index_refuses_other_text() {
    for text in ["", "+", "-", "a", "1a", "a1", " 1", "1 ", "1.5", "++1", "+-1", "1+", "\u{661}"] {
        assert_eq!(parse_index(text), None);
    }
}

#[test]
fn parse_index_agrees_with_the_standard_parser() {
    for text in ["0", "12", "-0", "+33", "-4", "2147483647", "2147483648", "x", "", "08", "+", "1_0"] {
        let expected = text.parse::<i32>().ok().and_then(|n| usize::try_from(n).ok());
        assert_eq!(parse_index(text), expected);
    }
}

#[test]
fn select_post_counts_from_zero() {
    let posts = vec![
        Post { key: String::from("post-a"), value: String::from("1") },
        Post { key: String::from("post-b"), value: String::from("2") },
    ];
    assert_eq!(select_post(&posts, 0), Some(&posts[0]));
    assert_eq!(select_post(&posts, 1), Some(&posts[1]));
    assert_eq!(select_post(&posts, 2), None);
    assert_eq!(select_post(&Vec::new(), 0), None);
}
