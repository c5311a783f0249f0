use memebot_backend::text::{parse_i32, split_words};

#[test]
fn parse_i32_agrees_with_std() {
    let cases = [
        "0", "12", "-12", "+12", "007", "-0", "+0", "2147483647", "2147483648", "-2147483648",
        "-2147483649", "99999999999999999999", "-99999999999999999999", "", "+", "-", "+-1",
        "--1", "1 ", " 1", "1a", "a1", "١٢", "12.0", "0x10", "4294967296", "00000000002147483647",
    ];
    for c in cases.iter() {
        assert_eq!(parse_i32(c), c.parse::<i32>().ok(), "input {:?}", c);
    }
}

#[test]
fn parse_i32_exact_values() {
    assert_eq!(parse_i32("42"), Some(42));
    assert_eq!(parse_i32("-2147483648"), Some(i32::MIN));
    assert_eq!(parse_i32("2147483647"), Some(i32::MAX));
    assert_eq!(parse_i32("2147483648"), None);
    assert_eq!(parse_i32("abc"), None);
}

#[test]
fn split_words_agrees_with_std() {
    let cases = ["", " ", "a", "a b", "adduser 1 bob", "  two  spaces ", "trailing ", "é ü ß", "x"];
    for c in cases.iter() {
        let expected: Vec<&str> = c.split(' ').collect();
        assert_eq!(split_words(c), expected, "input {:?}", c);
    }
}

#[test]
fn split_then_join_gives_the_line_back() {
    let line = "upvote  3 4 ";
    let words = split_words(line);
    assert_eq!(words, vec!["upvote", "", "3", "4", ""]);
    assert_eq!(words.join(" "), line);
    assert!(words.iter().all(|w| !w.contains(' ')));
}
