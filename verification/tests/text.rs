use gdvm::text::{chars_of, digit_text, parse_u8, push_decimal, split, strip_prefix};

fn chars(text: &str) -> Vec<char> {
    text.chars().collect()
}

#[test]
fn chars_of_lists_the_characters() {
    assert_eq!(chars_of(""), Vec::<char>::new());
    assert_eq!(chars_of("v1-\u{e9}"), vec!['v', '1', '-', '\u{e9}']);
}

#[test]
fn split_cuts_at_both_delimiters() {
    assert_eq!(split(&chars("v1.2.3-rc1_mono"), '-', '_'), vec![chars("v1.2.3"), chars("rc1"), chars("mono")]);
    assert_eq!(split(&chars("1.2.3"), '.', '.'), vec![chars("1"), chars("2"), chars("3")]);
    assert_eq!(split(&chars("abc"), '-', '_'), vec![chars("abc")]);
}

#[test]
fn split_keeps_empty_pieces() {
    assert_eq!(split(&chars(""), '-', '_'), vec![chars("")]);
    assert_eq!(split(&chars("-"), '-', '_'), vec![chars(""), chars("")]);
    assert_eq!(split(&chars("a__b-"), '-', '_'), vec![chars("a"), chars(""), chars("b"), chars("")]);
}

#[test]
fn split_agrees_with_std() {
    for text in ["", "a", "-", "a-b_c", "--", "_a-", "v3.4.3-stable_mono", "x-y-z-"] {
        let expected: Vec<Vec<char>> = text.split(['-', '_']).map(|p| p.chars().collect()).collect();
        assert_eq!(split(&chars(text), '-', '_'), expected, "{:?}", text);
    }
}

#[test]
fn parse_u8_reads_numerals() {
    assert_eq!(parse_u8(&chars("0")), Some(0));
    assert_eq!(parse_u8(&chars("9")), Some(9));
    assert_eq!(parse_u8(&chars("10")), Some(10));
    assert_eq!(parse_u8(&chars("255")), Some(255));
    assert_eq!(parse_u8(&chars("+12")), Some(12));
    assert_eq!(parse_u8(&chars("0012")), Some(12));
}

#[test]
fn parse_u8_rejects_other_text() {
    for text in ["", "+", "-", "-1", "256", "1000", "12a", "a", "1 ", "++1", "1+", "\u{661}"] {
        assert_eq!(parse_u8(&chars(text)), None, "{:?}", text);
    }
}

#[test]
fn parse_u8_agrees_with_std() {
    for n in 0u32..=300 {
        for text in [n.to_string(), format!("+{}", n), format!("0{}", n), format!("{}0", n)] {
            assert_eq!(parse_u8(&chars(&text)), text.parse::<u8>().ok(), "{:?}", text);
        }
    }
}

#[test]
fn strip_prefix_gives_the_rest() {
    assert_eq!(strip_prefix(&chars("alpha12"), "alpha"), Some(chars("12")));
    assert_eq!(strip_prefix(&chars("alpha"), "alpha"), Some(chars("")));
    assert_eq!(strip_prefix(&chars("alph"), "alpha"), None);
    assert_eq!(strip_prefix(&chars("beta1"), "alpha"), None);
    assert_eq!(strip_prefix(&chars("x"), ""), Some(chars("x")));
}

#[test]
fn digit_text_writes_one_digit() {
    let all: Vec<&str> = (0u8..10).map(digit_text).collect();
    assert_eq!(all, vec!["0", "1", "2", "3", "4", "5", "6", "7", "8", "9"]);
}

#[test]
fn push_decimal_agrees_with_std() {
    for n in 0u8..=255 {
        let mut out = String::from("n=");
        push_decimal(&mut out, n);
        assert_eq!(out, format!("n={}", n));
    }
}
