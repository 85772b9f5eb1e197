use xl::number::{parse_number, push_number};
use xl::text::{chars_of, same_chars, string_of};

fn parse(text: &str, max: u64) -> Option<u64> {
    let chars: Vec<char> = text.chars().collect();
    parse_number(&chars, 0, chars.len(), max)
}

#[test]
fn numbers_in_decimal() {
    assert_eq!(parse("0", 10), Some(0));
    assert_eq!(parse("10", 10), Some(10));
    assert_eq!(parse("11", 10), None);
    assert_eq!(parse("+7", 10), Some(7));
    assert_eq!(parse("007", 10), Some(7));
    assert_eq!(parse("18446744073709551615", u64::MAX), Some(u64::MAX));
    assert_eq!(parse("18446744073709551616", u64::MAX), None);
    assert_eq!(parse("99999999999999999999999", u64::MAX), None);
    assert_eq!(parse("", 10), None);
    assert_eq!(parse("+", 10), None);
    assert_eq!(parse("-1", 10), None);
    assert_eq!(parse("++1", 10), None);
    assert_eq!(parse("1+", 10), None);
    assert_eq!(parse("1 ", 10), None);
    assert_eq!(parse("１", 10), None);
    assert_eq!(parse("4294967295", 4294967295), "4294967295".parse::<u32>().ok().map(u64::from));
    assert_eq!(parse("4294967296", 4294967295), "4294967296".parse::<u32>().ok().map(u64::from));
}

#[test]
fn a_part_of_the_characters() {
    let chars: Vec<char> = "ab123cd".chars().collect();
    assert_eq!(parse_number(&chars, 2, 5, 1000), Some(123));
    assert_eq!(parse_number(&chars, 2, 4, 1000), Some(12));
    assert_eq!(parse_number(&chars, 2, 6, 1000), None);
    assert_eq!(parse_number(&chars, 3, 3, 1000), None);
}

#[test]
fn numbers_written_out() {
    for n in [0u64, 1, 9, 10, 11, 99, 100, 1048576, 4294967295, u64::MAX] {
        let mut s = String::from("r");
        push_number(&mut s, n);
        assert_eq!(s, format!("r{}", n));
        assert_eq!(parse(&s[1..], u64::MAX), Some(n));
    }
}

#[test]
fn strings_and_their_characters() {
    assert_eq!(chars_of("héllo"), vec!['h', 'é', 'l', 'l', 'o']);
    assert_eq!(chars_of(""), Vec::<char>::new());
    let chars = chars_of("héllo wörld");
    assert_eq!(string_of(&chars, 0, chars.len()), "héllo wörld");
    assert_eq!(string_of(&chars, 1, 5), "éllo");
    assert_eq!(string_of(&chars, 3, 3), "");
    assert!(same_chars(&['a', 'b'], &['a', 'b']));
    assert!(!same_chars(&['a', 'b'], &['a', 'c']));
    assert!(!same_chars(&['a', 'b'], &['a']));
}
