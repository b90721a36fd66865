use xphttpbridge::number::{parse_u16, render_decimal};
use xphttpbridge::text::{chars_of, join_with_spaces, split_lines, split_words};

fn cs(s: &str) -> Vec<char> {
    s.chars().collect()
}

fn strs(v: &[Vec<char>]) -> Vec<String> {
    v.iter().map(|w| w.iter().collect()).collect()
}

#[test]
fn parse_u16_accepts_plain_and_plus_signed_digits() {
    assert_eq!(parse_u16(&cs("80")), Some(80));
    assert_eq!(parse_u16(&cs("+80")), Some(80));
    assert_eq!(parse_u16(&cs("007")), Some(7));
    assert_eq!(parse_u16(&cs("0")), Some(0));
    assert_eq!(parse_u16(&cs("65535")), Some(65535));
}

#[test]
fn parse_u16_refuses_what_str_parse_refuses() {
    for bad in ["", "+", "-1", "-0", "65536", "99999999999", "8a", " 80", "80 ", "++1", "١٢"] {
        assert_eq!(parse_u16(&cs(bad)), None, "input {:?}", bad);
        assert_eq!(bad.parse::<u16>().ok(), None, "input {:?}", bad);
    }
}

#[test]
fn parse_u16_agrees_with_std_on_many_inputs() {
    for n in (0u32..70000).step_by(7) {
        let s = n.to_string();
        assert_eq!(parse_u16(&cs(&s)), s.parse::<u16>().ok());
        let p = format!("+{}", n);
        assert_eq!(parse_u16(&cs(&p)), p.parse::<u16>().ok());
    }
}

#[test]
fn render_decimal_writes_without_leading_zeros() {
    assert_eq!(render_decimal(0).iter().collect::<String>(), "0");
    assert_eq!(render_decimal(7).iter().collect::<String>(), "7");
    assert_eq!(render_decimal(49000).iter().collect::<String>(), "49000");
    assert_eq!(render_decimal(65535).iter().collect::<String>(), "65535");
}

#[test]
fn port_round_trip_law_on_values() {
    for p in [0u16, 1, 9, 10, 99, 100, 48000, 49000, 65535] {
        assert_eq!(parse_u16(&render_decimal(p)), Some(p));
    }
}

#[test]
fn split_words_matches_split_whitespace() {
    for s in ["", "   ", "a", " a  b\tc\n", "sim/x\u{a0}float\u{3000}y", "x\u{2003}y  z "] {
        let expected: Vec<String> = s.split_whitespace().map(String::from).collect();
        assert_eq!(strs(&split_words(&cs(s))), expected, "input {:?}", s);
    }
}

#[test]
fn split_lines_matches_str_lines() {
    for s in ["", "\n", "a", "a\n", "a\r\nb", "a\r\nb\r\n", "a\rb", "a\r", "\n\nx\n", "x\r\r\n"] {
        let expected: Vec<String> = s.lines().map(String::from).collect();
        assert_eq!(strs(&split_lines(&cs(s))), expected, "input {:?}", s);
    }
}

#[test]
fn join_with_spaces_joins_the_tail() {
    let ws = vec![cs("a"), cs("b"), cs("c"), cs("d")];
    assert_eq!(join_with_spaces(&ws, 1).iter().collect::<String>(), "b c d");
    assert_eq!(join_with_spaces(&ws, 3).iter().collect::<String>(), "d");
    assert_eq!(join_with_spaces(&ws, 4).iter().collect::<String>(), "");
}

#[test]
fn chars_of_keeps_every_character() {
    assert_eq!(chars_of("ä b\u{feff}"), vec!['ä', ' ', 'b', '\u{feff}']);
}

#[test]
fn joined_words_split_back() {
    let ws = vec![cs("one"), cs("two"), cs("thr\u{e9}e")];
    let joined = join_with_spaces(&ws, 0);
    assert_eq!(split_words(&joined), ws);
}
