use ducats_buyer::text::{list_lines, parse_u32, trim_text};

#[test]
fn parse_u32_like_std() {
    for s in ["0", "4", "+7", "0042", "4294967295", "", "+", "-1", " 3", "3 ", "4294967296", "12a", "99999999999"] {
        assert_eq!(parse_u32(s), s.parse::<u32>().ok(), "input {:?}", s);
    }
    assert_eq!(parse_u32("123"), Some(123));
    assert_eq!(parse_u32("x"), None);
}

#[test]
fn trim_like_std() {
    for s in ["", "  ", " a ", "\ta b\r", "\u{3000}x\u{a0}", "abc"] {
        assert_eq!(trim_text(s), s.trim(), "input {:?}", s);
    }
}

#[test]
fn lines_are_trimmed_and_blank_ones_dropped() {
    let text = " Harrow Prime Blueprint \r\n\n  \nTatsu Prime Blade\n";
    assert_eq!(list_lines(text), vec!["Harrow Prime Blueprint", "Tatsu Prime Blade"]);
    assert!(list_lines("").is_empty());
    assert_eq!(list_lines("one"), vec!["one"]);
}
