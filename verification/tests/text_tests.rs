use discord_bot::text::{
    chars_of, contains_str, decimal_string, find_char, has_char, join_texts,
    parse_u32, parse_u64, replace_all_char, same_text, string_of,
};

#[test]
fn parse_u32_agrees_with_std() {
    let inputs = [
        "0", "7", "007", "+12", "-1", "+", "", " 1", "1 ", "12a", "4294967295", "4294967296",
        "99999999999", "１２", "1_000", "+-1", "++1",
    ];
    for s in inputs.iter() {
        assert_eq!(parse_u32(s), s.parse::<u32>().ok(), "input {:?}", s);
    }
}

#[test]
fn parse_u64_agrees_with_std() {
    let inputs = [
        "0", "18446744073709551615", "18446744073709551616", "+5", "5x", "", "-0", "300",
    ];
    for s in inputs.iter() {
        assert_eq!(parse_u64(s), s.parse::<u64>().ok(), "input {:?}", s);
    }
}

#[test]
fn decimal_round_trip() {
    for n in [0u64, 9, 10, 481, 4294967295, 18446744073709551615].iter() {
        let s = decimal_string(*n);
        assert_eq!(s, n.to_string());
        assert_eq!(parse_u64(&s), Some(*n));
    }
}

#[test]
fn search_helpers() {
    let cs = chars_of("/item/K0001/x");
    assert_eq!(cs.len(), 13);
    assert_eq!(find_char(&cs, 'K'), Some(6));
    assert_eq!(find_char(&cs, 'Z'), None);
    assert!(has_char("2024年1月1日", '日'));
    assert!(!has_char("abc", '日'));
    assert!(contains_str("\"status success\"", "success"));
    assert!(!contains_str("\"status danger\"", "success"));
    assert!(contains_str("abc", ""));
    assert!(!contains_str("ab", "abc"));
    assert!(same_text("晴れ", "晴れ"));
    assert!(!same_text("晴れ", "晴"));
    assert_eq!(string_of(&cs, 6, 11), "K0001");
}

#[test]
fn string_building() {
    let parts = vec!["Foo".to_string(), "\u{3000}".to_string(), "Bar".to_string()];
    let joined = join_texts(&parts);
    assert_eq!(joined, "Foo\u{3000}Bar");
    assert_eq!(replace_all_char(&joined, '\u{3000}', ' '), "Foo Bar");
}

