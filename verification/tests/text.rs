use grid_client::text::{is_white_space, parse_msg_arg, same_text, split_fields, trim};

#[test]
fn white_space_is_what_the_standard_library_says() {
    let mut code: u32 = 0;
    while code <= 0x10FFFF {
        if let Some(c) = char::from_u32(code) {
            assert_eq!(is_white_space(c), c.is_whitespace(), "U+{:04X}", code);
        }
        code += 1;
    }
}

#[test]
fn trim_drops_white_space_at_both_ends() {
    assert_eq!(trim("  tick \n"), "tick");
    assert_eq!(trim("tick"), "tick");
    assert_eq!(trim(""), "");
    assert_eq!(trim(" \t\r\n"), "");
    assert_eq!(trim(" a b "), "a b");
    assert_eq!(trim("\u{00A0}\u{3000}x\u{2003}"), "x");
    assert_eq!(trim(" é "), "é");
}

#[test]
fn trim_agrees_with_the_standard_library() {
    let samples = [
        "", " ", "a", " a", "a ", "  a  b  ", "\n", "x\n", "\t\tx y\r\n", "\u{1680}q\u{205F}",
        "ü ", " 漢字 ", "|", " | ",
    ];
    for s in samples {
        assert_eq!(trim(s), s.trim());
    }
}

#[test]
fn split_fields_cuts_at_every_bar() {
    assert_eq!(split_fields("pos|1|2|3"), vec!["pos", "1", "2", "3"]);
    assert_eq!(split_fields("tick"), vec!["tick"]);
    assert_eq!(split_fields(""), vec![""]);
    assert_eq!(split_fields("|"), vec!["", ""]);
    assert_eq!(split_fields("a||b|"), vec!["a", "", "b", ""]);
    assert_eq!(split_fields("chat|3| héllo wörld \n"), vec!["chat", "3", " héllo wörld \n"]);
}

#[test]
fn split_fields_agrees_with_the_standard_library() {
    let samples = ["", "|", "||", "a|b", "|a", "a|", "game|4|4|0\n", "x|ü|漢|", "no bars at all"];
    for s in samples {
        let expected: Vec<&str> = s.split('|').collect();
        assert_eq!(split_fields(s), expected);
    }
}

#[test]
fn parse_msg_arg_reads_numbers() {
    assert_eq!(parse_msg_arg("0"), Some(0));
    assert_eq!(parse_msg_arg("42"), Some(42));
    assert_eq!(parse_msg_arg(" 7 \n"), Some(7));
    assert_eq!(parse_msg_arg("+5"), Some(5));
    assert_eq!(parse_msg_arg("007"), Some(7));
    assert_eq!(parse_msg_arg("1234567890"), Some(1234567890));
}

#[test]
fn parse_msg_arg_refuses_what_is_no_number() {
    assert_eq!(parse_msg_arg(""), None);
    assert_eq!(parse_msg_arg("   "), None);
    assert_eq!(parse_msg_arg("+"), None);
    assert_eq!(parse_msg_arg("-1"), None);
    assert_eq!(parse_msg_arg("-0"), None);
    assert_eq!(parse_msg_arg("++1"), None);
    assert_eq!(parse_msg_arg("1 2"), None);
    assert_eq!(parse_msg_arg("12a"), None);
    assert_eq!(parse_msg_arg("a12"), None);
    assert_eq!(parse_msg_arg("1.5"), None);
    assert_eq!(parse_msg_arg("٣"), None);
    assert_eq!(parse_msg_arg("1+"), None);
}

#[test]
fn parse_msg_arg_at_the_limit() {
    let max = usize::MAX.to_string();
    assert_eq!(parse_msg_arg(&max), Some(usize::MAX));
    let padded = format!("  +000{}\n", max);
    assert_eq!(parse_msg_arg(&padded), Some(usize::MAX));
    let mut above = max.clone();
    let last = above.pop().unwrap();
    above.push(char::from_digit(last.to_digit(10).unwrap() + 1, 10).unwrap());
    assert_eq!(parse_msg_arg(&above), None);
    let longer = format!("{}0", max);
    assert_eq!(parse_msg_arg(&longer), None);
    assert_eq!(parse_msg_arg("99999999999999999999999999999999999999999"), None);
    assert_eq!(parse_msg_arg("9999999999999999999999999x"), None);
}

#[test]
fn parse_msg_arg_agrees_with_the_standard_library() {
    let samples = [
        "", " ", "0", "00", "+0", "-0", "+", "-", "1", " 1", "1 ", "\t12\n", "+12", "+-12", "1_000",
        "0x10", "18446744073709551615", "18446744073709551616", "4294967295", "4294967296", "１２",
        "12\u{00A0}", "\u{2003}9",
    ];
    for s in samples {
        assert_eq!(parse_msg_arg(s), s.trim().parse::<usize>().ok(), "{:?}", s);
    }
    for n in 0..2000usize {
        assert_eq!(parse_msg_arg(&n.to_string()), Some(n));
    }
}

#[test]
fn same_text_compares_texts() {
    assert!(same_text("tick", "tick"));
    assert!(same_text("", ""));
    assert!(!same_text("tick", "tock"));
    assert!(!same_text("tick", "tick "));
    assert!(!same_text("Tick", "tick"));
}
