use sure::text::{
    append_repeated, contains_text, decimal_at_least, decimal_string, join, same_text, split,
    trim,
};

#[test]
fn trim_removes_white_space_at_both_ends() {
    assert_eq!(trim("  Days on URE \n"), "Days on URE");
    assert_eq!(trim("\t\u{a0}Active\u{3000}"), "Active");
    assert_eq!(trim("a b"), "a b");
}

#[test]
fn trim_of_white_space_is_empty() {
    assert_eq!(trim(" \n\t "), "");
    assert_eq!(trim(""), "");
}

#[test]
fn trim_keeps_text_with_wide_characters() {
    assert_eq!(trim(" prix: 20\u{20ac} "), "prix: 20\u{20ac}");
}

#[test]
fn split_gives_one_more_piece_than_separators() {
    assert_eq!(split("a=b=c", '='), vec!["a", "b", "c"]);
    assert_eq!(split("a=", '='), vec!["a", ""]);
    assert_eq!(split("=a", '='), vec!["", "a"]);
    assert_eq!(split("", '='), vec![""]);
    assert_eq!(split("abc", '='), vec!["abc"]);
}

#[test]
fn split_agrees_with_std() {
    let samples = ["+1555,+1666", ",,", "x,y,,z", "no separator", "\u{e9},\u{20ac}"];
    for sample in samples {
        let expected: Vec<String> = sample.split(',').map(String::from).collect();
        assert_eq!(split(sample, ','), expected);
    }
}

#[test]
fn decimal_string_writes_numbers() {
    assert_eq!(decimal_string(0), "0");
    assert_eq!(decimal_string(7), "7");
    assert_eq!(decimal_string(10), "10");
    assert_eq!(decimal_string(1234567890), "1234567890");
    assert_eq!(decimal_string(usize::MAX), usize::MAX.to_string());
}

#[test]
fn decimal_at_least_compares_the_number_written() {
    assert!(decimal_at_least("20", 20));
    assert!(decimal_at_least("21", 20));
    assert!(!decimal_at_least("19", 20));
    assert!(decimal_at_least("0", 0));
    assert!(decimal_at_least("+20", 20));
    assert!(decimal_at_least("020", 20));
}

#[test]
fn decimal_at_least_refuses_what_is_no_number() {
    assert!(!decimal_at_least("", 0));
    assert!(!decimal_at_least("+", 0));
    assert!(!decimal_at_least("-20", 0));
    assert!(!decimal_at_least("20 ", 20));
    assert!(!decimal_at_least("2o", 0));
    assert!(!decimal_at_least("Just Listed", 20));
    assert!(!decimal_at_least("++20", 20));
}

#[test]
fn decimal_at_least_takes_numbers_of_any_size() {
    assert!(decimal_at_least("99999999999999999999999999999999999999999999", 20));
    assert!(decimal_at_least("99999999999999999999999999999999999999999999", usize::MAX));
    assert!(!decimal_at_least("18446744073709551614", usize::MAX));
}

#[test]
fn same_text_compares_contents() {
    assert!(same_text("Status", "Status"));
    assert!(!same_text("Status", "status"));
    assert!(!same_text("Status", "Status "));
    assert!(same_text("", ""));
}

#[test]
fn contains_text_finds_whole_strings_only() {
    let seen = vec![String::from("A"), String::from("BC")];
    assert!(contains_text(&seen, "A"));
    assert!(contains_text(&seen, "BC"));
    assert!(!contains_text(&seen, "B"));
    assert!(!contains_text(&Vec::new(), "A"));
}

#[test]
fn append_repeated_appends_the_unit_count_times() {
    let mut out = String::from("[");
    append_repeated(&mut out, "=", 3);
    assert_eq!(out, "[===");
    append_repeated(&mut out, "ab", 2);
    assert_eq!(out, "[===abab");
    append_repeated(&mut out, "x", 0);
    assert_eq!(out, "[===abab");
}

#[test]
fn trim_agrees_with_std() {
    let samples = [
        "",
        " ",
        "a",
        " a",
        "a ",
        "\r\n Days on URE \r\n",
        "\u{85}x\u{2028}",
        "\u{1680}\u{2003}y z\u{202f}\u{205f}",
        "\u{200b}zero width\u{200b}",
        "\u{feff}mark",
        "in\tside",
    ];
    for sample in samples {
        assert_eq!(trim(sample), sample.trim());
    }
}

#[test]
fn white_space_is_the_listed_characters_and_no_other() {
    for code in 0..=0x10ffff_u32 {
        if let Some(c) = char::from_u32(code) {
            let listed = matches!(
                code,
                0x9..=0xd
                    | 0x20
                    | 0x85
                    | 0xa0
                    | 0x1680
                    | 0x2000..=0x200a
                    | 0x2028
                    | 0x2029
                    | 0x202f
                    | 0x205f
                    | 0x3000
            );
            let text = String::from(c);
            assert_eq!(trim(&text).is_empty(), listed, "U+{:04X}", code);
        }
    }
}

#[test]
fn join_puts_the_separator_between_the_parts_only() {
    let parts = vec![String::from("a=1"), String::from("b=2")];
    assert_eq!(join(&parts, "&"), "a=1&b=2");
    assert_eq!(join(&vec![String::from("a=1")], "&"), "a=1");
    assert_eq!(join(&Vec::new(), "&"), "");
    assert_eq!(join(&vec![String::new(), String::new(), String::new()], ", "), ", , ");
    assert_eq!(join(&parts, ""), "a=1b=2");
}

#[test]
fn join_agrees_with_std() {
    let parts: Vec<String> = ["x", "", "y z", "\u{20ac}"].iter().map(|p| String::from(*p)).collect();
    for count in 0..=parts.len() {
        let some = parts[..count].to_vec();
        assert_eq!(join(&some, "\n"), some.join("\n"));
    }
}
