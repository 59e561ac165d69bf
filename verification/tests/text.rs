use reactor_sim::text::{
    append_decimal, chars_of, dash_or_end, has_prefix, parse_u8_between, trim_bounds,
};

fn chars(text: &str) -> Vec<char> {
    text.chars().collect()
}

#[test]
fn chars_of_lists_every_character() {
    assert_eq!(chars_of(""), Vec::<char>::new());
    assert_eq!(chars_of("Vent1"), vec!['V', 'e', 'n', 't', '1']);
    assert_eq!(chars_of("a\u{e9}\u{3000}\u{1f600}z"), chars("a\u{e9}\u{3000}\u{1f600}z"));
}

#[test]
fn trim_bounds_agree_with_the_standard_library() {
    for text in [
        "",
        " ",
        "\t\n\r ",
        "a",
        " a",
        "a ",
        "  a b  ",
        "\u{85}x\u{a0}",
        "\u{1680}\u{2000}\u{200a}x\u{2028}\u{2029}\u{202f}\u{205f}\u{3000}",
        "\u{200b}x\u{200b}",
        "\u{b}\u{c}x\u{1c}",
        " \u{feff} ",
    ] {
        let all = chars(text);
        let (from, to) = trim_bounds(&all);
        let kept: String = all[from..to].iter().collect();
        assert_eq!(kept, text.trim(), "{text:?}");
        let started: String = all[from..].iter().collect();
        assert_eq!(started, text.trim_start(), "{text:?}");
    }
}

#[test]
fn prefixes_are_compared_within_the_range() {
    let all = chars("xxVent12yy");
    assert!(has_prefix(&all, 2, 8, "Vent"));
    assert!(has_prefix(&all, 2, 8, ""));
    assert!(has_prefix(&all, 2, 6, "Vent"));
    assert!(!has_prefix(&all, 2, 5, "Vent"));
    assert!(!has_prefix(&all, 0, 10, "Vent"));
    assert!(!has_prefix(&all, 2, 8, "Vend"));
    assert!(has_prefix(&all, 10, 10, ""));
    assert!(!has_prefix(&all, 10, 10, "V"));
}

#[test]
fn small_numbers_are_read_as_the_standard_library_reads_them() {
    for text in [
        "0", "7", "42", "255", "256", "300", "0255", "000", "+5", "+255", "+256", "++5", "-5",
        "-0", "+", "", "5+", "5 ", " 5", "1e1", "0x1", "٣", "99999999999999999999999999",
    ] {
        let all = chars(text);
        assert_eq!(
            parse_u8_between(&all, 0, all.len()),
            text.parse::<u8>().ok(),
            "{text:?}"
        );
    }
    let all = chars("ab12cd");
    assert_eq!(parse_u8_between(&all, 2, 4), Some(12));
    assert_eq!(parse_u8_between(&all, 2, 5), None);
    assert_eq!(parse_u8_between(&all, 3, 3), None);
}

#[test]
fn the_first_dash_ends_the_number() {
    let all = chars("Fuel10-1-2");
    assert_eq!(dash_or_end(&all, 4, all.len()), 6);
    assert_eq!(dash_or_end(&all, 7, all.len()), 8);
    assert_eq!(dash_or_end(&all, 9, all.len()), 10);
    assert_eq!(dash_or_end(&all, 4, 5), 5);
    assert_eq!(dash_or_end(&all, 6, all.len()), 6);
    assert_eq!(dash_or_end(&all, 10, 10), 10);
}

#[test]
fn numbers_are_written_without_sign_or_leading_zeros() {
    for n in 0..=255u8 {
        let mut out = String::from("x");
        append_decimal(&mut out, n);
        assert_eq!(out, format!("x{n}"));
    }
}
