use job_post_counts_scraper_cargo_lambda::text::{
    chars_of, contains_chars, first_word_bounds, is_white_space, parse_i32, remove_commas,
    to_lowercase, trim,
};

#[test]
fn white_space_agrees_with_std_on_every_char() {
    for u in 0u32..=0x10FFFF {
        if let Some(c) = char::from_u32(u) {
            assert_eq!(is_white_space(c), c.is_whitespace(), "U+{:04X}", u);
        }
    }
}

#[test]
fn trim_agrees_with_std() {
    let samples = [
        "",
        "   ",
        "abc",
        "  abc  ",
        "\t\nabc def\r\n",
        "\u{3000}全角\u{3000}",
        "\u{a0}x\u{2029}",
        " a ",
    ];
    for s in samples {
        assert_eq!(trim(s), s.trim(), "{:?}", s);
    }
}

#[test]
fn chars_of_keeps_every_char() {
    let s = "añb€😀";
    assert_eq!(chars_of(s), s.chars().collect::<Vec<char>>());
}

#[test]
fn first_word_bounds_find_the_first_word() {
    let v = chars_of("  1,234 Rust jobs");
    assert_eq!(first_word_bounds(&v), Some((2, 7)));
    let v = chars_of("single");
    assert_eq!(first_word_bounds(&v), Some((0, 6)));
    let v = chars_of(" \t\n ");
    assert_eq!(first_word_bounds(&v), None);
    let v = chars_of("");
    assert_eq!(first_word_bounds(&v), None);
}

#[test]
fn first_word_agrees_with_split_whitespace() {
    let samples = ["", "  ", "a", " a b", "\u{2003}x\u{2003}y", "12,345\u{a0}jobs", "x\ty"];
    for s in samples {
        let v = chars_of(s);
        let ours = first_word_bounds(&v).map(|(a, b)| v[a..b].iter().collect::<String>());
        let std = s.split_whitespace().next().map(str::to_owned);
        assert_eq!(ours, std, "{:?}", s);
    }
}

#[test]
fn remove_commas_drops_only_commas() {
    let v = chars_of("a,1,,234,");
    assert_eq!(remove_commas(&v, 0, v.len()), chars_of("a1234"));
    assert_eq!(remove_commas(&v, 2, 6), chars_of("12"));
    assert_eq!(remove_commas(&v, 3, 3), Vec::<char>::new());
}

#[test]
fn parse_i32_agrees_with_std() {
    let samples = [
        "", "+", "-", "0", "-0", "+0", "42", "+42", "-42", "007", "2147483647", "2147483648",
        "-2147483648", "-2147483649", "99999999999", "99999999999x", "12a", "a12", " 1", "1 ",
        "+-1", "--1", "1.5", "١٢", "4294967296", "-00000000000000000001",
    ];
    for s in samples {
        assert_eq!(parse_i32(&chars_of(s)), s.parse::<i32>().ok(), "{:?}", s);
    }
}

#[test]
fn contains_chars_agrees_with_std() {
    let samples = [
        ("", ""),
        ("abc", ""),
        ("", "a"),
        ("abc", "abc"),
        ("abc", "abcd"),
        ("rust developer jobs", "developer"),
        ("rust developer jobs", "dev jobs"),
        ("aaab", "aab"),
        ("münchen", "ünch"),
    ];
    for (hay, needle) in samples {
        assert_eq!(
            contains_chars(&chars_of(hay), &chars_of(needle)),
            hay.contains(needle),
            "{:?} {:?}",
            hay,
            needle
        );
    }
}

#[test]
fn to_lowercase_lowers_unicode() {
    assert_eq!(to_lowercase("Rust DEVELOPER"), "rust developer");
    assert_eq!(to_lowercase("MÜNCHEN"), "münchen");
    assert_eq!(to_lowercase("ΟΔΟΣ"), "οδος");
}

#[test]
fn trimming_twice_is_trimming_once() {
    for s in ["", " ", " a b ", "\u{2028}x\u{85}", "abc"] {
        let once = trim(s);
        assert_eq!(trim(&once), once);
        assert!(!once.starts_with(char::is_whitespace) && !once.ends_with(char::is_whitespace));
    }
}
