use citybound::text::{chars_of, parse_usize, replace_chars, trim_str, usize_to_decimal};

#[test]
fn decimal_notation() {
    assert_eq!(usize_to_decimal(0), "0");
    assert_eq!(usize_to_decimal(7), "7");
    assert_eq!(usize_to_decimal(500000), "500000");
    assert_eq!(usize_to_decimal(usize::MAX), usize::MAX.to_string());
}

#[test]
fn parse_usize_matches_str_parse() {
    for s in ["0", "+5", "123", "", "+", "-1", "1a", "18446744073709551615", "18446744073709551616", " 1"] {
        assert_eq!(parse_usize(s), s.parse::<usize>().ok(), "{:?}", s);
    }
}

#[test]
fn trimming_matches_str_trim() {
    for s in ["", "  ", " a b ", "\u{3000}x\u{85}", "\t\n y \r"] {
        assert_eq!(trim_str(s), s.trim());
    }
}

#[test]
fn replacement_matches_str_replace() {
    let cases = [("aaaa", "aa", "b"), ("abcabc", "bc", "XYZ"), ("xyz", "q", "r"), ("aaa", "aa", "a")];
    for (s, p, w) in cases {
        let r: String = replace_chars(&chars_of(s), &chars_of(p), &chars_of(w)).into_iter().collect();
        assert_eq!(r, s.replace(p, w));
    }
}

#[test]
fn decimal_reads_back() {
    for n in [0usize, 9, 10, 99, 500000, usize::MAX] {
        assert_eq!(parse_usize(&usize_to_decimal(n)), Some(n));
    }
}
