use media_album::text::{
    parse_unsigned_chars, remove_all_exec, split_char, to_ascii_lowercase, trim_chars, u64_to_decimal,
};

fn chars(s: &str) -> Vec<char> {
    s.chars().collect()
}

#[test]
fn decimal_matches_to_string() {
    for n in [0u64, 7, 10, 99, 100, 12345, u64::MAX] {
        assert_eq!(u64_to_decimal(n), n.to_string());
    }
}

#[test]
fn parse_matches_std() {
    let samples = [
        "", "+", "-", "0", "+0", "-0", "42", "+42", "++42", "4 2", " 42", "42 ", "00042",
        "18446744073709551615", "18446744073709551616", "65535", "65536", "abc", "1a",
    ];
    for s in samples {
        let got = parse_unsigned_chars(&chars(s), u64::MAX);
        assert_eq!(got, s.parse::<u64>().ok(), "text {:?}", s);
        let got16 = parse_unsigned_chars(&chars(s), 65535).map(|v| v as u16);
        assert_eq!(got16, s.parse::<u16>().ok(), "text {:?}", s);
    }
}

#[test]
fn trim_matches_std() {
    let samples = [
        "", " ", "  a  ", "\t\nx y\r\n", "\u{3000}photo\u{00A0}", "\u{2028}", "a", "\u{200B}a",
        "  \"Canon\"  ",
    ];
    for s in samples {
        let got: String = trim_chars(&chars(s)).into_iter().collect();
        assert_eq!(got, s.trim(), "text {:?}", s);
    }
}

#[test]
fn lowercase_and_replace_match_std() {
    for s in ["MP4", "Jpg", "HEIC", "ÄÖ", "abc"] {
        let got: String = to_ascii_lowercase(&chars(s)).into_iter().collect();
        assert_eq!(got, s.to_ascii_lowercase());
    }
    for (s, p) in [("Canon EOS", "Canon"), ("aaa", "aa"), ("abc", ""), ("NIKON D750", "NIKON CORPORATION")] {
        let got: String = remove_all_exec(&chars(s), &chars(p)).into_iter().collect();
        assert_eq!(got, s.replace(p, ""), "text {:?} pattern {:?}", s, p);
    }
}

#[test]
fn split_matches_std() {
    for s in ["", "a", "a/b", "/a/", "a//b", "2024/trip/day1"] {
        let got: Vec<String> = split_char(&chars(s), '/')
            .into_iter()
            .map(|v| v.into_iter().collect())
            .collect();
        let want: Vec<String> = s.split('/').map(|p| p.to_string()).collect();
        assert_eq!(got, want);
    }
}
