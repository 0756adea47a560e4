use email_sec::text::{
    contains, decode_bytes, ends_with, head_line, is_white_space, join, lowercase, parse_unsigned,
    quote, same, shorten, split_lines, split_on, split_words, starts_with, to_debug_list,
    to_decimal, trim, uppercase,
};

#[test]
fn white_space_is_unicode_white_space() {
    for n in 0..0x110000u32 {
        if let Some(c) = char::from_u32(n) {
            assert_eq!(is_white_space(c), c.is_whitespace(), "{:x}", n);
        }
    }
}

#[test]
fn searching_agrees_with_std() {
    let texts = ["", "a", "ab", "aab", "abab", "ba", "é", "aé", "éa"];
    for hay in texts {
        for needle in texts {
            assert_eq!(contains(hay, needle), hay.contains(needle));
            assert_eq!(starts_with(hay, needle), hay.starts_with(needle));
            assert_eq!(ends_with(hay, needle), hay.ends_with(needle));
            assert_eq!(same(hay, needle), hay == needle);
        }
    }
}

#[test]
fn trimming_and_words_agree_with_std() {
    for text in ["", " ", "a", " a ", "\u{3000}a b\u{85}", "\t\n", "a  b\u{2003}c", "é \r\n"] {
        assert_eq!(trim(text), text.trim());
        let std_words: Vec<String> = text.split_whitespace().map(|w| w.to_string()).collect();
        assert_eq!(split_words(text), std_words);
    }
}

#[test]
fn splitting_agrees_with_std() {
    for text in ["", ";", "a", "a;", ";a", "a;;b", "a;b;c"] {
        let pieces: Vec<String> = text.split(';').map(|w| w.to_string()).collect();
        assert_eq!(split_on(text, ';'), pieces);
    }
    for text in ["", "\n", "a", "a\n", "a\r\nb", "a\rb\r", "\r\n\r\n", "a\n\nb", "\n\r"] {
        let lines: Vec<String> = text.lines().map(|l| l.to_string()).collect();
        assert_eq!(split_lines(text), lines);
        assert_eq!(head_line(text), text.lines().next().unwrap_or(""));
    }
}

#[test]
fn numbers_agree_with_std() {
    for text in ["", "0", "7", "007", "+7", "+", "-1", "++1", "65535", "65536", "99999999999", "1 ", "١"] {
        assert_eq!(parse_unsigned(text, 65535), text.parse::<u16>().ok(), "{}", text);
    }
    for n in [0, 9, 10, 99, 100, 18446744073709551615] {
        assert_eq!(to_decimal(n), n.to_string());
        if n <= 255 {
            assert_eq!(parse_unsigned(&to_decimal(n), 255), Some(n as u16));
        }
    }
}

#[test]
fn joining_and_shortening() {
    let parts = vec!["a".to_string(), "b".to_string(), "c".to_string()];
    assert_eq!(join(&parts, " | "), "a | b | c");
    assert_eq!(join(&vec![], " | "), "");
    assert_eq!(split_on(&join(&parts, ";"), ';'), parts);
    assert_eq!(shorten("aéb", 2), "aé");
    assert_eq!(shorten("aéb", 3), "aéb");
}

#[test]
fn case_quotes_and_bytes() {
    assert_eq!(lowercase("ExAmple.COM-1"), "example.com-1");
    assert_eq!(lowercase("ÄΣ"), "äς");
    assert_eq!(uppercase("example.com"), "EXAMPLE.COM");
    assert_eq!(uppercase("straße"), "STRASSE");
    assert_eq!(quote("a:b/c"), "\"a:b/c\"");
    assert_eq!(quote("a\"b\\\n"), "\"a\\\"b\\\\\\n\"");
    assert_eq!(to_debug_list(&vec!["mx".to_string(), "a b".to_string()]), "[\"mx\", \"a b\"]");
    assert_eq!(to_debug_list(&vec![]), "[]");
    assert_eq!(decode_bytes("é€".as_bytes()), "é€");
    assert_eq!(decode_bytes(&[0x61, 0xff, 0x62]), "a\u{fffd}b");
}
