use mamkilover::keys::KeySet;
use mamkilover::pattern::{InvalidPattern, Regex};
use mamkilover::text::{
    chars_of, decimal_string, decode_utf16_lossy, encode_utf16, string_of, trim_end,
};

#[test]
fn every_character_is_encoded() {
    for code in 0..=0x10FFFFu32 {
        if let Some(c) = char::from_u32(code) {
            let text = c.to_string();
            let units: Vec<u16> = text.encode_utf16().collect();
            assert_eq!(encode_utf16(&text), units);
            assert_eq!(decode_utf16_lossy(&units), text);
        }
    }
}

#[test]
fn utf16_round_trip() {
    for text in ["", "plain", "naïve — café", "😀 and 𝕏", "\u{FFFD}", "a\u{10FFFF}b\u{10000}"] {
        assert_eq!(decode_utf16_lossy(&encode_utf16(text)), text);
    }
}

#[test]
fn unpaired_surrogates_are_replaced() {
    assert_eq!(decode_utf16_lossy(&[0xD83D]), "\u{FFFD}");
    assert_eq!(decode_utf16_lossy(&[0xDE00]), "\u{FFFD}");
    assert_eq!(decode_utf16_lossy(&[0xDE00, 0xD83D]), "\u{FFFD}\u{FFFD}");
    assert_eq!(decode_utf16_lossy(&[0xD83D, 0x61]), "\u{FFFD}a");
    assert_eq!(decode_utf16_lossy(&[0xD83D, 0xD83D, 0xDE00]), "\u{FFFD}😀");
}

#[test]
fn decoding_agrees_on_all_pairs_of_edges() {
    let edges = [
        0u16, 0x41, 0xD7FF, 0xD800, 0xD83D, 0xDBFF, 0xDC00, 0xDE00, 0xDFFF, 0xE000, 0xFFFD, 0xFFFF,
    ];
    for a in edges {
        assert_eq!(decode_utf16_lossy(&[a]), String::from_utf16_lossy(&[a]));
        for b in edges {
            assert_eq!(decode_utf16_lossy(&[a, b]), String::from_utf16_lossy(&[a, b]));
            for c in edges {
                assert_eq!(decode_utf16_lossy(&[a, b, c]), String::from_utf16_lossy(&[a, b, c]));
            }
        }
    }
}

#[test]
fn characters_and_back() {
    let chars = chars_of("aé😀");
    assert_eq!(chars, vec!['a', 'é', '😀']);
    assert_eq!(string_of(&chars), "aé😀");
    assert_eq!(string_of(&[]), "");
}

#[test]
fn white_space_is_trimmed_at_the_end() {
    assert_eq!(trim_end("a b \t\n"), "a b");
    assert_eq!(trim_end(" \u{3000}\u{2029}"), "");
    assert_eq!(trim_end("  a"), "  a");
    assert_eq!(trim_end(""), "");
}

#[test]
fn every_white_space_is_trimmed() {
    for code in 0..=0x10FFFFu32 {
        if let Some(c) = char::from_u32(code) {
            let text = format!("x{}", c);
            assert_eq!(trim_end(&text), text.trim_end());
        }
    }
}

#[test]
fn decimal_notation() {
    assert_eq!(decimal_string(0), "0");
    assert_eq!(decimal_string(7), "7");
    assert_eq!(decimal_string(-1002003), "-1002003");
    assert_eq!(decimal_string(i64::MAX), i64::MAX.to_string());
    assert_eq!(decimal_string(i64::MIN), i64::MIN.to_string());
}

#[test]
fn sets_hold_a_name_once() {
    let mut set = KeySet::new();
    assert!(!set.contains("s"));
    assert!(set.insert("s"));
    assert!(set.insert("t"));
    assert!(!set.insert("s"));
    assert!(set.contains("s"));
    assert!(set.contains("t"));
    assert!(!set.contains("S"));
    assert!(!set.contains(""));
}

#[test]
fn expressions_match() {
    let hosts = Regex::new("^(?:www\\.)?x\\.com$").ok().unwrap();
    assert!(hosts.is_match("x.com"));
    assert!(hosts.is_match("www.x.com"));
    assert!(!hosts.is_match("xxcom"));
    assert!(!hosts.is_match("mobile.x.com"));
    let copy = hosts.copy();
    assert!(copy.is_match("x.com"));
    assert!(!copy.is_match("y.com"));
    assert!(Regex::new("b+").ok().unwrap().is_match("abc"));
}

#[test]
fn invalid_expressions_are_refused() {
    assert_eq!(Regex::new("(").err(), Some(InvalidPattern));
    assert_eq!(Regex::new("a{2,1}").err(), Some(InvalidPattern));
}
