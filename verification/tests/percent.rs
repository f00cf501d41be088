use permalink::percent::{is_escaped, is_url_unsafe, percent_decode, percent_encode};

#[test]
fn encoding_leaves_safe_characters() {
    let safe = "abcdefghijklmnopqrstuvwxyzABCDEFGHIJKLMNOPQRSTUVWXYZ0123456789-_";
    assert_eq!(percent_encode(safe), safe);
    assert_eq!(percent_encode(""), "");
}

#[test]
fn encoding_escapes_the_listed_punctuation() {
    assert_eq!(
        percent_encode(" !\"#$%&'()*+,./:;<=>?@[\\]^`{|}~"),
        "%20%21%22%23%24%25%26%27%28%29%2A%2B%2C%2E%2F%3A%3B%3C%3D%3E%3F%40%5B%5C%5D%5E%60%7B%7C%7D%7E"
    );
}

#[test]
fn encoding_escapes_control_characters() {
    assert_eq!(percent_encode("\u{0}\t\n\u{1f}\u{7f}"), "%00%09%0A%1F%7F");
}

#[test]
fn encoding_escapes_every_byte_of_other_characters() {
    assert_eq!(percent_encode("당근"), "%EB%8B%B9%EA%B7%BC");
    assert_eq!(percent_encode("é"), "%C3%A9");
    assert_eq!(percent_encode("💖"), "%F0%9F%92%96");
    assert_eq!(percent_encode("1등-a"), "1%EB%93%B1-a");
}

#[test]
fn the_unsafe_set() {
    for b in 0..=255u8 {
        let safe = b.is_ascii_alphanumeric() || b == b'-' || b == b'_';
        assert_eq!(is_escaped(b), !safe, "{:x}", b);
        assert_eq!(is_url_unsafe(b), b < 0x80 && !safe, "{:x}", b);
    }
}

#[test]
fn decoding_reads_escapes_of_either_case() {
    assert_eq!(percent_decode("foo%20bar%3f%3F"), Some("foo bar??".to_string()));
    assert_eq!(percent_decode("%EB%8B%B9%ea%b7%bc"), Some("당근".to_string()));
    assert_eq!(percent_decode(""), Some(String::new()));
}

#[test]
fn decoding_leaves_a_percent_sign_without_two_digits() {
    assert_eq!(percent_decode("100%"), Some("100%".to_string()));
    assert_eq!(percent_decode("%4"), Some("%4".to_string()));
    assert_eq!(percent_decode("%zz%41"), Some("%zzA".to_string()));
    assert_eq!(percent_decode("%%41"), Some("%A".to_string()));
}

#[test]
fn decoding_refuses_bytes_that_are_no_utf8() {
    assert_eq!(percent_decode("%FF"), None);
    assert_eq!(percent_decode("%EB%8B"), None);
    assert_eq!(percent_decode("%00%9F%92%96"), None);
    assert_eq!(percent_decode("%ED%A0%80"), None);
    assert_eq!(percent_decode("%C0%80"), None);
    assert_eq!(percent_decode("%F4%90%80%80"), None);
    assert_eq!(percent_decode("%F8%88%80%80%80"), None);
    assert_eq!(percent_decode("%80"), None);
}

#[test]
fn decoding_reads_characters_of_every_width() {
    assert_eq!(percent_decode("%7F"), Some("\u{7f}".to_string()));
    assert_eq!(percent_decode("%C2%80"), Some("\u{80}".to_string()));
    assert_eq!(percent_decode("%DF%BF"), Some("\u{7ff}".to_string()));
    assert_eq!(percent_decode("%E0%A0%80"), Some("\u{800}".to_string()));
    assert_eq!(percent_decode("%ED%9F%BF"), Some("\u{d7ff}".to_string()));
    assert_eq!(percent_decode("%EE%80%80"), Some("\u{e000}".to_string()));
    assert_eq!(percent_decode("%EF%BF%BF"), Some("\u{ffff}".to_string()));
    assert_eq!(percent_decode("%F0%90%80%80"), Some("\u{10000}".to_string()));
    assert_eq!(percent_decode("%F4%8F%BF%BF"), Some("\u{10ffff}".to_string()));
}

#[test]
fn decoding_undoes_encoding() {
    for text in ["", "abc", "당근마켓-대한민국", "100% sure? yes/no", "💖 é ｶﾞ", "%41", "a\u{0}b"] {
        assert_eq!(percent_decode(&percent_encode(text)), Some(text.to_string()));
    }
}

#[test]
fn encoding_of_every_character() {
    let mut buffer = [0u8; 4];
    for code in 0..=0x10_ffffu32 {
        let c = match char::from_u32(code) {
            Some(c) => c,
            None => continue,
        };
        let text: &str = c.encode_utf8(&mut buffer);
        let mut expected = String::new();
        for b in text.bytes() {
            if b.is_ascii_alphanumeric() || b == b'-' || b == b'_' {
                expected.push(b as char);
            } else {
                expected.push_str(&format!("%{:02X}", b));
            }
        }
        let encoded = percent_encode(text);
        assert_eq!(encoded, expected, "{:x}", code);
        if code % 97 == 0 || code < 0x3100 {
            assert_eq!(percent_decode(&encoded), Some(text.to_string()), "{:x}", code);
        }
    }
}
